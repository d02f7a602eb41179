# cross_domain

The cross-domain context type of a virtio-gpu device: a guest shares memory, pipes, events and
sockets with programs on the host through commands in a buffer, answers in rings of guest memory,
and fences.

The library (`src/`) keeps the state of a component, its contexts and their workers, and makes all
decisions. Its behaviour is stated in contracts and proved with Verus.

- `wire`, `cross_domain_protocol`: integers in bytes and the structures of the protocol.
- `command`: reading the commands in a buffer and carrying them out one after the other.
- `common`: items, jobs and rings.
- `context`: what a context does with items, resources, watchers and jobs.
- `dispatch`: which of that each command of a guest is, and what is left of it to do on the host.
- `worker`: what the worker of a context does about jobs, events and received messages.
- `atomic_memory_sentinel_manager`: the watchers of shared memory.
- `component`: capabilities, contexts and guest resources.
- `handle`, `rutabaga_utils`, `platform`: handles, plain data, and the calls to the system.
- `laws`: what holds of several operations together.

The models in the contracts (`ItemsModel`, `StateModel`, `ContextModel`, ...) are what the values
hold; spec functions on them say what an operation makes of them.

`app/` is the part around the library: threads, sockets, pipes, events, polling and guest memory.
