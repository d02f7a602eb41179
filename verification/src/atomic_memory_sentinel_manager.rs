//! Manager for atomic memory sentinel instances.
//!
//! A sentinel watches a word of shared memory from a thread of its own and raises an event
//! whenever the word was changed or woken. This module keeps the books of the watchers: creating,
//! signalling and destroying them.

use std::collections::BTreeMap;

use magma_gpu::util::Event;

use vstd::prelude::*;

use crate::cross_domain_protocol::CrossDomainSignalAtomicMemorySentinel;
use crate::cross_domain_protocol::CROSS_DOMAIN_CMD_SIGNAL_ATOMIC_MEMORY_SENTINEL;
use crate::rutabaga_utils::RutabagaError;
use crate::rutabaga_utils::RUTABAGA_MAP_ACCESS_RW;
use crate::rutabaga_utils::RUTABAGA_MAP_CACHE_CACHED;

verus! {

/// How far a watcher thread is.
#[derive(Copy, Clone, Debug, PartialEq, Eq)]
pub enum SentinelPhase {
    /// It has not signalled its event for the first time yet.
    Starting,
    /// It waits for the memory.
    Waiting,
    /// It woke up and has not signalled its event since. The flag says that it was shut down.
    Woken(bool),
    /// It is done.
    Ended,
}

/// The part of a watcher thread that remembers: the value of the memory against which it waits, and
/// how far it is.
#[derive(Copy, Clone, Debug, PartialEq, Eq)]
pub struct AtomicMemorySentinelThread {
    pub val: u32,
    pub phase: SentinelPhase,
}

/// What a watcher thread does next.
#[derive(Copy, Clone, Debug, PartialEq, Eq)]
pub enum SentinelAction {
    /// Signal the event, and tell `signalled` whether that succeeded.
    Signal,
    /// Wait until the memory is woken or does not hold this value. Then load the value, read after
    /// that whether the watcher was shut down, and give both to `run`.
    Wait(u32),
    /// End.
    Stop,
}

impl AtomicMemorySentinelThread {
    /// What the thread does next.
    pub open spec fn next(self) -> SentinelAction {
        match self.phase {
            SentinelPhase::Starting => SentinelAction::Signal,
            SentinelPhase::Waiting => SentinelAction::Wait(self.val),
            SentinelPhase::Woken(_) => SentinelAction::Signal,
            SentinelPhase::Ended => SentinelAction::Stop,
        }
    }

    /// The thread after a signal. It does not matter whether the first one succeeded. A later one
    /// is the last where the watcher was shut down, so that the shutdown is noticed, and where it
    /// failed.
    pub open spec fn after_signal(self, success: bool) -> AtomicMemorySentinelThread {
        AtomicMemorySentinelThread {
            phase: match self.phase {
                SentinelPhase::Woken(shutdown) => if shutdown || !success {
                    SentinelPhase::Ended
                } else {
                    SentinelPhase::Waiting
                },
                _ => SentinelPhase::Waiting,
            },
            ..self
        }
    }

    /// `initial_value` was loaded together with the creation of the watcher, so no wake-up can
    /// belong to it yet.
    pub fn new(initial_value: u32) -> (r: AtomicMemorySentinelThread)
        ensures
            r == (AtomicMemorySentinelThread {
                val: initial_value,
                phase: SentinelPhase::Starting,
            }),
    {
        AtomicMemorySentinelThread { val: initial_value, phase: SentinelPhase::Starting }
    }

    /// What the thread does next.
    pub fn next_action(&self) -> (r: SentinelAction)
        ensures
            r == self.next(),
    {
        match self.phase {
            SentinelPhase::Starting => SentinelAction::Signal,
            SentinelPhase::Waiting => SentinelAction::Wait(self.val),
            SentinelPhase::Woken(_) => SentinelAction::Signal,
            SentinelPhase::Ended => SentinelAction::Stop,
        }
    }

    /// Enters whether a signal succeeded.
    pub fn signalled(&mut self, success: bool)
        requires
            old(self).next() is Signal,
        ensures
            *final(self) == old(self).after_signal(success),
    {
        self.phase = match self.phase {
            SentinelPhase::Woken(shutdown) => if shutdown || !success {
                SentinelPhase::Ended
            } else {
                SentinelPhase::Waiting
            },
            _ => SentinelPhase::Waiting,
        };
    }

    /// One turn of the thread, after a wait returned: `loaded` is what the memory holds now, and
    /// `shutdown` was read after that. The next wait is against `loaded`, so a change that comes
    /// after the load ends it at once.
    pub fn run(&mut self, loaded: u32, shutdown: bool)
        requires
            old(self).next() is Wait,
        ensures
            *final(self) == (AtomicMemorySentinelThread {
                val: loaded,
                phase: SentinelPhase::Woken(shutdown),
            }),
    {
        self.val = loaded;
        self.phase = SentinelPhase::Woken(shutdown);
    }
}

/// A single watcher: whatever runs it, whether it was shut down, and its event.
pub struct SentinelInstance<W> {
    pub worker: W,
    pub shutdown: bool,
    pub evt: Event,
}

impl<W> SentinelInstance<W> {
    /// Marks the watcher as shut down.
    pub fn shutdown(&mut self)
        ensures
            *final(self) == (SentinelInstance { shutdown: true, ..*old(self) }),
    {
        self.shutdown = true;
    }

    pub fn is_shutdown(&self) -> (r: bool)
        ensures
            r == self.shutdown,
    {
        self.shutdown
    }
}

/// The memory that a new watcher maps: the start of an exported file.
#[derive(Copy, Clone, Debug, PartialEq, Eq)]
pub struct WatchedMemory {
    pub fs_id: u64,
    pub handle: u64,
    pub size: usize,
    pub map_info: u32,
}

/// One word of the file, cached, to be read and written.
pub open spec fn watched_word(fs_id: u64, handle: u64) -> WatchedMemory {
    WatchedMemory {
        fs_id,
        handle,
        size: 4,
        map_info: RUTABAGA_MAP_ACCESS_RW | RUTABAGA_MAP_CACHE_CACHED,
    }
}

/// Manager for all atomic memory sentinel watchers.
pub struct AtomicMemorySentinelManager<W> {
    pub watchers: BTreeMap<u32, SentinelInstance<W>>,
    pub virtiofs_lookup: bool,
}

/// What `AtomicMemorySentinelManager` holds: the watchers by their identifiers, and whether files
/// can be looked up at all.
#[verifier::ext_equal]
pub struct ManagerModel<W> {
    pub watchers: Map<u32, SentinelInstance<W>>,
    pub virtiofs_lookup: bool,
}

impl<W> View for AtomicMemorySentinelManager<W> {
    type V = ManagerModel<W>;

    open spec fn view(&self) -> ManagerModel<W> {
        ManagerModel { watchers: self.watchers@, virtiofs_lookup: self.virtiofs_lookup }
    }
}

impl<W> ManagerModel<W> {
    /// A manager without watchers.
    pub open spec fn initial(virtiofs_lookup: bool) -> ManagerModel<W> {
        ManagerModel { watchers: Map::empty(), virtiofs_lookup }
    }

    /// There is no such watcher, or it was shut down.
    pub open spec fn is_shutdown(self, id: u32) -> bool {
        self.watchers.contains_key(id) ==> self.watchers[id].shutdown
    }

    /// Whether a watcher can be created: the identifier has to be free, and files have to be
    /// known.
    pub open spec fn creation(self, id: u32) -> Result<(), RutabagaError> {
        if self.watchers.contains_key(id) {
            Err(RutabagaError::AlreadyInUse)
        } else if !self.virtiofs_lookup {
            Err(RutabagaError::InvalidCrossDomainItemId)
        } else {
            Ok(())
        }
    }

    /// The manager with a running watcher under `id`.
    pub open spec fn with_watcher(self, id: u32, worker: W, evt: Event) -> ManagerModel<W> {
        ManagerModel {
            watchers: self.watchers.insert(
                id,
                SentinelInstance { worker, shutdown: false, evt },
            ),
            ..self
        }
    }

    /// The manager with the watcher under `id` shut down.
    pub open spec fn with_shutdown(self, id: u32) -> ManagerModel<W> {
        ManagerModel {
            watchers: self.watchers.insert(
                id,
                SentinelInstance { shutdown: true, ..self.watchers[id] },
            ),
            ..self
        }
    }

    /// The manager without the watcher under `id`.
    pub open spec fn without_watcher(self, id: u32) -> ManagerModel<W> {
        ManagerModel { watchers: self.watchers.remove(id), ..self }
    }
}

/// The command that tells the guest about a wake-up of the watcher `id`.
pub open spec fn signal_command(id: u32) -> CrossDomainSignalAtomicMemorySentinel {
    CrossDomainSignalAtomicMemorySentinel {
        hdr: crate::cross_domain_protocol::CrossDomainHeader {
            cmd: CROSS_DOMAIN_CMD_SIGNAL_ATOMIC_MEMORY_SENTINEL,
            ..crate::cross_domain_protocol::zero_header()
        },
        id,
        pad: 0,
    }
}

impl<W> AtomicMemorySentinelManager<W> {
    /// Creates a new manager; `virtiofs_lookup` says whether files can be looked up.
    pub fn new(virtiofs_lookup: bool) -> (r: AtomicMemorySentinelManager<W>)
        ensures
            r@ == ManagerModel::<W>::initial(virtiofs_lookup),
    {
        AtomicMemorySentinelManager { watchers: BTreeMap::new(), virtiofs_lookup }
    }

    /// Whether a watcher can be created under `id`, and the memory that it is to map.
    pub fn create_watcher(&self, id: u32, fs_id: u64, handle: u64) -> (r: Result<
        WatchedMemory,
        RutabagaError,
    >)
        ensures
            r == (match self@.creation(id) {
                Ok(_) => Ok(watched_word(fs_id, handle)),
                Err(e) => Err(e),
            }),
    {
        if self.watchers.contains_key(&id) {
            return Err(RutabagaError::AlreadyInUse);
        }
        if !self.virtiofs_lookup {
            return Err(RutabagaError::InvalidCrossDomainItemId);
        }
        Ok(
            WatchedMemory {
                fs_id,
                handle,
                size: 4,
                map_info: RUTABAGA_MAP_ACCESS_RW | RUTABAGA_MAP_CACHE_CACHED,
            },
        )
    }

    /// Enters the watcher that was created under `id`.
    pub fn add_watcher(&mut self, id: u32, worker: W, evt: Event)
        ensures
            final(self)@ == old(self)@.with_watcher(id, worker, evt),
    {
        self.watchers.insert(id, SentinelInstance { worker, shutdown: false, evt });
    }

    /// Handles an event for a memory watcher, returns the command to write to the ring. There is
    /// none for a watcher that was shut down; for another, its event is to be cleared first.
    pub fn handle_event(&self, id: u32) -> (r: Result<
        Option<CrossDomainSignalAtomicMemorySentinel>,
        RutabagaError,
    >)
        ensures
            r == (if !self@.watchers.contains_key(id) {
                Err(RutabagaError::InvalidCrossDomainItemId)
            } else if self@.watchers[id].shutdown {
                Ok(None)
            } else {
                Ok(Some(signal_command(id)))
            }),
    {
        match self.watchers.get(&id) {
            Some(watcher) => {
                if watcher.is_shutdown() {
                    Ok(None)
                } else {
                    let mut cmd_memory_watcher = CrossDomainSignalAtomicMemorySentinel::default();
                    cmd_memory_watcher.hdr.cmd = CROSS_DOMAIN_CMD_SIGNAL_ATOMIC_MEMORY_SENTINEL;
                    cmd_memory_watcher.id = id;
                    Ok(Some(cmd_memory_watcher))
                }
            },
            None => Err(RutabagaError::InvalidCrossDomainItemId),
        }
    }

    /// The worker whose memory is to be signalled.
    pub fn signal_watcher(&self, id: u32) -> (r: Result<&W, RutabagaError>)
        ensures
            r == (if self@.watchers.contains_key(id) {
                Ok::<&W, RutabagaError>(&self@.watchers[id].worker)
            } else {
                Err(RutabagaError::InvalidCrossDomainItemId)
            }),
    {
        match self.watchers.get(&id) {
            Some(watcher) => Ok(&watcher.worker),
            None => Err(RutabagaError::InvalidCrossDomainItemId),
        }
    }

    /// Shuts a memory watcher down. It stays until it is removed; its worker is to be woken and
    /// waited for.
    pub fn destroy_watcher(&mut self, id: u32) -> (r: Result<(), RutabagaError>)
        ensures
            if old(self)@.watchers.contains_key(id) {
                &&& r == Ok::<(), RutabagaError>(())
                &&& final(self)@ == old(self)@.with_shutdown(id)
            } else {
                &&& r == Err::<(), RutabagaError>(RutabagaError::InvalidCrossDomainItemId)
                &&& final(self)@ == old(self)@
            },
    {
        match self.watchers.remove(&id) {
            Some(mut watcher) => {
                watcher.shutdown();
                self.watchers.insert(id, watcher);
                assert(self.watchers@ =~= old(self)@.with_shutdown(id).watchers);
                Ok(())
            },
            None => {
                assert(self.watchers@ =~= old(self)@.watchers);
                Err(RutabagaError::InvalidCrossDomainItemId)
            },
        }
    }

    /// Checks if a watcher is shut down. One that does not exist is.
    pub fn is_shutdown(&self, id: u32) -> (r: bool)
        ensures
            r == self@.is_shutdown(id),
    {
        match self.watchers.get(&id) {
            Some(watcher) => watcher.is_shutdown(),
            None => true,
        }
    }

    /// Removes a watcher and hands it out.
    pub fn remove_watcher(&mut self, id: u32) -> (r: Option<SentinelInstance<W>>)
        ensures
            final(self)@ == old(self)@.without_watcher(id),
            r == (if old(self)@.watchers.contains_key(id) {
                Some(old(self)@.watchers[id])
            } else {
                None
            }),
    {
        self.watchers.remove(&id)
    }

    /// The event of a watcher.
    pub fn get_event(&self, id: u32) -> (r: Option<&Event>)
        ensures
            r == (if self@.watchers.contains_key(id) {
                Some(&self@.watchers[id].evt)
            } else {
                None
            }),
    {
        match self.watchers.get(&id) {
            Some(watcher) => Some(&watcher.evt),
            None => None,
        }
    }
}

} // verus!
