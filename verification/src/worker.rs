//! The background sync worker's control logic: an owned handle whose
//! decisions — when to run a cycle, when to sleep, when to exit — are pure
//! state transitions. The surrounding application owns the thread, performs
//! the cycles, and sleeps; it asks this state machine what to do at each
//! roughly 100-millisecond tick, so a stop request is observed promptly.

use vstd::prelude::*;

use crate::error::AppError;

verus! {

/// Ticks per second of worker sleep (one tick is ~100 ms).
pub const TICKS_PER_SECOND: u64 = 10;

/// What the worker should do at a tick.
#[derive(Debug, Clone, PartialEq, Eq, Structural)]
pub enum WorkerAction {
    /// Run a full push/pull/heartbeat cycle now.
    RunSync,
    /// Sleep one tick.
    Sleep,
    /// The stop request was observed: leave the loop.
    Exit,
}

/// The worker's control state.
pub struct SyncWorker {
    pub running: bool,
    pub stop_requested: bool,
    pub interval_ticks: u64,
    pub ticks_until_sync: u64,
}

impl SyncWorker {
    /// A stopped worker that will run a cycle every `interval_seconds`.
    pub fn new(interval_seconds: u64) -> (r: SyncWorker)
        requires
            interval_seconds <= 0xffff_ffff,
        ensures
            !r.running,
            !r.stop_requested,
            r.interval_ticks == interval_seconds * TICKS_PER_SECOND,
            r.ticks_until_sync == 0,
    {
        SyncWorker {
            running: false,
            stop_requested: false,
            interval_ticks: interval_seconds * TICKS_PER_SECOND,
            ticks_until_sync: 0,
        }
    }

    /// Whether the worker loop is live.
    pub fn is_running(&self) -> (r: bool)
        ensures
            r == self.running,
    {
        self.running
    }

    /// Start the worker: idempotent — a second start while running changes
    /// nothing and reports that nothing was started. A fresh start clears any
    /// stop request and schedules the first cycle immediately.
    pub fn start(&mut self) -> (started: bool)
        ensures
            started == !old(self).running,
            old(self).running ==> *final(self) == *old(self),
            !old(self).running ==> *final(self) == (SyncWorker {
                running: true,
                stop_requested: false,
                interval_ticks: old(self).interval_ticks,
                ticks_until_sync: 0,
            }),
    {
        if self.running {
            return false;
        }
        self.running = true;
        self.stop_requested = false;
        self.ticks_until_sync = 0;
        true
    }

    /// Ask for the worker to stop; it exits at its next tick.
    pub fn request_stop(&mut self)
        ensures
            *final(self) == (SyncWorker { stop_requested: true, ..*old(self) }),
    {
        self.stop_requested = true;
    }

    /// One tick of the worker loop: exit if a stop was requested, run a
    /// cycle when the countdown reaches zero (and rewind it), else sleep one
    /// tick of the countdown.
    pub fn tick(&mut self) -> (action: WorkerAction)
        requires
            old(self).running,
        ensures
            old(self).stop_requested ==> action == WorkerAction::Exit && *final(self) == (
            SyncWorker { running: false, ..*old(self) }),
            !old(self).stop_requested && old(self).ticks_until_sync == 0 ==> action
                == WorkerAction::RunSync && *final(self) == (SyncWorker {
                ticks_until_sync: old(self).interval_ticks,
                ..*old(self)
            }),
            !old(self).stop_requested && old(self).ticks_until_sync > 0 ==> action
                == WorkerAction::Sleep && *final(self) == (SyncWorker {
                ticks_until_sync: (old(self).ticks_until_sync - 1) as u64,
                ..*old(self)
            }),
    {
        if self.stop_requested {
            self.running = false;
            WorkerAction::Exit
        } else if self.ticks_until_sync == 0 {
            self.ticks_until_sync = self.interval_ticks;
            WorkerAction::RunSync
        } else {
            self.ticks_until_sync = self.ticks_until_sync - 1;
            WorkerAction::Sleep
        }
    }
}

/// Start the background worker for the given interval: a no-op while one is
/// already running.
pub fn start_background_sync(worker: &mut SyncWorker, interval_seconds: u64) -> (r: Result<
    (),
    AppError,
>)
    requires
        interval_seconds <= 0xffff_ffff,
    ensures
        r is Ok,
        old(worker).running ==> *final(worker) == *old(worker),
        !old(worker).running ==> *final(worker) == (SyncWorker {
            running: true,
            stop_requested: false,
            interval_ticks: (interval_seconds * TICKS_PER_SECOND) as u64,
            ticks_until_sync: 0,
        }),
{
    if worker.is_running() {
        return Ok(());
    }
    worker.interval_ticks = interval_seconds * 10;
    let _ = worker.start();
    Ok(())
}

/// Ask the background worker to stop; it exits at its next wake tick.
pub fn stop_background_sync(worker: &mut SyncWorker)
    ensures
        *final(worker) == (SyncWorker { stop_requested: true, ..*old(worker) }),
{
    worker.request_stop();
}

/// Whether the background worker loop is live.
pub fn is_sync_running(worker: &SyncWorker) -> (r: bool)
    ensures
        r == worker.running,
{
    worker.is_running()
}

} // verus!
