//! The watch over a protocol runner's sub-process, which is started again whenever it is gone.
use vstd::prelude::*;

verus! {

/// How long the watch sleeps between two looks, in seconds.
pub const WATCH_INTERVAL: u64 = 1;

/// How far a watch has come.
#[derive(Clone, Copy, Debug, PartialEq, Eq, Structural)]
pub enum WatchStage {
    /// Whether to go on is to be looked up.
    Look,
    /// The sub-process is to be looked at.
    Poll,
    /// The sub-process is gone: another one is to be spawned.
    Spawn,
    /// The watch sleeps.
    Sleep,
    /// The watch ends: the sub-process is to be looked at once more.
    LastPoll,
    /// The sub-process is to be terminated.
    Terminate,
    /// The watch is over.
    Done,
}

/// What is to be done.
#[derive(Clone, Copy, Debug, PartialEq, Eq, Structural)]
pub enum WatchAction {
    /// Read the flag that tells whether to go on.
    ReadFlag,
    /// See whether the sub-process is running.
    Poll,
    /// Spawn another sub-process, which takes the place of the one that is gone.
    Spawn,
    /// Sleep so many seconds.
    Sleep { seconds: u64 },
    /// Terminate the sub-process.
    Terminate,
    /// Nothing: the watch is over.
    Finish,
}

/// What came of it.
#[derive(Clone, Copy, Debug, PartialEq, Eq, Structural)]
pub enum WatchReply {
    /// Whether to go on.
    Flag(bool),
    /// Whether the sub-process is running.
    Running(bool),
    /// Whether another sub-process was spawned.
    Spawned(bool),
    Slept,
    Terminated,
}

/// The stage that a reply leads to. A reply that was not asked for changes nothing.
pub open spec fn watch_step(stage: WatchStage, reply: WatchReply) -> WatchStage {
    match (stage, reply) {
        (WatchStage::Look, WatchReply::Flag(go_on)) => if go_on {
            WatchStage::Poll
        } else {
            WatchStage::LastPoll
        },
        (WatchStage::Poll, WatchReply::Running(running)) => if running {
            WatchStage::Sleep
        } else {
            WatchStage::Spawn
        },
        (WatchStage::Spawn, WatchReply::Spawned(spawned)) => if spawned {
            WatchStage::Sleep
        } else {
            WatchStage::LastPoll
        },
        (WatchStage::Sleep, WatchReply::Slept) => WatchStage::Look,
        (WatchStage::LastPoll, WatchReply::Running(running)) => if running {
            WatchStage::Terminate
        } else {
            WatchStage::Done
        },
        (WatchStage::Terminate, WatchReply::Terminated) => WatchStage::Done,
        (stage, _) => stage,
    }
}

/// What is to be done at a stage.
pub open spec fn watch_asked(stage: WatchStage) -> WatchAction {
    match stage {
        WatchStage::Look => WatchAction::ReadFlag,
        WatchStage::Poll => WatchAction::Poll,
        WatchStage::Spawn => WatchAction::Spawn,
        WatchStage::Sleep => WatchAction::Sleep { seconds: WATCH_INTERVAL },
        WatchStage::LastPoll => WatchAction::Poll,
        WatchStage::Terminate => WatchAction::Terminate,
        WatchStage::Done => WatchAction::Finish,
    }
}

/// A watch over a sub-process.
#[derive(Clone, Copy, Debug, PartialEq, Eq, Structural)]
pub struct Watchdog {
    pub stage: WatchStage,
}

impl Watchdog {
    /// A watch over a sub-process that was spawned just now.
    pub fn new() -> (r: Self)
        ensures
            r.stage == WatchStage::Look,
    {
        Watchdog { stage: WatchStage::Look }
    }

    /// What is to be done next.
    pub fn action(&self) -> (r: WatchAction)
        ensures
            r == watch_asked(self.stage),
            self.stage is Look ==> r is ReadFlag,
            self.stage is Poll || self.stage is LastPoll ==> r is Poll,
            self.stage is Spawn ==> r is Spawn,
            self.stage is Sleep ==> r == (WatchAction::Sleep { seconds: 1 }),
            self.stage is Terminate ==> r is Terminate,
            self.stage is Done ==> r is Finish,
    {
        match self.stage {
            WatchStage::Look => WatchAction::ReadFlag,
            WatchStage::Poll => WatchAction::Poll,
            WatchStage::Spawn => WatchAction::Spawn,
            WatchStage::Sleep => WatchAction::Sleep { seconds: WATCH_INTERVAL },
            WatchStage::LastPoll => WatchAction::Poll,
            WatchStage::Terminate => WatchAction::Terminate,
            WatchStage::Done => WatchAction::Finish,
        }
    }

    /// The watch after what came of it.
    pub fn advance(self, reply: WatchReply) -> (r: Self)
        ensures
            r.stage == watch_step(self.stage, reply),
            self.stage is Look ==> (reply matches WatchReply::Flag(go_on) ==> r.stage == (
            if go_on {
                WatchStage::Poll
            } else {
                WatchStage::LastPoll
            })),
            self.stage is Poll ==> (reply matches WatchReply::Running(running) ==> r.stage == (
            if running {
                WatchStage::Sleep
            } else {
                WatchStage::Spawn
            })),
            self.stage is Spawn ==> (reply matches WatchReply::Spawned(spawned) ==> r.stage == (
            if spawned {
                WatchStage::Sleep
            } else {
                WatchStage::LastPoll
            })),
            self.stage is Sleep && reply is Slept ==> r.stage == WatchStage::Look,
            self.stage is LastPoll ==> (reply matches WatchReply::Running(running) ==> r.stage == (
            if running {
                WatchStage::Terminate
            } else {
                WatchStage::Done
            })),
            self.stage is Terminate && reply is Terminated ==> r.stage == WatchStage::Done,
            self.stage is Done ==> r.stage == WatchStage::Done,
    {
        let stage = match (self.stage, reply) {
            (WatchStage::Look, WatchReply::Flag(go_on)) => if go_on {
                WatchStage::Poll
            } else {
                WatchStage::LastPoll
            },
            (WatchStage::Poll, WatchReply::Running(running)) => if running {
                WatchStage::Sleep
            } else {
                WatchStage::Spawn
            },
            (WatchStage::Spawn, WatchReply::Spawned(spawned)) => if spawned {
                WatchStage::Sleep
            } else {
                WatchStage::LastPoll
            },
            (WatchStage::Sleep, WatchReply::Slept) => WatchStage::Look,
            (WatchStage::LastPoll, WatchReply::Running(running)) => if running {
                WatchStage::Terminate
            } else {
                WatchStage::Done
            },
            (WatchStage::Terminate, WatchReply::Terminated) => WatchStage::Done,
            (stage, _) => stage,
        };
        Watchdog { stage }
    }
}

} // verus!
