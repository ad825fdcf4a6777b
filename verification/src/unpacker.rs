//! Closing the files of unpacked entries. Where closing a file is slow, the
//! files are handed to workers that close them while later entries are
//! unpacked, and a counter tells how many are still open. The unpacking is
//! over only when a drain has seen that counter at zero; while it waits,
//! the drain reports how many files were closed since it last looked.
//! Where closing is cheap nothing is deferred and the drain has nothing to
//! do. The workers, the counter and the waiting belong to the caller; what
//! is decided here is what to defer, what to report and when the drain is
//! done.

use crate::platform::Platform;
use vstd::prelude::*;

verus! {

/// A drain is started with fewer open files than this.
pub const MAX_IN_FLIGHT: usize = 32767;

/// The time to wait between two looks at the counter, in milliseconds.
pub const POLL_INTERVAL_MILLIS: u64 = 100;

/// A drain that starts with more open files than this is worth a line to
/// the user.
pub const ANNOUNCE_ABOVE: usize = 50;

/// The unit in which a drain reports its progress.
pub const HANDLES_UNIT: &'static str = "handles";

/// What unpacking an entry left behind: an open file, or nothing to close.
#[derive(Debug, Clone, Copy, PartialEq, Eq, Structural)]
pub enum Unpacked {
    File,
    Other,
}

/// A notification to whoever shows progress.
#[derive(Debug, Clone, Copy, PartialEq, Eq)]
pub enum Notification {
    /// What was shown so far is finished; start from zero.
    DownloadFinished,
    /// Progress is counted in this unit from now on.
    DownloadPushUnits(&'static str),
    /// This many units are expected in all.
    DownloadContentLengthReceived(u64),
    /// This many units were done since the last notification.
    DownloadDataReceived(usize),
    /// Progress is counted in the previous unit again.
    DownloadPopUnits,
}

/// Decides, entry by entry, whether the file that unpacking left open is
/// closed by a worker.
#[derive(Debug)]
pub struct Unpacker {
    deferring: bool,
    deferred: usize,
}

impl Unpacker {
    /// Whether closes are deferred to workers.
    pub closed spec fn defers(&self) -> bool {
        self.deferring
    }

    /// The number of files handed to workers so far.
    pub closed spec fn deferred(&self) -> nat {
        self.deferred as nat
    }

    /// The decider for `platform`: closes are deferred on Windows, where
    /// they are slow, and nowhere else.
    pub fn new(platform: Platform) -> (unpacker: Unpacker)
        ensures
            unpacker.defers() == (platform == Platform::Windows),
            unpacker.deferred() == 0,
    {
        let deferring = match platform {
            Platform::Windows => true,
            Platform::Unix => false,
        };
        Unpacker { deferring, deferred: 0 }
    }

    /// Whether the file that `unpacked` left open is to be counted as in
    /// flight and handed to a worker.
    pub fn handle(&mut self, unpacked: Unpacked) -> (defer: bool)
        requires
            old(self).deferred() < usize::MAX,
        ensures
            defer == (old(self).defers() && unpacked == Unpacked::File),
            final(self).defers() == old(self).defers(),
            final(self).deferred() == old(self).deferred() + if defer {
                1nat
            } else {
                0nat
            },
    {
        match unpacked {
            Unpacked::File => {
                if self.deferring {
                    self.deferred = self.deferred + 1;
                    true
                } else {
                    false
                }
            },
            Unpacked::Other => false,
        }
    }

    /// The number of files handed to workers so far.
    pub fn deferred_count(&self) -> (count: usize)
        ensures
            count == self.deferred(),
    {
        self.deferred
    }

    /// Starts the drain that ends the unpacking, with `in_flight` files
    /// still open, and gives the notifications to send first. Where closes
    /// are deferred, what was shown is finished, the unit becomes
    /// `HANDLES_UNIT` and `in_flight` units are expected. Where they are
    /// not, the drain is done from the start and nothing is sent.
    pub fn begin_drain(&self, in_flight: usize) -> (started: (Drain, Vec<Notification>))
        requires
            self.defers() ==> in_flight < MAX_IN_FLIGHT,
        ensures
            started.0.wf(),
            started.0.active() == self.defers(),
            self.defers() ==> {
                &&& started.0.total() == in_flight
                &&& started.0.remaining() == in_flight
                &&& started.1@ == seq![
                    Notification::DownloadFinished,
                    Notification::DownloadPushUnits(HANDLES_UNIT),
                    Notification::DownloadContentLengthReceived(in_flight as u64),
                ]
            },
            !self.defers() ==> {
                &&& started.0.total() == 0
                &&& started.0.remaining() == 0
                &&& started.1@ == Seq::<Notification>::empty()
            },
    {
        let mut notes: Vec<Notification> = Vec::new();
        if self.deferring {
            notes.push(Notification::DownloadFinished);
            notes.push(Notification::DownloadPushUnits(HANDLES_UNIT));
            notes.push(Notification::DownloadContentLengthReceived(in_flight as u64));
            (Drain { active: true, total: in_flight, remaining: in_flight }, notes)
        } else {
            (Drain { active: false, total: 0, remaining: 0 }, notes)
        }
    }
}

/// The wait for the files that are still open when the unpacking ends.
#[derive(Debug)]
pub struct Drain {
    active: bool,
    total: usize,
    remaining: usize,
}

impl Drain {
    #[verifier::type_invariant]
    spec fn well_formed(self) -> bool {
        self.wf()
    }

    /// What holds of every drain: no more files are open than were at its
    /// start, that number was below `MAX_IN_FLIGHT`, and a drain where
    /// nothing is deferred has no file to wait for.
    pub closed spec fn wf(&self) -> bool {
        &&& self.remaining <= self.total < MAX_IN_FLIGHT
        &&& !self.active ==> self.total == 0
    }

    /// Whether closes were deferred at all.
    pub closed spec fn active(&self) -> bool {
        self.active
    }

    /// The number of files that were open when the drain started.
    pub closed spec fn total(&self) -> nat {
        self.total as nat
    }

    /// The number of files that were open when the drain last looked.
    pub closed spec fn remaining(&self) -> nat {
        self.remaining as nat
    }

    /// The number of files that the drain has reported closed.
    pub open spec fn reported(&self) -> int {
        self.total() - self.remaining()
    }

    /// Whether the drain may end: no file was open when it last looked.
    pub open spec fn done(&self) -> bool {
        self.remaining() == 0
    }

    /// Whether the drain may end.
    pub fn is_done(&self) -> (done: bool)
        ensures
            done == self.done(),
    {
        self.remaining == 0
    }

    /// Whether the drain started with enough open files to tell the user.
    pub fn worth_announcing(&self) -> (announce: bool)
        ensures
            announce == (self.total() > ANNOUNCE_ABOVE),
    {
        self.total > ANNOUNCE_ABOVE
    }

    /// The number of files that were open when the drain started.
    pub fn total_count(&self) -> (count: usize)
        ensures
            count == self.total(),
    {
        self.total
    }

    /// The number of files that were open when the drain last looked.
    pub fn remaining_count(&self) -> (count: usize)
        ensures
            count == self.remaining(),
    {
        self.remaining
    }

    /// Takes a look at the counter, which shows `in_flight` files still
    /// open, and reports the files closed since the last look.
    pub fn poll(&mut self, in_flight: usize) -> (note: Notification)
        requires
            in_flight <= old(self).remaining(),
        ensures
            final(self).wf(),
            final(self).active() == old(self).active(),
            final(self).total() == old(self).total(),
            final(self).remaining() == in_flight,
            note == Notification::DownloadDataReceived((old(self).remaining() - in_flight) as usize),
    {
        proof {
            use_type_invariant(&*self);
        }
        let closed = self.remaining - in_flight;
        self.remaining = in_flight;
        Notification::DownloadDataReceived(closed)
    }

    /// Ends the drain once the workers have been joined, and gives the
    /// notifications to send last: where closes were deferred, what was
    /// shown is finished and the unit is the previous one again.
    pub fn finish(self) -> (notes: Vec<Notification>)
        requires
            self.done(),
        ensures
            self.active() ==> notes@ == seq![
                Notification::DownloadFinished,
                Notification::DownloadPopUnits,
            ],
            !self.active() ==> notes@ == Seq::<Notification>::empty(),
    {
        let mut notes: Vec<Notification> = Vec::new();
        if self.active {
            notes.push(Notification::DownloadFinished);
            notes.push(Notification::DownloadPopUnits);
        }
        notes
    }
}

/// A drain is done exactly when it last saw no file open, and by then it
/// has reported every file that was open at its start.
pub proof fn lemma_drain_done(drain: Drain)
    requires
        drain.wf(),
    ensures
        drain.done() <==> drain.remaining() == 0,
        drain.done() ==> drain.reported() == drain.total(),
        0 <= drain.reported() <= drain.total(),
{
}

} // verus!
