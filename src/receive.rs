//! The receiving side of one file transfer connection.
//!
//! The connection's task hands each frame to a `ReceiveSession` together with
//! the state of the receive-side cancellation signal at that moment, and
//! performs the action it gets back.
use vstd::prelude::*;
use crate::transfer::{FileMeta, CLOSE_CANCELLED_BY_RECEIVER, PROGRESS_INTERVAL};

verus! {

pub struct ReceiveSession {
    /// Name shown for the file: its relative path where it has one.
    pub file_name: Option<String>,
    /// Announced size; `None` until metadata arrives.
    pub total_bytes: Option<u64>,
    pub bytes_received: u64,
    /// `bytes_received` when progress was last reported.
    pub last_progress: u64,
    /// A destination is open for the file.
    pub writing: bool,
    /// Cancellation was observed on this connection.
    pub cancelled: bool,
    /// The receiver-cancelled close frame was sent.
    pub close_sent: bool,
    /// No further frame is consumed.
    pub stopped: bool,
}

/// What to do with one binary frame.
pub enum FrameAction {
    /// Append the bytes to the destination; report progress where `progress`.
    Write { progress: bool },
    /// No destination is open: the bytes are dropped.
    Drop,
    /// Send a close frame with status `close_code` and stop reading.
    CancelAndStop { close_code: u16 },
    /// Reading has stopped.
    Ignore,
}

/// How a received file ended.
pub enum ReceiveOutcome {
    /// Every announced byte arrived and nobody cancelled.
    Completed,
    /// The receiver cancelled.
    Cancelled,
    /// The stream ended before the announced size.
    Incomplete,
}

/// What to do once the connection closes or its stream ends.
pub struct Completion {
    pub outcome: ReceiveOutcome,
    /// Send a close frame with this status before closing.
    pub close_code: Option<u16>,
    /// Delete what was written of the destination.
    pub remove_destination: bool,
    pub bytes_received: u64,
}

/// Progress is due after a frame that brought the count to `received`.
pub open spec fn progress_due(total: Option<u64>, last: u64, received: u64) -> bool {
    match total {
        Some(t) => received - last >= PROGRESS_INTERVAL || received >= t,
        None => false,
    }
}

/// The session after a binary frame of `len` bytes, when the cancellation
/// signal reads `cancel`.
pub open spec fn after_frame(s: ReceiveSession, len: u64, cancel: bool) -> ReceiveSession {
    if s.stopped {
        s
    } else if cancel {
        ReceiveSession { cancelled: true, close_sent: true, stopped: true, ..s }
    } else if !s.writing {
        s
    } else {
        let received = s.bytes_received.saturating_add(len);
        ReceiveSession {
            bytes_received: received,
            last_progress: if progress_due(s.total_bytes, s.last_progress, received) {
                received
            } else {
                s.last_progress
            },
            ..s
        }
    }
}

pub open spec fn frame_action(s: ReceiveSession, len: u64, cancel: bool) -> FrameAction {
    if s.stopped {
        FrameAction::Ignore
    } else if cancel {
        FrameAction::CancelAndStop { close_code: CLOSE_CANCELLED_BY_RECEIVER }
    } else if !s.writing {
        FrameAction::Drop
    } else {
        FrameAction::Write {
            progress: progress_due(s.total_bytes, s.last_progress, s.bytes_received.saturating_add(len)),
        }
    }
}

/// How the transfer ended, when the signal reads `cancel` at the end.
pub open spec fn outcome_of(s: ReceiveSession, cancel: bool) -> ReceiveOutcome {
    if s.cancelled || cancel {
        ReceiveOutcome::Cancelled
    } else {
        match s.total_bytes {
            Some(t) => if s.bytes_received >= t {
                ReceiveOutcome::Completed
            } else {
                ReceiveOutcome::Incomplete
            },
            None => ReceiveOutcome::Completed,
        }
    }
}

pub open spec fn completion_of(s: ReceiveSession, cancel: bool) -> Completion {
    let outcome = outcome_of(s, cancel);
    let failed = !(outcome is Completed);
    Completion {
        outcome,
        close_code: if failed && !s.close_sent {
            Some(CLOSE_CANCELLED_BY_RECEIVER)
        } else {
            None
        },
        remove_destination: failed && s.writing,
        bytes_received: s.bytes_received,
    }
}

impl ReceiveSession {
    /// Progress is never reported ahead of the bytes received.
    pub open spec fn wf(&self) -> bool {
        self.last_progress <= self.bytes_received
    }

    /// A session for a newly accepted connection: nothing announced yet, no
    /// cancellation observed.
    pub fn new() -> (r: ReceiveSession)
        ensures
            r.wf(),
            r.file_name is None,
            r.total_bytes is None,
            r.bytes_received == 0,
            r.last_progress == 0,
            !r.writing,
            !r.cancelled,
            !r.close_sent,
            !r.stopped,
    {
        ReceiveSession {
            file_name: None,
            total_bytes: None,
            bytes_received: 0,
            last_progress: 0,
            writing: false,
            cancelled: false,
            close_sent: false,
            stopped: false,
        }
    }

    /// Takes the metadata of a file: its shown name is its relative path,
    /// else its name; the counters restart. `opened` tells whether its
    /// destination could be opened.
    pub fn on_metadata(&mut self, meta: &FileMeta, opened: bool)
        ensures
            final(self).wf(),
            final(self).file_name matches Some(n) && n@ == match meta.relative_path {
                Some(p) => p@,
                None => meta.name@,
            },
            final(self).total_bytes == Some(meta.size),
            final(self).bytes_received == 0,
            final(self).last_progress == 0,
            final(self).writing == opened,
            final(self).cancelled == old(self).cancelled,
            final(self).close_sent == old(self).close_sent,
            final(self).stopped == old(self).stopped,
    {
        let shown = match &meta.relative_path {
            Some(p) => p.clone(),
            None => meta.name.clone(),
        };
        self.file_name = Some(shown);
        self.total_bytes = Some(meta.size);
        self.bytes_received = 0;
        self.last_progress = 0;
        self.writing = opened;
    }

    /// Takes a binary frame of `len` bytes; `cancel` is the receive-side
    /// cancellation signal, read before anything is written.
    pub fn on_frame(&mut self, len: u64, cancel: bool) -> (r: FrameAction)
        requires
            old(self).wf(),
        ensures
            final(self).wf(),
            *final(self) == after_frame(*old(self), len, cancel),
            r == frame_action(*old(self), len, cancel),
    {
        if self.stopped {
            return FrameAction::Ignore;
        }
        if cancel {
            self.cancelled = true;
            self.close_sent = true;
            self.stopped = true;
            return FrameAction::CancelAndStop { close_code: CLOSE_CANCELLED_BY_RECEIVER };
        }
        if !self.writing {
            return FrameAction::Drop;
        }
        let received = self.bytes_received.saturating_add(len);
        let progress = match self.total_bytes {
            Some(t) => received - self.last_progress >= PROGRESS_INTERVAL || received >= t,
            None => false,
        };
        self.bytes_received = received;
        if progress {
            self.last_progress = received;
        }
        FrameAction::Write { progress }
    }

    /// The peer sent a close frame: nothing more is read.
    pub fn on_close(&mut self)
        ensures
            *final(self) == (ReceiveSession { stopped: true, ..*old(self) }),
    {
        self.stopped = true;
    }

    /// Ends the session when the connection closes or its stream ends;
    /// `cancel` is the cancellation signal at that moment.
    pub fn finish(&mut self, cancel: bool) -> (r: Completion)
        ensures
            r == completion_of(*old(self), cancel),
            final(self).stopped,
            final(self).close_sent == (old(self).close_sent || r.close_code is Some),
            final(self).cancelled == (old(self).cancelled || cancel),
    {
        let cancelled = self.cancelled || cancel;
        let outcome = if cancelled {
            ReceiveOutcome::Cancelled
        } else {
            match self.total_bytes {
                Some(t) => if self.bytes_received >= t {
                    ReceiveOutcome::Completed
                } else {
                    ReceiveOutcome::Incomplete
                },
                None => ReceiveOutcome::Completed,
            }
        };
        let failed = match outcome {
            ReceiveOutcome::Completed => false,
            _ => true,
        };
        let close_code = if failed && !self.close_sent {
            Some(CLOSE_CANCELLED_BY_RECEIVER)
        } else {
            None
        };
        self.cancelled = cancelled;
        self.stopped = true;
        if close_code.is_some() {
            self.close_sent = true;
        }
        Completion {
            outcome,
            close_code,
            remove_destination: failed && self.writing,
            bytes_received: self.bytes_received,
        }
    }
}

/// The session after a run of binary frames, each paired with the
/// cancellation signal as read when it arrived.
pub open spec fn after_frames(s: ReceiveSession, frames: Seq<(u64, bool)>) -> ReceiveSession
    decreases frames.len(),
{
    if frames.len() == 0 {
        s
    } else {
        after_frame(after_frames(s, frames.drop_last()), frames.last().0, frames.last().1)
    }
}

/// Number of bytes in a run of frames.
pub open spec fn total_len(frames: Seq<(u64, bool)>) -> int
    decreases frames.len(),
{
    if frames.len() == 0 {
        0
    } else {
        total_len(frames.drop_last()) + frames.last().0
    }
}

/// Metadata for a file of `t` bytes has just been taken and its destination
/// opened, on a connection where nobody has cancelled.
pub open spec fn ready_for(s: ReceiveSession, t: u64) -> bool {
    &&& s.total_bytes == Some(t)
    &&& s.bytes_received == 0
    &&& s.last_progress == 0
    &&& s.writing
    &&& !s.cancelled
    &&& !s.close_sent
    &&& !s.stopped
}

proof fn lemma_uncancelled_run(s: ReceiveSession, t: u64, frames: Seq<(u64, bool)>)
    requires
        ready_for(s, t),
        forall|i: int| 0 <= i < frames.len() ==> !(#[trigger] frames[i]).1,
        total_len(frames) <= u64::MAX,
    ensures
        after_frames(s, frames).bytes_received == total_len(frames),
        after_frames(s, frames).total_bytes == Some(t),
        after_frames(s, frames).writing,
        !after_frames(s, frames).cancelled,
        !after_frames(s, frames).close_sent,
        !after_frames(s, frames).stopped,
    decreases frames.len(),
{
    if frames.len() > 0 {
        let init = frames.drop_last();
        assert forall|i: int| 0 <= i < init.len() implies !(#[trigger] init[i]).1 by {
            assert(init[i] == frames[i]);
        }
        assert(frames.last() == frames[frames.len() - 1]);
        assert(frames.last().0 >= 0);
        assert(total_len(init) <= total_len(frames));
        lemma_uncancelled_run(s, t, init);
    }
}

/// A stopped session stays stopped, and cancellation once observed stays
/// observed, whatever frames follow.
proof fn lemma_cancel_persists(s: ReceiveSession, frames: Seq<(u64, bool)>)
    requires
        s.stopped ==> s.cancelled,
    ensures
        after_frames(s, frames).stopped ==> after_frames(s, frames).cancelled,
        s.cancelled ==> after_frames(s, frames).cancelled,
        (exists|i: int| 0 <= i < frames.len() && (#[trigger] frames[i]).1)
            ==> after_frames(s, frames).cancelled,
    decreases frames.len(),
{
    if frames.len() > 0 {
        let init = frames.drop_last();
        lemma_cancel_persists(s, init);
        if exists|i: int| 0 <= i < frames.len() && (#[trigger] frames[i]).1 {
            let i = choose|i: int| 0 <= i < frames.len() && (#[trigger] frames[i]).1;
            if i < frames.len() - 1 {
                assert(init[i] == frames[i]);
            } else {
                assert(frames.last() == frames[i]);
            }
        }
    }
}

/// Receiving exactly the announced number of bytes, with no cancellation,
/// completes the file: no cancel close is sent and nothing is deleted.
pub proof fn lemma_exact_size_completes(s: ReceiveSession, t: u64, frames: Seq<(u64, bool)>)
    requires
        ready_for(s, t),
        forall|i: int| 0 <= i < frames.len() ==> !(#[trigger] frames[i]).1,
        total_len(frames) == t,
    ensures
        completion_of(after_frames(s, frames), false).outcome is Completed,
        completion_of(after_frames(s, frames), false).close_code is None,
        !completion_of(after_frames(s, frames), false).remove_destination,
        completion_of(after_frames(s, frames), false).bytes_received == t,
{
    lemma_uncancelled_run(s, t, frames);
}

/// A stream that ends before the announced number of bytes, with no
/// cancellation, is incomplete: the receiver sends the cancel close and
/// deletes the destination.
pub proof fn lemma_short_stream_incomplete(s: ReceiveSession, t: u64, frames: Seq<(u64, bool)>)
    requires
        ready_for(s, t),
        forall|i: int| 0 <= i < frames.len() ==> !(#[trigger] frames[i]).1,
        total_len(frames) < t,
    ensures
        completion_of(after_frames(s, frames), false).outcome is Incomplete,
        completion_of(after_frames(s, frames), false).close_code == Some(
            CLOSE_CANCELLED_BY_RECEIVER,
        ),
        completion_of(after_frames(s, frames), false).remove_destination,
{
    lemma_uncancelled_run(s, t, frames);
}

/// Once the cancellation signal is seen on any frame, the file ends
/// cancelled, never completed, however many bytes arrived and whatever the
/// signal reads at the end; the destination is deleted.
pub proof fn lemma_cancelled_never_completes(
    s: ReceiveSession,
    t: u64,
    frames: Seq<(u64, bool)>,
    cancel_at_end: bool,
)
    requires
        ready_for(s, t),
        exists|i: int| 0 <= i < frames.len() && (#[trigger] frames[i]).1,
    ensures
        completion_of(after_frames(s, frames), cancel_at_end).outcome is Cancelled,
        completion_of(after_frames(s, frames), cancel_at_end).remove_destination,
{
    lemma_cancel_persists(s, frames);
    lemma_writing_persists(s, frames);
}

proof fn lemma_writing_persists(s: ReceiveSession, frames: Seq<(u64, bool)>)
    ensures
        s.writing ==> after_frames(s, frames).writing,
    decreases frames.len(),
{
    if frames.len() > 0 {
        lemma_writing_persists(s, frames.drop_last());
    }
}

} // verus!
