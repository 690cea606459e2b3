//! The sending side of a transfer: a batch of files, each streamed in
//! chunks over its own connection, and how the sender reads the way a
//! connection ended.
use vstd::prelude::*;
use crate::receive::{completion_of, frame_action, FrameAction, ReceiveSession};
use crate::transfer::{CHUNK_SIZE, CLOSE_CANCELLED_BY_RECEIVER};

verus! {

/// Why sending stopped short.
pub enum TransferError {
    /// The local user cancelled.
    CancelledByUser,
    /// The receiver closed with the receiver-cancelled status.
    CancelledByReceiver,
    /// A folder to send holds no file.
    EmptyFolder,
    /// Any other failure, described for the user.
    Failed { reason: String },
}

impl TransferError {
    /// Text reported to the user.
    pub fn message(&self) -> (r: String)
        ensures
            r@ == match self {
                TransferError::CancelledByUser => "Cancelled by user"@,
                TransferError::CancelledByReceiver => "Cancelled by receiver"@,
                TransferError::EmptyFolder => "Empty folder"@,
                TransferError::Failed { reason } => reason@,
            },
    {
        match self {
            TransferError::CancelledByUser => String::from_str("Cancelled by user"),
            TransferError::CancelledByReceiver => String::from_str("Cancelled by receiver"),
            TransferError::EmptyFolder => String::from_str("Empty folder"),
            TransferError::Failed { reason } => reason.clone(),
        }
    }
}

/// The sender reads a close frame with this status as "cancelled by the
/// receiver".
pub open spec fn means_receiver_cancelled(close_code: Option<u16>) -> bool {
    close_code == Some(CLOSE_CANCELLED_BY_RECEIVER)
}

/// Sending a binary frame failed; `close_code` is the status of a close
/// frame read within the short wait that follows, if one came. The
/// receiver-cancelled status means the receiver cancelled; anything else is
/// reported as a failure with `reason`.
pub fn after_send_failure(close_code: Option<u16>, reason: String) -> (r: TransferError)
    ensures
        means_receiver_cancelled(close_code) ==> r is CancelledByReceiver,
        !means_receiver_cancelled(close_code) ==> r == (TransferError::Failed {
            reason,
        }),
{
    match close_code {
        Some(c) if c == CLOSE_CANCELLED_BY_RECEIVER => TransferError::CancelledByReceiver,
        _ => TransferError::Failed { reason },
    }
}

/// After the last chunk and its close frame, the receiver's own close frame
/// had status `close_code`, if any. The receiver-cancelled status means the
/// receiver cancelled after all bytes arrived; anything else means the file
/// was sent.
pub fn after_final_close(close_code: Option<u16>) -> (r: Result<(), TransferError>)
    ensures
        r is Err <==> means_receiver_cancelled(close_code),
        r matches Err(e) ==> e is CancelledByReceiver,
{
    match close_code {
        Some(c) if c == CLOSE_CANCELLED_BY_RECEIVER => Err(TransferError::CancelledByReceiver),
        _ => Ok(()),
    }
}

/// A batch of files sent one after the other.
pub struct Batch {
    pub count: usize,
    /// Index of the next file to send.
    pub next: usize,
}

/// What to do before the next file of a batch.
pub enum BatchStep {
    /// Send the file at `index`.
    Send { index: usize },
    /// Every file was sent.
    Done,
    /// The user cancelled: stop the whole batch.
    Abort,
}

impl Batch {
    pub open spec fn wf(&self) -> bool {
        self.next <= self.count
    }

    /// A batch of `count` files sent from a folder; an empty folder is an
    /// error where `folder` holds.
    pub fn new(count: usize, folder: bool) -> (r: Result<Batch, TransferError>)
        ensures
            r is Err <==> folder && count == 0,
            r matches Err(e) ==> e is EmptyFolder,
            r matches Ok(b) ==> b.wf() && b.count == count && b.next == 0,
    {
        if folder && count == 0 {
            Err(TransferError::EmptyFolder)
        } else {
            Ok(Batch { count, next: 0 })
        }
    }

    /// The next step; `cancel` is the send-side cancellation signal, which
    /// aborts the whole batch.
    pub fn step(&mut self, cancel: bool) -> (r: BatchStep)
        requires
            old(self).wf(),
        ensures
            final(self).wf(),
            final(self).count == old(self).count,
            cancel ==> r is Abort && *final(self) == *old(self),
            !cancel && old(self).next == old(self).count ==> r is Done && *final(self) == *old(
                self,
            ),
            !cancel && old(self).next < old(self).count ==> r == (BatchStep::Send {
                index: old(self).next,
            }) && final(self).next == old(self).next + 1,
    {
        if cancel {
            return BatchStep::Abort;
        }
        if self.next == self.count {
            return BatchStep::Done;
        }
        let index = self.next;
        self.next = self.next + 1;
        BatchStep::Send { index }
    }

    /// Takes the outcome of the file just sent. A failure of one file ends
    /// the whole batch: it becomes the batch's result and no further file
    /// is sent.
    pub fn after_file(&mut self, sent: Result<(), TransferError>) -> (r: Result<(), TransferError>)
        requires
            old(self).wf(),
        ensures
            final(self).wf(),
            final(self).count == old(self).count,
            sent is Ok ==> r is Ok && *final(self) == *old(self),
            sent is Err ==> r == sent && final(self).next == final(self).count,
    {
        match sent {
            Ok(()) => Ok(()),
            Err(e) => {
                self.next = self.count;
                Err(e)
            },
        }
    }
}

/// One file being streamed.
pub struct SendSession {
    /// Announced size of the file.
    pub size: u64,
    /// Bytes sent so far.
    pub sent: u64,
    /// Stop once `size` bytes were sent, rather than only at the end of the
    /// source.
    pub stop_at_size: bool,
    /// No further chunk is read.
    pub finished: bool,
}

/// What to do before the next chunk.
pub enum SendStep {
    /// Read up to `max_len` bytes of the source at `offset` and send them.
    Read { offset: u64, max_len: u64 },
    /// Send the close frame and await the receiver's.
    Finish,
    /// The user cancelled: send a close frame and stop.
    Abort,
}

impl SendSession {
    pub fn new(size: u64, stop_at_size: bool) -> (r: SendSession)
        ensures
            r == (SendSession { size, sent: 0, stop_at_size, finished: false }),
    {
        SendSession { size, sent: 0, stop_at_size, finished: false }
    }

    /// The next step; `cancel` is the send-side cancellation signal, checked
    /// before each chunk is read.
    pub fn step(&self, cancel: bool) -> (r: SendStep)
        ensures
            self.finished ==> r is Finish,
            !self.finished && cancel ==> r is Abort,
            !self.finished && !cancel ==> r == (SendStep::Read {
                offset: self.sent,
                max_len: CHUNK_SIZE,
            }),
    {
        if self.finished {
            SendStep::Finish
        } else if cancel {
            SendStep::Abort
        } else {
            SendStep::Read { offset: self.sent, max_len: CHUNK_SIZE }
        }
    }

    /// A read returned `n` bytes: none means the source is exhausted.
    /// Returns whether the bytes are to be sent.
    pub fn on_read(&mut self, n: u64) -> (r: bool)
        ensures
            r == (n > 0),
            *final(self) == (SendSession { finished: old(self).finished || n == 0, ..*old(self) }),
    {
        if n == 0 {
            self.finished = true;
            false
        } else {
            true
        }
    }

    /// A chunk of `n` bytes was sent.
    pub fn on_sent(&mut self, n: u64)
        ensures
            final(self).size == old(self).size,
            final(self).stop_at_size == old(self).stop_at_size,
            final(self).sent == old(self).sent.saturating_add(n),
            final(self).finished == (old(self).finished || (old(self).stop_at_size
                && final(self).sent >= old(self).size)),
    {
        self.sent = self.sent.saturating_add(n);
        if self.stop_at_size && self.sent >= self.size {
            self.finished = true;
        }
    }
}

/// A receiver that cancels closes the connection with a status that the
/// sender reads as cancelled by the receiver: when the signal is seen on a
/// frame, and when it is seen only as the connection ends.
pub proof fn lemma_receiver_cancel_reaches_sender(s: ReceiveSession, len: u64)
    ensures
        !s.stopped ==> (frame_action(s, len, true) matches FrameAction::CancelAndStop { close_code }
            && means_receiver_cancelled(Some(close_code))),
        !s.close_sent ==> completion_of(s, true).outcome is Cancelled && means_receiver_cancelled(
            completion_of(s, true).close_code,
        ),
{
}

} // verus!
