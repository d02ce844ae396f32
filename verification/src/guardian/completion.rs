//! The channel by which a run of maintenance tells its waiters that it is over.
use tokio::sync::watch;
use vstd::prelude::*;

verus! {

/// `tokio::sync::watch::Sender`, the end that publishes.
#[verifier::external_type_specification]
#[verifier::external_body]
#[verifier::reject_recursive_types(T)]
pub struct ExSender<T>(watch::Sender<T>);

/// `tokio::sync::watch::Receiver`, the end that is watched.
#[verifier::external_type_specification]
#[verifier::external_body]
#[verifier::reject_recursive_types(T)]
pub struct ExReceiver<T>(watch::Receiver<T>);

/// Calls `tokio::sync::watch::channel` with a first value. What the receiver shows
/// later depends on what the sender's holder does, so nothing is claimed of the
/// two ends.
#[verifier::external_body]
fn new_channel(finished: bool) -> (ends: (watch::Sender<bool>, watch::Receiver<bool>)) {
    watch::channel(finished)
}

/// Calls `tokio::sync::watch::Receiver::borrow`: whether the run was over at the
/// moment of the call. Another thread decides that.
#[verifier::external_body]
fn shows_finished(receiver: &watch::Receiver<bool>) -> (finished: bool) {
    *receiver.borrow()
}

/// Calls `tokio::sync::watch::Receiver::has_changed`, which fails exactly when
/// the sender is gone. Another thread decides that.
#[verifier::external_body]
fn has_sender(receiver: &watch::Receiver<bool>) -> (open: bool) {
    receiver.has_changed().is_ok()
}

/// Calls `Clone::clone` on a `tokio::sync::watch::Receiver`: a receiver of its
/// own for the same channel, of which nothing is claimed.
#[verifier::external_body]
fn another(receiver: &watch::Receiver<bool>) -> (copy: watch::Receiver<bool>) {
    receiver.clone()
}

/// Calls `tokio::sync::watch::Sender::send_replace`, which puts the value into
/// the channel and wakes the waiters, whether or not there are any. The sender is
/// used up: who still holds one has sent nothing through it. The receipt says
/// which value was sent.
#[verifier::external_body]
fn send(sender: watch::Sender<bool>, finished: bool) -> (receipt: Published)
    ensures
        receipt.value() == finished,
{
    sender.send_replace(finished);
    Published { finished }
}

/// The receipt for a value that was sent to the waiters of a run.
#[derive(Debug, PartialEq, Eq)]
pub struct Published {
    finished: bool,
}

impl Published {
    /// The value that was sent.
    pub closed spec fn value(&self) -> bool {
        self.finished
    }

    /// Whether the value was sent through an end, and so to those who watch the
    /// end that this one was made with.
    pub closed spec fn was_sent_through(&self, announcer: Announcer) -> bool {
        call_ensures(send, (announcer.sender, self.finished), *self)
    }
}

/// The end of a run's channel that its waiters watch.
#[derive(Debug)]
pub struct Completion {
    receiver: watch::Receiver<bool>,
}

/// The end of a run's channel that the run holds.
#[derive(Debug)]
pub struct Announcer {
    sender: watch::Sender<bool>,
}

/// Whether a look at a receiver can come to this. What it comes to at a moment is
/// for the sender's holder to say, so both answers may be possible.
pub closed spec fn can_show(receiver: watch::Receiver<bool>, finished: bool) -> bool {
    call_ensures(shows_finished, (&receiver,), finished)
}

impl Completion {
    /// Whether a look at the run can come to this.
    pub closed spec fn can_show_finished(&self, finished: bool) -> bool {
        can_show(self.receiver, finished)
    }

    /// Whether asking if the run still holds its end can come to this.
    pub closed spec fn can_be_open(&self, open: bool) -> bool {
        call_ensures(has_sender, (&self.receiver,), open)
    }

    /// Whether a receiver was cloned from this end, and so watches the same run.
    pub closed spec fn is_watched_by(&self, receiver: watch::Receiver<bool>) -> bool {
        call_ensures(another, (&self.receiver,), receiver)
    }
}

impl Announcer {
    /// Whether this end and another were made together, as the two ends of one
    /// channel that shows a value from the start.
    pub closed spec fn is_paired_with(&self, completion: Completion, first: bool) -> bool {
        call_ensures(new_channel, (first,), (self.sender, completion.receiver))
    }
}

/// The two ends of the channel of a new run, which is not over.
pub(crate) fn completion_channel() -> (ends: (Announcer, Completion))
    ensures
        ends.0.is_paired_with(ends.1, false),
{
    let (sender, receiver) = new_channel(false);
    (Announcer { sender }, Completion { receiver })
}

/// Whether the run that a receiver watches is over.
pub(crate) fn is_over(receiver: &watch::Receiver<bool>) -> (finished: bool)
    ensures
        can_show(*receiver, finished),
{
    shows_finished(receiver)
}

impl Completion {
    /// A receiver to wait on.
    pub(crate) fn watcher(&self) -> (receiver: watch::Receiver<bool>)
        ensures
            self.is_watched_by(receiver),
    {
        another(&self.receiver)
    }

    /// Whether the run is over.
    pub(crate) fn is_finished(&self) -> (finished: bool)
        ensures
            self.can_show_finished(finished),
    {
        shows_finished(&self.receiver)
    }

    /// Whether the run still holds its end.
    pub(crate) fn is_open(&self) -> (open: bool)
        ensures
            self.can_be_open(open),
    {
        has_sender(&self.receiver)
    }
}

impl Announcer {
    /// Tells the waiters whether the run is over. This uses the end up, so nothing
    /// was published before.
    pub(crate) fn publish(self, finished: bool) -> (receipt: Published)
        ensures
            receipt.value() == finished,
            receipt.was_sent_through(self),
    {
        send(self.sender, finished)
    }
}

} // verus!
