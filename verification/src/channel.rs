//! The queue that connects two stages of the pipeline: first in, first out,
//! unbounded, and closed by its producer once nothing more will come.

use vstd::prelude::*;

verus! {

/// `crossbeam_channel::Sender`: the sending end of a channel. Nothing inside
/// it is visible here.
#[verifier::external_type_specification]
#[verifier::external_body]
#[verifier::reject_recursive_types(T)]
pub struct ExSender<T>(crossbeam_channel::Sender<T>);

/// `crossbeam_channel::Receiver`: the receiving end of a channel. Nothing
/// inside it is visible here.
#[verifier::external_type_specification]
#[verifier::external_body]
#[verifier::reject_recursive_types(T)]
pub struct ExReceiver<T>(crossbeam_channel::Receiver<T>);

/// The messages that wait in the channel behind `receiver`, oldest first.
pub uninterp spec fn queued(receiver: crossbeam_channel::Receiver<String>) -> Seq<Seq<char>>;

/// Whether `sender` and `receiver` are the two ends of one channel.
pub uninterp spec fn linked(
    sender: crossbeam_channel::Sender<String>,
    receiver: crossbeam_channel::Receiver<String>,
) -> bool;

/// The two ends of one channel, kept together so that nothing else can send
/// into it or take from it.
struct Ends {
    sender: crossbeam_channel::Sender<String>,
    receiver: crossbeam_channel::Receiver<String>,
}

/// `crossbeam_channel::unbounded`: a fresh channel of unbounded capacity. The
/// contract claims that the two ends it returns belong together and that
/// nothing waits in the channel yet.
#[verifier::external_body]
fn unbounded() -> (ends: Ends)
    ensures
        linked(ends.sender, ends.receiver),
        queued(ends.receiver) == Seq::<Seq<char>>::empty(),
{
    let (sender, receiver) = crossbeam_channel::unbounded();
    Ends { sender, receiver }
}

/// `crossbeam_channel::Sender::send` on an unbounded channel whose receiver is
/// alive: the call does not block and cannot fail, and the message becomes the
/// newest in the channel. The contract claims this of two ends that no other
/// thread shares.
#[verifier::external_body]
fn send(ends: &mut Ends, message: String) -> (sent: bool)
    requires
        linked(old(ends).sender, old(ends).receiver),
    ensures
        sent,
        linked(final(ends).sender, final(ends).receiver),
        queued(final(ends).receiver) == queued(old(ends).receiver).push(message@),
{
    ends.sender.send(message).is_ok()
}

/// `crossbeam_channel::Receiver::try_recv`: takes the oldest message without
/// blocking, or reports that none waits. The contract claims that the message
/// taken is the oldest, that the others stay in their order, and that an empty
/// channel is left as it was, for two ends that no other thread shares.
#[verifier::external_body]
fn try_recv(ends: &mut Ends) -> (message: Option<String>)
    requires
        linked(old(ends).sender, old(ends).receiver),
    ensures
        linked(final(ends).sender, final(ends).receiver),
        match message {
            Some(text) => queued(old(ends).receiver).len() > 0
                && text@ == queued(old(ends).receiver).first()
                && queued(final(ends).receiver) == queued(old(ends).receiver).drop_first(),
            None => queued(old(ends).receiver).len() == 0
                && queued(final(ends).receiver) == queued(old(ends).receiver),
        },
{
    ends.receiver.try_recv().ok()
}

/// What taking from a queue can yield.
#[derive(Debug, PartialEq, Eq)]
pub enum Received {
    /// The oldest item of the queue, which has left it.
    Item(String),
    /// Nothing waits, but the producer may still send.
    Empty,
    /// Nothing waits and the producer has closed the queue: nothing will come.
    Closed,
}

/// A first-in, first-out queue of texts with a producer handle that can be
/// closed. Closing is the only signal of the end: no item stands for it.
pub struct Channel {
    ends: Ends,
    open: bool,
}

impl View for Channel {
    type V = Seq<Seq<char>>;

    /// The items that wait in the queue, oldest first.
    closed spec fn view(&self) -> Seq<Seq<char>> {
        queued(self.ends.receiver)
    }
}

impl Channel {
    /// The two ends belong to one channel.
    pub closed spec fn wf(&self) -> bool {
        linked(self.ends.sender, self.ends.receiver)
    }

    /// Whether the producer may still send.
    pub closed spec fn is_open(&self) -> bool {
        self.open
    }

    /// An empty queue whose producer has not closed it.
    pub fn new() -> (channel: Channel)
        ensures
            channel.wf(),
            channel.is_open(),
            channel@ == Seq::<Seq<char>>::empty(),
    {
        Channel { ends: unbounded(), open: true }
    }

    /// Whether the producer may still send.
    pub fn open(&self) -> (open: bool)
        ensures
            open == self.is_open(),
    {
        self.open
    }

    /// Puts `item` behind all that wait, unless the queue was closed: then the
    /// item is refused and the queue stays as it is.
    pub fn send(&mut self, item: String) -> (sent: bool)
        requires
            old(self).wf(),
        ensures
            final(self).wf(),
            final(self).is_open() == old(self).is_open(),
            sent == old(self).is_open(),
            final(self)@ == if sent {
                old(self)@.push(item@)
            } else {
                old(self)@
            },
    {
        if self.open {
            send(&mut self.ends, item)
        } else {
            false
        }
    }

    /// Closes the producer handle. What waits can still be taken.
    pub fn close(&mut self)
        requires
            old(self).wf(),
        ensures
            final(self).wf(),
            !final(self).is_open(),
            final(self)@ == old(self)@,
    {
        self.open = false;
    }

    /// Takes the oldest item, or tells why there is none.
    pub fn recv(&mut self) -> (received: Received)
        requires
            old(self).wf(),
        ensures
            final(self).wf(),
            final(self).is_open() == old(self).is_open(),
            match received {
                Received::Item(item) => old(self)@.len() > 0 && item@ == old(self)@.first()
                    && final(self)@ == old(self)@.drop_first(),
                Received::Empty => old(self)@.len() == 0 && old(self).is_open() && final(self)@
                    == old(self)@,
                Received::Closed => old(self)@.len() == 0 && !old(self).is_open() && final(self)@
                    == old(self)@,
            },
    {
        match try_recv(&mut self.ends) {
            Some(item) => Received::Item(item),
            None => if self.open {
                Received::Empty
            } else {
                Received::Closed
            },
        }
    }
}

} // verus!
