//! The bounded first-in first-out queue of messages that each process owns.

use vstd::prelude::*;
use crate::proc::Message;

verus! {

/// Number of messages that a queue holds at most.
pub const QUEUE_CAPACITY: usize = 16;

/// Why a queue operation did nothing.
#[derive(Copy, Clone, Debug, PartialEq, Eq, Structural)]
pub enum QueueError {
    Full,
    Empty,
}

/// Place in the ring of the message that is `i` places behind the one at
/// `head`.
pub open spec fn ring_index(head: int, i: int) -> int {
    (head + i) % (QUEUE_CAPACITY as int)
}

/// Whether a queue that holds `queue` has room for one more message.
pub open spec fn has_room(queue: Seq<Message>) -> bool {
    queue.len() < QUEUE_CAPACITY
}

/// What a queue that held `queue` holds after `message` was offered to it:
/// `message` behind the others, where there was room.
pub open spec fn enqueued(queue: Seq<Message>, message: Message) -> Seq<Message> {
    if has_room(queue) {
        queue.push(message)
    } else {
        queue
    }
}

/// What a queue that held `queue` holds after its oldest message was asked
/// for.
pub open spec fn dequeued(queue: Seq<Message>) -> Seq<Message> {
    if queue.len() > 0 {
        queue.drop_first()
    } else {
        queue
    }
}

/// What a queue that held `queue` holds after each of `messages` was
/// offered to it, in their order.
pub open spec fn enqueued_all(queue: Seq<Message>, messages: Seq<Message>) -> Seq<Message>
    decreases messages.len(),
{
    if messages.len() == 0 {
        queue
    } else {
        enqueued(enqueued_all(queue, messages.drop_last()), messages.last())
    }
}

/// What a queue that held `queue` holds after its oldest message was asked
/// for `n` times.
pub open spec fn dequeued_times(queue: Seq<Message>, n: nat) -> Seq<Message>
    decreases n,
{
    if n == 0 {
        queue
    } else {
        dequeued(dequeued_times(queue, (n - 1) as nat))
    }
}

/// An empty queue takes `QUEUE_CAPACITY` messages one after the other, and
/// then no more; the messages leave it in the order in which they came; and
/// nothing leaves an empty queue.
///
/// Of `messages`, not more than `QUEUE_CAPACITY`, offered to an empty
/// queue: after the first `k` the queue holds these `k`; it has room for
/// the next unless `k` is `QUEUE_CAPACITY`; and after all of them and `k`
/// requests for the oldest, the oldest is `messages[k]`.
pub proof fn lemma_first_in_first_out(messages: Seq<Message>, k: nat)
    requires
        messages.len() <= QUEUE_CAPACITY,
        k <= messages.len(),
    ensures
        enqueued_all(Seq::empty(), messages.take(k as int)) == messages.take(k as int),
        has_room(messages.take(k as int)) <==> k < QUEUE_CAPACITY,
        dequeued_times(enqueued_all(Seq::empty(), messages), k) == messages.skip(k as int),
        k < messages.len() ==> dequeued_times(messages, k).len() > 0 && dequeued_times(
            messages,
            k,
        )[0] == messages[k as int],
        dequeued(Seq::<Message>::empty()) == Seq::<Message>::empty(),
    decreases k,
{
    lemma_enqueued_all(messages.take(k as int));
    lemma_enqueued_all(messages);
    lemma_dequeued_times(messages, k);
}

/// Not more than `QUEUE_CAPACITY` messages, offered to an empty queue, are
/// all taken.
proof fn lemma_enqueued_all(messages: Seq<Message>)
    requires
        messages.len() <= QUEUE_CAPACITY,
    ensures
        enqueued_all(Seq::empty(), messages) == messages,
    decreases messages.len(),
{
    if messages.len() > 0 {
        lemma_enqueued_all(messages.drop_last());
        assert(messages.drop_last().push(messages.last()) =~= messages);
    } else {
        assert(messages =~= Seq::empty());
    }
}

/// After `k` requests for the oldest, a queue holds what it held but the
/// first `k`.
proof fn lemma_dequeued_times(queue: Seq<Message>, k: nat)
    requires
        k <= queue.len(),
    ensures
        dequeued_times(queue, k) == queue.skip(k as int),
    decreases k,
{
    if k > 0 {
        lemma_dequeued_times(queue, (k - 1) as nat);
        assert(queue.skip(k - 1).drop_first() =~= queue.skip(k as int));
    } else {
        assert(queue.skip(0) =~= queue);
    }
}

/// A queue of at most `QUEUE_CAPACITY` messages, kept in a ring.
pub struct MessageQueue {
    buf: [Message; QUEUE_CAPACITY],
    head: usize,
    len: usize,
}

impl MessageQueue {
    /// What holds of every queue: its oldest message has a place in the
    /// ring, and its messages are not more than the ring has places.
    pub closed spec fn wf(&self) -> bool {
        &&& self.head < QUEUE_CAPACITY
        &&& self.len <= QUEUE_CAPACITY
    }

    /// The messages in the queue, oldest first.
    pub closed spec fn view(&self) -> Seq<Message> {
        Seq::new(self.len as nat, |i: int| self.buf@[ring_index(self.head as int, i)])
    }

    /// What the places of the ring hold, whether messages of the queue or
    /// not.
    pub closed spec fn places(&self) -> Seq<Message> {
        self.buf@
    }

    /// An empty queue. Each place of its ring holds `fill` until a message
    /// takes it.
    pub fn new(fill: Message) -> (q: MessageQueue)
        ensures
            q.wf(),
            q@ == Seq::<Message>::empty(),
            q.places() == Seq::new(QUEUE_CAPACITY as nat, |i: int| fill),
    {
        let q = MessageQueue { buf: [fill;QUEUE_CAPACITY], head: 0, len: 0 };
        assert(q@ =~= Seq::<Message>::empty());
        assert(q.places() =~= Seq::new(QUEUE_CAPACITY as nat, |i: int| fill));
        q
    }

    /// Number of messages in the queue.
    pub fn len(&self) -> (n: usize)
        requires
            self.wf(),
        ensures
            n == self@.len(),
            n <= QUEUE_CAPACITY,
    {
        self.len
    }

    /// Appends `message`, unless the queue is full.
    pub fn enqueue(&mut self, message: Message) -> (r: Result<(), QueueError>)
        requires
            old(self).wf(),
        ensures
            final(self).wf(),
            final(self)@ == enqueued(old(self)@, message),
            has_room(old(self)@) ==> r is Ok,
            !has_room(old(self)@) ==> r == Err::<(), QueueError>(QueueError::Full),
    {
        if self.len == QUEUE_CAPACITY {
            return Err(QueueError::Full);
        }
        let at: usize = (self.head + self.len) % QUEUE_CAPACITY;
        self.buf[at] = message;
        self.len += 1;
        assert(self@ =~= old(self)@.push(message)) by {
            assert forall|i: int| 0 <= i < old(self).len implies #[trigger] ring_index(
                old(self).head as int,
                i,
            ) != at by {
                if old(self).head + i < QUEUE_CAPACITY {
                } else {
                }
            }
        }
        Ok(())
    }

    /// Takes the oldest message out, unless the queue is empty.
    pub fn dequeue(&mut self) -> (r: Result<Message, QueueError>)
        requires
            old(self).wf(),
        ensures
            final(self).wf(),
            final(self)@ == dequeued(old(self)@),
            old(self)@.len() > 0 ==> r == Ok::<Message, QueueError>(old(self)@[0]),
            old(self)@.len() == 0 ==> r == Err::<Message, QueueError>(QueueError::Empty),
    {
        if self.len == 0 {
            return Err(QueueError::Empty);
        }
        let message = self.buf[self.head];
        self.head = (self.head + 1) % QUEUE_CAPACITY;
        self.len -= 1;
        assert(self@ =~= old(self)@.drop_first()) by {
            assert forall|i: int| 0 <= i < self.len implies #[trigger] ring_index(
                self.head as int,
                i,
            ) == ring_index(old(self).head as int, i + 1) by {
                if old(self).head + 1 < QUEUE_CAPACITY {
                } else {
                }
            }
        }
        Ok(message)
    }
}

} // verus!
