//! Inter-process communication: bounded per-process message queues,
//! delivered first in, first out.

use crate::process::Pid;
use vstd::prelude::*;

verus! {

/// Number of queue slots, one per process-identifier residue.
pub const IPC_SLOTS: usize = 256;

/// A message carried between processes.
#[derive(Clone)]
pub struct Message {
    sender: Pid,
    data: Vec<u8>,
}

impl Message {
    /// Who sent the message.
    pub closed spec fn spec_sender(self) -> Pid {
        self.sender
    }

    /// The message's payload.
    pub closed spec fn spec_data(self) -> Seq<u8> {
        self.data@
    }

    /// Create a message.
    pub fn new(sender: Pid, data: Vec<u8>) -> (r: Self)
        ensures
            r.spec_sender() == sender,
            r.spec_data() == data@,
    {
        Message { sender, data }
    }

    /// Get the sender.
    pub fn sender(&self) -> (r: Pid)
        ensures
            r == self.spec_sender(),
    {
        self.sender
    }

    /// Get the payload.
    pub fn data(&self) -> (r: &[u8])
        ensures
            r@ == self.spec_data(),
    {
        self.data.as_slice()
    }
}

/// A bounded queue of messages for one process.
struct MessageQueue {
    messages: Vec<Message>,
    capacity: usize,
}

impl MessageQueue {
    spec fn view(self) -> Seq<Message> {
        self.messages@
    }

    spec fn spec_capacity(self) -> usize {
        self.capacity
    }

    fn new(capacity: usize) -> (r: Self)
        ensures
            r.view().len() == 0,
            r.spec_capacity() == capacity,
    {
        MessageQueue { messages: Vec::new(), capacity }
    }

    fn send(&mut self, msg: Message) -> (r: Result<(), &'static str>)
        ensures
            old(self).view().len() >= old(self).spec_capacity() ==> r is Err && *final(self)
                == *old(self),
            old(self).view().len() < old(self).spec_capacity() ==> r is Ok && final(self).view()
                == old(self).view().push(msg) && final(self).spec_capacity() == old(self).spec_capacity(),
    {
        if self.messages.len() >= self.capacity {
            return Result::Err("Queue full");
        }
        self.messages.push(msg);
        Result::Ok(())
    }

    fn receive(&mut self) -> (r: Option<Message>)
        ensures
            old(self).view().len() == 0 ==> r is None && *final(self) == *old(self),
            old(self).view().len() > 0 ==> r == Option::Some(old(self).view()[0]) && final(self).view() == old(self).view().drop_first() && final(self).spec_capacity() == old(self).spec_capacity(),
    {
        if self.messages.len() == 0 {
            Option::None
        } else {
            let m = self.messages.remove(0);
            proof {
                assert(self.messages@ =~= old(self).view().drop_first());
            }
            Option::Some(m)
        }
    }
}

/// All message queues, one optional queue per slot.
pub struct IpcSystem {
    queues: Vec<Option<MessageQueue>>,
}

impl IpcSystem {
    /// The payload sequence of the queue in slot `k` (empty when absent).
    pub closed spec fn queue_at(self, k: int) -> Seq<Message> {
        if self.spec_has_queue(k) {
            self.queues@[k]->0.view()
        } else {
            Seq::empty()
        }
    }

    /// Whether slot `k` holds a queue.
    pub closed spec fn spec_has_queue(self, k: int) -> bool {
        0 <= k < self.queues@.len() && self.queues@[k] is Some
    }

    /// The capacity of the queue in slot `k`.
    pub closed spec fn spec_capacity_at(self, k: int) -> usize {
        self.queues@[k]->0.spec_capacity()
    }

    /// The system always holds `IPC_SLOTS` slots.
    pub open spec fn wf(self) -> bool {
        self.spec_len() == IPC_SLOTS
    }

    /// Number of slots.
    pub closed spec fn spec_len(self) -> int {
        self.queues@.len() as int
    }

    /// Create the system with no queues.
    pub fn new() -> (r: Self)
        ensures
            r.wf(),
            forall|k: int| !(#[trigger] r.spec_has_queue(k)),
    {
        let mut queues: Vec<Option<MessageQueue>> = Vec::new();
        let mut i: usize = 0;
        while i < IPC_SLOTS
            invariant
                i <= IPC_SLOTS,
                queues@.len() == i,
                forall|k: int| 0 <= k < i ==> (#[trigger] queues@[k]) is None,
            decreases IPC_SLOTS - i,
        {
            queues.push(Option::None);
            i = i + 1;
        }
        IpcSystem { queues }
    }

    /// Give process `pid` an empty queue of the given capacity, replacing
    /// any queue its slot already held.
    pub fn init_process_queue(&mut self, pid: Pid, capacity: usize)
        requires
            old(self).wf(),
        ensures
            final(self).wf(),
            ({
                let k = pid.0 as int % (IPC_SLOTS as int);
                &&& final(self).spec_has_queue(k)
                &&& final(self).queue_at(k).len() == 0
                &&& final(self).spec_capacity_at(k) == capacity
                &&& forall|j: int|
                    0 <= j < IPC_SLOTS && j != k ==> #[trigger] final(self).queue_at(j) == old(self).queue_at(j) && (final(self).spec_has_queue(j) == old(self).spec_has_queue(
                        j,
                    ))
            }),
    {
        let index = pid.as_usize() % IPC_SLOTS;
        self.queues[index] = Option::Some(MessageQueue::new(capacity));
    }

    /// Send `data` from `from` to `to`: append to the recipient's queue,
    /// or report the queue full or absent.
    pub fn send(&mut self, to: Pid, from: Pid, data: Vec<u8>) -> (r: Result<(), &'static str>)
        requires
            old(self).wf(),
        ensures
            final(self).wf(),
            ({
                let k = to.0 as int % (IPC_SLOTS as int);
                &&& final(self).spec_has_queue(k) == old(self).spec_has_queue(k)
                &&& (!old(self).spec_has_queue(k) ==> r is Err && final(self).queue_at(k) == old(self).queue_at(k))
                &&& (old(self).spec_has_queue(k) ==> final(self).spec_capacity_at(k) == old(self).spec_capacity_at(k))
                &&& (old(self).spec_has_queue(k) && old(self).queue_at(k).len() >= old(self).spec_capacity_at(k)
                    ==> r is Err && final(self).queue_at(k) == old(self).queue_at(k))
                &&& (old(self).spec_has_queue(k) && old(self).queue_at(k).len() < old(self).spec_capacity_at(k)
                    ==> r is Ok && final(self).queue_at(k).len() == old(self).queue_at(k).len() + 1
                        && final(self).queue_at(k).last().spec_sender() == from
                        && final(self).queue_at(k).last().spec_data() == data@
                        && (forall|m: int| 0 <= m < old(self).queue_at(k).len()
                            ==> #[trigger] final(self).queue_at(k)[m] == old(self).queue_at(k)[m]))
                &&& forall|j: int|
                    0 <= j < IPC_SLOTS && j != k ==> #[trigger] final(self).queue_at(j) == old(self).queue_at(j)
                        && final(self).spec_has_queue(j) == old(self).spec_has_queue(j)
            }),
    {
        let msg = Message::new(from, data);
        let index = to.as_usize() % IPC_SLOTS;
        let mut slot: Option<MessageQueue> = Option::None;
        core::mem::swap(&mut slot, &mut self.queues[index]);
        let r = match slot {
            Option::Some(mut queue) => {
                let r = queue.send(msg);
                self.queues[index] = Option::Some(queue);
                proof {
                    assert(self.queues@ =~= old(self).queues@.update(
                        index as int,
                        self.queues@[index as int],
                    ));
                }
                r
            },
            Option::None => {
                self.queues[index] = Option::None;
                proof {
                    assert(self.queues@ =~= old(self).queues@);
                }
                Result::Err("No queue for recipient")
            },
        };
        r
    }

    /// Receive the oldest message queued for `pid`, or `None` when its
    /// queue is absent or empty.
    pub fn receive(&mut self, pid: Pid) -> (r: Option<Message>)
        requires
            old(self).wf(),
        ensures
            final(self).wf(),
            ({
                let k = pid.0 as int % (IPC_SLOTS as int);
                &&& final(self).spec_has_queue(k) == old(self).spec_has_queue(k)
                &&& (!old(self).spec_has_queue(k) ==> r is None && final(self).queue_at(k) == old(self).queue_at(k))
                &&& (old(self).spec_has_queue(k) && old(self).queue_at(k).len() == 0 ==> r is None
                    && final(self).queue_at(k) == old(self).queue_at(k))
                &&& (old(self).spec_has_queue(k) && old(self).queue_at(k).len() > 0 ==> r
                    == Option::Some(old(self).queue_at(k)[0]) && final(self).queue_at(k) == old(self).queue_at(k).drop_first())
                &&& forall|j: int|
                    0 <= j < IPC_SLOTS && j != k ==> #[trigger] final(self).queue_at(j) == old(self).queue_at(j)
                        && final(self).spec_has_queue(j) == old(self).spec_has_queue(j)
            }),
    {
        let index = pid.as_usize() % IPC_SLOTS;
        let mut slot: Option<MessageQueue> = Option::None;
        core::mem::swap(&mut slot, &mut self.queues[index]);
        match slot {
            Option::Some(mut queue) => {
                let r = queue.receive();
                self.queues[index] = Option::Some(queue);
                proof {
                    assert(self.queues@ =~= old(self).queues@.update(
                        index as int,
                        self.queues@[index as int],
                    ));
                }
                r
            },
            Option::None => {
                self.queues[index] = Option::None;
                proof {
                    assert(self.queues@ =~= old(self).queues@);
                }
                Option::None
            },
        }
    }
}

/// Set up the message-passing subsystem.
pub fn init() {
}

} // verus!
