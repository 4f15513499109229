//! The two kinds of channel that connect the actors: a bus on which every
//! receiver sees every message, and a queue from which each message is
//! taken once.

use vstd::prelude::*;

verus! {

/// The sending end of a bus of `async_broadcast`.
#[verifier::external_type_specification]
#[verifier::external_body]
#[verifier::reject_recursive_types(T)]
pub struct ExBroadcastSender<T>(async_broadcast::Sender<T>);

/// A receiving end of a bus of `async_broadcast`, with a cursor of its own.
#[verifier::external_type_specification]
#[verifier::external_body]
#[verifier::reject_recursive_types(T)]
pub struct ExBroadcastReceiver<T>(async_broadcast::Receiver<T>);

/// The sending end of a queue of `async_channel`.
#[verifier::external_type_specification]
#[verifier::external_body]
#[verifier::reject_recursive_types(T)]
pub struct ExChannelSender<T>(async_channel::Sender<T>);

/// A receiving end of a queue of `async_channel`.
#[verifier::external_type_specification]
#[verifier::external_body]
#[verifier::reject_recursive_types(T)]
pub struct ExChannelReceiver<T>(async_channel::Receiver<T>);

/// `async_broadcast::broadcast`: both ends of a new bus that holds `cap`
/// messages at most. It panics on a capacity of 0, which is left out here.
pub assume_specification<T>[ async_broadcast::broadcast::<T> ](cap: usize) -> (ends: (
    async_broadcast::Sender<T>,
    async_broadcast::Receiver<T>,
))
    requires
        cap > 0,
;

/// `Clone` for the sending end of a bus: one more sender of the same bus.
/// A sender is nothing but its share of the bus, and the copy holds the same
/// share: as a value it is the sender that was copied.
pub assume_specification<T>[ <async_broadcast::Sender<T> as Clone>::clone ](
    sender: &async_broadcast::Sender<T>,
) -> (copy: async_broadcast::Sender<T>)
    ensures
        copy == *sender,
;

/// `Clone` for a receiving end of a bus: one more receiver of the same bus,
/// which starts where the cursor of this one stands. The copy does not take
/// over what this receiver is waiting for, so nothing is claimed of it.
pub assume_specification<T>[ <async_broadcast::Receiver<T> as Clone>::clone ](
    receiver: &async_broadcast::Receiver<T>,
) -> (copy: async_broadcast::Receiver<T>)
;

/// `async_channel::bounded`: both ends of a new queue that holds `cap`
/// messages at most. It panics on a capacity of 0, which is left out here.
pub assume_specification<T>[ async_channel::bounded::<T> ](cap: usize) -> (ends: (
    async_channel::Sender<T>,
    async_channel::Receiver<T>,
))
    requires
        cap > 0,
;

/// `Clone` for the sending end of a queue: one more sender of the same queue.
/// A sender is nothing but its share of the queue, and the copy holds the
/// same share: as a value it is the sender that was copied.
pub assume_specification<T>[ <async_channel::Sender<T> as Clone>::clone ](
    sender: &async_channel::Sender<T>,
) -> (copy: async_channel::Sender<T>)
    ensures
        copy == *sender,
;

/// `Clone` for a receiving end of a queue: one more receiver of the same
/// queue. The copy does not take over what this receiver is waiting for, so
/// nothing is claimed of it.
pub assume_specification<T>[ <async_channel::Receiver<T> as Clone>::clone ](
    receiver: &async_channel::Receiver<T>,
) -> (copy: async_channel::Receiver<T>)
;

/// A bounded bus: every receiver gets every message, in the order of
/// publication, and a sender waits while the bus is full.
#[derive(Debug, Clone)]
#[verifier::reject_recursive_types(T)]
pub struct BroadcastStream<T> {
    size: usize,
    stream_sender: async_broadcast::Sender<T>,
    stream_receiver: async_broadcast::Receiver<T>,
}

impl<T> BroadcastStream<T> {
    /// The capacity that the bus was made with.
    pub closed spec fn capacity(&self) -> usize {
        self.size
    }

    /// A new bus that holds `size` messages at most.
    pub fn new(size: usize) -> (bus: Self)
        requires
            size > 0,
        ensures
            bus.capacity() == size,
    {
        let (stream_sender, stream_receiver) = async_broadcast::broadcast::<T>(size);
        Self { size, stream_sender, stream_receiver }
    }

    /// The capacity that the bus was made with.
    pub fn size(&self) -> (size: usize)
        ensures
            size == self.capacity(),
    {
        self.size
    }

    /// The sending end that this handle holds.
    pub closed spec fn sender_end(&self) -> async_broadcast::Sender<T> {
        self.stream_sender
    }

    /// One more sender of this bus: a copy of the sending end that this
    /// handle holds.
    pub fn broadcast_sender(&self) -> (sender: async_broadcast::Sender<T>)
        ensures
            sender == self.sender_end(),
    {
        self.stream_sender.clone()
    }

    /// One more receiver of this bus, with a cursor of its own.
    pub fn broadcast_receiver(&self) -> async_broadcast::Receiver<T> {
        self.stream_receiver.clone()
    }
}

/// A bounded queue: each message goes to one receiver, a sender waits while
/// the queue is full and a receiver while it is empty.
#[derive(Debug, Clone)]
#[verifier::reject_recursive_types(T)]
pub struct ChannelStream<T> {
    size: usize,
    stream_sender: async_channel::Sender<T>,
    stream_receiver: async_channel::Receiver<T>,
}

impl<T> ChannelStream<T> {
    /// The capacity that the queue was made with.
    pub closed spec fn capacity(&self) -> usize {
        self.size
    }

    /// A new queue that holds `size` messages at most.
    pub fn new(size: usize) -> (queue: Self)
        requires
            size > 0,
        ensures
            queue.capacity() == size,
    {
        let (stream_sender, stream_receiver) = async_channel::bounded::<T>(size);
        Self { size, stream_sender, stream_receiver }
    }

    /// The capacity that the queue was made with.
    pub fn size(&self) -> (size: usize)
        ensures
            size == self.capacity(),
    {
        self.size
    }

    /// The sending end that this handle holds.
    pub closed spec fn sender_end(&self) -> async_channel::Sender<T> {
        self.stream_sender
    }

    /// One more sender of this queue: a copy of the sending end that this
    /// handle holds.
    pub fn channel_sender(&self) -> (sender: async_channel::Sender<T>)
        ensures
            sender == self.sender_end(),
    {
        self.stream_sender.clone()
    }

    /// One more receiver of this queue.
    pub fn channel_receiver(&self) -> async_channel::Receiver<T> {
        self.stream_receiver.clone()
    }
}

} // verus!
