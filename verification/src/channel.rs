//! The queue of bytes for the peer, a channel of the `tokio` crate.

use crate::buffer::bytes_contents;
use bytes::Bytes;
use tokio::sync::mpsc::error::TrySendError;
use tokio::sync::mpsc::Sender;
use vstd::prelude::*;

verus! {

/// `tokio::sync::mpsc::Sender`, opaque.
#[verifier::external_type_specification]
#[verifier::external_body]
#[verifier::reject_recursive_types(T)]
pub struct ExSender<T>(tokio::sync::mpsc::Sender<T>);

/// What became of bytes that were to be queued for the peer.
#[derive(Debug, Clone, Copy, PartialEq, Eq, Structural)]
pub enum SendOutcome {
    /// They are queued.
    Sent,
    /// The queue has no room.
    Full,
    /// The connection is gone.
    Closed,
}

/// Bytes that were offered to the queue, and what became of them.
pub struct Offer {
    pub data: Seq<u8>,
    pub outcome: SendOutcome,
}

/// The offers once `data` was offered with that outcome.
pub open spec fn offered(offers: Seq<Offer>, data: Seq<u8>, outcome: SendOutcome) -> Seq<Offer> {
    offers.push(Offer { data, outcome })
}

/// Everything that was offered to the queue through this sender, in order.
pub uninterp spec fn offers_of(sender: Sender<Bytes>) -> Seq<Offer>;

/// `Sender::try_send`: offers exactly these bytes to the queue, once, without
/// waiting: the queue takes them at its end, has no room, or is gone, and the
/// result says which. It depends on what the other end of the channel has done
/// by then, so nothing is promised of which of the three it is.
#[verifier::external_body]
fn try_send(sender: &mut Sender<Bytes>, data: Bytes) -> (r: SendOutcome)
    ensures
        offers_of(*final(sender)) == offered(offers_of(*old(sender)), bytes_contents(data), r),
{
    match sender.try_send(data) {
        Ok(()) => SendOutcome::Sent,
        Err(TrySendError::Full(_)) => SendOutcome::Full,
        Err(TrySendError::Closed(_)) => SendOutcome::Closed,
    }
}

/// One sender to the queue of bytes for the peer. Its view is everything that
/// was offered to the queue through that sender, in order.
pub struct Outbound {
    sender: Sender<Bytes>,
}

impl View for Outbound {
    type V = Seq<Offer>;

    closed spec fn view(&self) -> Seq<Offer> {
        offers_of(self.sender)
    }
}

/// What of the offers the queue took for the peer, in order.
pub open spec fn queued(offers: Seq<Offer>) -> Seq<Seq<u8>>
    decreases offers.len(),
{
    if offers.len() == 0 {
        Seq::empty()
    } else if offers.last().outcome == SendOutcome::Sent {
        queued(offers.drop_last()).push(offers.last().data)
    } else {
        queued(offers.drop_last())
    }
}

/// An offer that is taken goes to the end of the queue, and one that is not
/// leaves the queue as it was.
pub proof fn law_queued(offers: Seq<Offer>, data: Seq<u8>, outcome: SendOutcome)
    ensures
        queued(offered(offers, data, outcome)) == (if outcome == SendOutcome::Sent {
            queued(offers).push(data)
        } else {
            queued(offers)
        }),
{
    assert(offered(offers, data, outcome).drop_last() =~= offers);
}

impl Outbound {
    /// The queue behind that sender.
    pub fn new(sender: Sender<Bytes>) -> (r: Self)
        ensures
            r@ == offers_of(sender),
    {
        Outbound { sender }
    }

    /// Offers the bytes to the queue, which takes them if there is room for
    /// them now. Whatever comes back, these bytes were offered, once.
    pub fn try_send(&mut self, data: Bytes) -> (r: SendOutcome)
        ensures
            final(self)@ == offered(old(self)@, bytes_contents(data), r),
            queued(final(self)@) == (if r == SendOutcome::Sent {
                queued(old(self)@).push(bytes_contents(data))
            } else {
                queued(old(self)@)
            }),
    {
        let ghost contents = bytes_contents(data);
        let outcome = try_send(&mut self.sender, data);
        proof {
            law_queued(old(self)@, contents, outcome);
        }
        outcome
    }
}

/// An offer is added behind the earlier ones, with its bytes and its outcome.
pub proof fn law_offered(offers: Seq<Offer>, data: Seq<u8>, outcome: SendOutcome)
    ensures
        offered(offers, data, outcome).len() == offers.len() + 1,
        offered(offers, data, outcome).take(offers.len() as int) == offers,
        offered(offers, data, outcome).last().data == data,
        offered(offers, data, outcome).last().outcome == outcome,
        queued(Seq::<Offer>::empty()) == Seq::<Seq<u8>>::empty(),
{
    assert(offered(offers, data, outcome).take(offers.len() as int) =~= offers);
}

} // verus!
