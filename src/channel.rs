use crate::errors::APIError;
use crate::message::Message;
use crate::user::UserID;
use vstd::prelude::*;

verus! {

/// An accepted message on its way from ingestion to persistence, keyed by account.
#[derive(Debug)]
pub struct Envelope {
    pub user_id: UserID,
    pub message: Message,
}

impl Clone for Envelope {
    fn clone(&self) -> (r: Envelope)
        ensures
            r == *self,
    {
        Envelope { user_id: self.user_id.clone(), message: self.message.clone() }
    }
}

/// A bounded first-in first-out queue between ingestion and the consumer. Delivery
/// is at least once: an entry stays at the head, and is handed out again, until the
/// consumer acknowledges it.
pub struct DecouplingChannel {
    pending: Vec<Envelope>,
    capacity: usize,
}

impl DecouplingChannel {
    /// The accepted entries not yet acknowledged, oldest first.
    pub closed spec fn view(&self) -> Seq<Envelope> {
        self.pending@
    }

    pub closed spec fn capacity(&self) -> nat {
        self.capacity as nat
    }

    pub fn new(capacity: usize) -> (r: DecouplingChannel)
        ensures
            r.view() == Seq::<Envelope>::empty(),
            r.capacity() == capacity,
    {
        DecouplingChannel { pending: Vec::new(), capacity }
    }

    pub fn len(&self) -> (n: usize)
        ensures
            n == self.view().len(),
    {
        self.pending.len()
    }

    /// Accepts `message` for `user_id` at the tail, or fails with `Unavailable`,
    /// changing nothing, when the channel is full.
    pub fn publish(&mut self, user_id: &UserID, message: &Message) -> (r: Result<(), APIError>)
        ensures
            final(self).capacity() == old(self).capacity(),
            r is Ok <==> old(self).view().len() < old(self).capacity(),
            r is Ok ==> final(self).view() == old(self).view().push(
                Envelope { user_id: *user_id, message: *message },
            ),
            r is Err ==> r == Err::<(), APIError>(APIError::Unavailable) && final(self).view()
                == old(self).view(),
    {
        if self.pending.len() >= self.capacity {
            return Err(APIError::Unavailable);
        }
        self.pending.push(Envelope { user_id: user_id.clone(), message: message.clone() });
        Ok(())
    }

    /// The oldest entry not yet acknowledged, if any; the channel is left as it is.
    pub fn poll(&self) -> (r: Option<Envelope>)
        ensures
            r == (if self.view().len() > 0 {
                Some(self.view()[0])
            } else {
                None
            }),
    {
        if self.pending.len() == 0 {
            None
        } else {
            Some(self.pending[0].clone())
        }
    }

    /// Marks the oldest entry as handled, so that it is not handed out again.
    pub fn acknowledge(&mut self)
        ensures
            final(self).capacity() == old(self).capacity(),
            final(self).view() == (if old(self).view().len() > 0 {
                old(self).view().drop_first()
            } else {
                old(self).view()
            }),
    {
        if self.pending.len() > 0 {
            self.pending.remove(0);
            assert(self.pending@ =~= old(self).pending@.drop_first());
        }
    }
}

} // verus!
