//! A channel inside one process.

use crate::channels::{ChannelError, Receiver, Sender};
use vstd::prelude::*;

verus! {

/// A channel inside one process: messages leave it in the order in which they entered.
/// Once closed it takes no more messages, and reports the closing when it has run empty.
#[derive(Debug)]
pub struct Queue<M> {
    pending: Vec<M>,
    closed: bool,
}

impl<M> Queue<M> {
    /// The messages that wait, oldest first.
    pub closed spec fn view(&self) -> Seq<M> {
        self.pending@
    }

    /// Whether the queue has been closed.
    pub closed spec fn is_closed(&self) -> bool {
        self.closed
    }

    /// An open queue without messages.
    pub fn new() -> (queue: Self)
        ensures
            queue@ == Seq::<M>::empty(),
            !queue.is_closed(),
    {
        Queue { pending: Vec::new(), closed: false }
    }

    /// Closes the queue. What waits in it can still be taken out.
    pub fn close(&mut self)
        ensures
            final(self)@ == old(self)@,
            final(self).is_closed(),
    {
        self.closed = true;
    }

    /// The number of messages that wait.
    pub fn len(&self) -> (count: usize)
        ensures
            count == self@.len(),
    {
        self.pending.len()
    }
}

impl<M> Sender for Queue<M> {
    type Message = M;

    open spec fn sends(self, message: M, after: Self, res: Result<(), ChannelError>) -> bool {
        &&& after.is_closed() == self.is_closed()
        &&& if self.is_closed() {
            res == Err::<(), ChannelError>(ChannelError::Disconnected) && after@ == self@
        } else {
            res.is_ok() && after@ == self@.push(message)
        }
    }

    fn send(&mut self, message: M) -> (res: Result<(), ChannelError>) {
        if self.closed {
            Err(ChannelError::Disconnected)
        } else {
            self.pending.push(message);
            Ok(())
        }
    }
}

impl<M> Receiver for Queue<M> {
    type Message = M;

    open spec fn receives(self, after: Self, res: Result<Option<M>, ChannelError>) -> bool {
        &&& after.is_closed() == self.is_closed()
        &&& if self@.len() > 0 {
            res == Ok::<Option<M>, ChannelError>(Some(self@[0])) && after@ == self@.drop_first()
        } else {
            &&& after@ == self@
            &&& res == if self.is_closed() {
                Err::<Option<M>, ChannelError>(ChannelError::Disconnected)
            } else {
                Ok::<Option<M>, ChannelError>(None)
            }
        }
    }

    fn try_receive(&mut self) -> (res: Result<Option<M>, ChannelError>) {
        if self.pending.len() > 0 {
            let message = self.pending.remove(0);
            assert(self.pending@ =~= old(self).pending@.drop_first());
            Ok(Some(message))
        } else if self.closed {
            Err(ChannelError::Disconnected)
        } else {
            Ok(None)
        }
    }
}

} // verus!
