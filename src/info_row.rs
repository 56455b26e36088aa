//! The row at the bottom of the window, with its status messages.
use vstd::prelude::*;
use crate::status::{StatusMessage, StatusMessageQueue, added};

verus! {

/// The state of the info row: the status messages it shows.
pub struct InfoRow {
    message_row: StatusMessageQueue,
}

impl InfoRow {
    pub closed spec fn messages_view(&self) -> StatusMessageQueue {
        self.message_row
    }

    /// An info row with no messages.
    pub fn new() -> (r: InfoRow)
        ensures
            r.messages_view().shown() is None,
            r.messages_view().waiting().len() == 0,
    {
        InfoRow { message_row: StatusMessageQueue::new() }
    }

    /// Adds a message to those the row shows.
    pub fn add_info_message(&mut self, msg: StatusMessage)
        ensures
            added(old(self).messages_view(), msg, final(self).messages_view()),
    {
        self.message_row.add_message(msg);
    }

    /// Removes the message shown; the next waiting one is shown.
    pub fn clear_message(&mut self)
        ensures
            old(self).messages_view().waiting().len() == 0 ==> final(self).messages_view().shown() is None,
            old(self).messages_view().waiting().len() > 0 ==> final(self).messages_view().shown()
                == Some(old(self).messages_view().waiting().last()) && final(self).messages_view().waiting()
                == old(self).messages_view().waiting().drop_last(),
    {
        self.message_row.clear_message();
    }

    /// The status messages.
    pub fn messages(&self) -> (r: &StatusMessageQueue)
        ensures
            *r == self.messages_view(),
    {
        &self.message_row
    }
}

} // verus!
