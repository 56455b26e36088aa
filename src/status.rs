//! The messages shown in the status bar, most important first.
use vstd::prelude::*;

verus! {

/// A message for the status bar. In order of importance, lowest first: an
/// `Info` goes away by itself; a `Warning` or an `Error` stays until it is
/// clicked. An `Error` also carries details.
#[derive(Debug, Clone, PartialEq, Eq)]
pub enum StatusMessage {
    Info(String),
    Warning(String),
    Error(String, String),
}

/// How important a message is: the higher, the sooner it is shown.
pub open spec fn rank(m: StatusMessage) -> nat {
    match m {
        StatusMessage::Info(_) => 0,
        StatusMessage::Warning(_) => 1,
        StatusMessage::Error(_, _) => 2,
    }
}

/// The text a message shows.
pub open spec fn text_of(m: StatusMessage) -> Seq<char> {
    match m {
        StatusMessage::Info(t) => t@,
        StatusMessage::Warning(t) => t@,
        StatusMessage::Error(t, _) => t@,
    }
}

/// Messages waiting, lowest rank first.
pub open spec fn ranks_ascending(q: Seq<StatusMessage>) -> bool {
    forall|i: int, j: int| 0 <= i < j < q.len() ==> rank(q[i]) <= rank(q[j])
}

/// `q2` is `q` with `m` put after every message of its rank or lower and
/// before every message of a higher rank.
pub open spec fn queued(q: Seq<StatusMessage>, m: StatusMessage, q2: Seq<StatusMessage>) -> bool {
    exists|k: int|
        0 <= k <= q.len() && q2 == q.insert(k, m) && (forall|j: int| 0 <= j < k ==> rank(#[trigger] q[j]) <= rank(m))
            && (forall|j: int| k <= j < q.len() ==> rank(#[trigger] q[j]) > rank(m))
}

/// `after` is `before` with `m` added: shown if nothing was, else queued.
pub open spec fn added(before: StatusMessageQueue, m: StatusMessage, after: StatusMessageQueue) -> bool {
    &&& before.shown() is None ==> after.shown() == Some(m) && after.waiting() == before.waiting()
    &&& before.shown() is Some ==> after.shown() == before.shown() && queued(before.waiting(), m, after.waiting())
}

fn rank_of(m: &StatusMessage) -> (r: u8)
    ensures
        r == rank(*m),
{
    match m {
        StatusMessage::Info(_) => 0,
        StatusMessage::Warning(_) => 1,
        StatusMessage::Error(_, _) => 2,
    }
}

impl StatusMessage {
    /// The text this message shows.
    pub fn text(&self) -> (r: String)
        ensures
            r@ == text_of(*self),
    {
        match self {
            StatusMessage::Error(msg, _) => msg.clone(),
            StatusMessage::Warning(msg) => msg.clone(),
            StatusMessage::Info(msg) => msg.clone(),
        }
    }
}

/// The message shown now and those waiting behind it.
pub struct StatusMessageQueue {
    queue: Vec<StatusMessage>,
    current_message: Option<StatusMessage>,
}

impl StatusMessageQueue {
    #[verifier::type_invariant]
    closed spec fn wf(&self) -> bool {
        ranks_ascending(self.queue@)
    }

    /// The messages waiting, the next one to show last.
    pub closed spec fn waiting(&self) -> Seq<StatusMessage> {
        self.queue@
    }

    /// The message shown now.
    pub closed spec fn shown(&self) -> Option<StatusMessage> {
        self.current_message
    }

    /// Nothing shown and nothing waiting.
    pub fn new() -> (r: StatusMessageQueue)
        ensures
            r.shown().is_none(),
            r.waiting() == Seq::<StatusMessage>::empty(),
    {
        StatusMessageQueue { queue: Vec::new(), current_message: None }
    }

    /// The message shown now.
    pub fn current_message(&self) -> (r: &Option<StatusMessage>)
        ensures
            *r == self.shown(),
    {
        &self.current_message
    }

    /// How many messages wait behind the one shown.
    pub fn queue_len(&self) -> (r: usize)
        ensures
            r == self.waiting().len(),
    {
        self.queue.len()
    }

    /// Shows `message` if nothing is shown; else it waits, behind every
    /// message of its importance or lower and ahead of every more important
    /// one.
    pub fn add_message(&mut self, message: StatusMessage)
        ensures
            added(*old(self), message, *final(self)),
            ranks_ascending(final(self).waiting()),
    {
        proof { use_type_invariant(&*self); }
        match self.current_message {
            None => {
                self.current_message = Some(message);
            },
            Some(_) => {
                let mut q: Vec<StatusMessage> = Vec::new();
                std::mem::swap(&mut q, &mut self.queue);
                let r = rank_of(&message);
                let mut k: usize = 0;
                while k < q.len() && rank_of(&q[k]) <= r
                    invariant
                        k <= q@.len(),
                        ranks_ascending(q@),
                        forall|j: int| 0 <= j < k ==> rank(#[trigger] q@[j]) <= r,
                    decreases q@.len() - k,
                {
                    k += 1;
                }
                let ghost q0 = q@;
                assert forall|j: int| k <= j < q0.len() implies rank(#[trigger] q0[j]) > r by {
                    assert(rank(q0[k as int]) > r);
                }
                q.insert(k, message);
                assert(q@ == q0.insert(k as int, message));
                assert(ranks_ascending(q@)) by {
                    assert forall|i: int, j: int| 0 <= i < j < q@.len() implies rank(q@[i]) <= rank(q@[j]) by {
                        if i < k && j > k {
                            assert(q@[i] == q0[i] && q@[j] == q0[j - 1]);
                        } else if i < k && j == k {
                            assert(q@[i] == q0[i]);
                        } else if i == k {
                            assert(q@[j] == q0[j - 1]);
                        } else if i < k {
                            assert(q@[i] == q0[i] && q@[j] == q0[j]);
                        } else {
                            assert(q@[i] == q0[i - 1] && q@[j] == q0[j - 1]);
                        }
                    }
                }
                self.queue = q;
            },
        }
    }

    /// Removes the message shown; the most important waiting message, the
    /// last one queued among equals, is shown next, if there is one.
    pub fn clear_message(&mut self)
        ensures
            old(self).waiting().len() == 0 ==> final(self).shown() is None && final(self).waiting() == old(self).waiting(),
            old(self).waiting().len() > 0 ==> final(self).shown() == Some(old(self).waiting().last())
                && final(self).waiting() == old(self).waiting().drop_last(),
    {
        proof { use_type_invariant(&*self); }
        if self.queue.len() == 0 {
            self.current_message = None;
        } else {
            let mut q: Vec<StatusMessage> = Vec::new();
            std::mem::swap(&mut q, &mut self.queue);
            let ghost q0 = q@;
            self.current_message = q.pop();
            assert(ranks_ascending(q@)) by {
                assert forall|i: int, j: int| 0 <= i < j < q@.len() implies rank(q@[i]) <= rank(q@[j]) by {
                    assert(q@[i] == q0[i] && q@[j] == q0[j]);
                }
            }
            self.queue = q;
        }
    }

    /// Whether the message shown is an `Info`.
    pub fn showing_info_message(&self) -> (r: bool)
        ensures
            r == (self.shown() matches Some(StatusMessage::Info(_))),
    {
        if let Some(StatusMessage::Info(_)) = self.current_message {
            true
        } else {
            false
        }
    }
}

impl Default for StatusMessageQueue {
    fn default() -> (r: StatusMessageQueue)
        ensures
            r.shown().is_none(),
            r.waiting() == Seq::<StatusMessage>::empty(),
    {
        StatusMessageQueue::new()
    }
}

} // verus!
