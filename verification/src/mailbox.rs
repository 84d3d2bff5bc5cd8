//! The per-process mailbox: a FIFO queue of literal messages with a movable
//! selection cursor.
//!
//! `Send` enqueues at the tail. `PeekMessage` copies the oldest unconsumed
//! message and advances the cursor without removing anything; `RemoveMessage`
//! removes the message the cursor last selected. A message is never lost
//! except by explicit removal.

use vstd::prelude::*;

use crate::bytecode::Literal;
use crate::term::lit_eq;

verus! {

pub struct Mailbox {
    pub messages: Vec<Literal>,
    pub cursor: usize,
}

impl Mailbox {
    /// The queue, oldest first.
    pub open spec fn msgs(self) -> Seq<Literal> {
        self.messages@
    }

    /// The position of the next unconsumed message; everything before it has
    /// been peeked and not yet removed.
    pub open spec fn cursor_at(self) -> nat {
        self.cursor as nat
    }

    pub open spec fn wf(self) -> bool {
        self.cursor <= self.messages.len()
    }

    pub fn new() -> (r: Mailbox)
        ensures
            r.msgs().len() == 0,
            r.cursor_at() == 0,
            r.wf(),
    {
        Mailbox { messages: Vec::new(), cursor: 0 }
    }

    pub fn len(&self) -> (n: usize)
        ensures
            n == self.msgs().len(),
    {
        self.messages.len()
    }

    /// Enqueues a message at the tail; nothing else moves.
    pub fn deliver(&mut self, m: Literal)
        requires
            old(self).wf(),
        ensures
            final(self).msgs() == old(self).msgs().push(m),
            final(self).cursor_at() == old(self).cursor_at(),
            final(self).wf(),
    {
        self.messages.push(m);
    }

    /// Copies the oldest unconsumed message and advances the cursor, without
    /// removing it; with every message consumed, returns nothing and moves
    /// nothing.
    pub fn peek(&mut self) -> (r: Option<Literal>)
        requires
            old(self).wf(),
        ensures
            final(self).wf(),
            final(self).msgs() == old(self).msgs(),
            old(self).cursor_at() < old(self).msgs().len() ==> {
                &&& r matches Some(m) && lit_eq(m, old(self).msgs()[old(self).cursor_at() as int])
                &&& final(self).cursor_at() == old(self).cursor_at() + 1
            },
            old(self).cursor_at() >= old(self).msgs().len() ==> r is None && *final(self)
                == *old(self),
    {
        if self.cursor < self.messages.len() {
            let m = self.messages[self.cursor].clone();
            self.cursor = self.cursor + 1;
            Some(m)
        } else {
            None
        }
    }

    /// Whether a message is currently selected, that is, whether a peek has
    /// consumed one that has not been removed.
    pub fn has_selection(&self) -> (r: bool)
        ensures
            r == (self.cursor_at() > 0),
    {
        self.cursor > 0
    }

    /// Removes the message the cursor last selected, compacting the queue.
    pub fn remove_selected(&mut self)
        requires
            old(self).wf(),
            old(self).cursor_at() > 0,
        ensures
            final(self).wf(),
            final(self).msgs() == old(self).msgs().remove(old(self).cursor_at() - 1),
            final(self).cursor_at() == old(self).cursor_at() - 1,
    {
        let i = self.cursor - 1;
        self.messages.remove(i);
        self.cursor = i;
    }

    /// Empties the mailbox, as process termination does.
    pub fn purge(&mut self)
        ensures
            final(self).msgs().len() == 0,
            final(self).cursor_at() == 0,
            final(self).wf(),
    {
        self.messages = Vec::new();
        self.cursor = 0;
    }
}

/// The sequence of literals observed by repeating `PeekMessage` then
/// `RemoveMessage` until the mailbox runs out, starting from cursor `c`.
pub open spec fn drained(msgs: Seq<Literal>, c: nat) -> Seq<Literal>
    recommends
        c <= msgs.len(),
    decreases msgs.len(),
    when c <= msgs.len()
{
    if c < msgs.len() {
        seq![msgs[c as int]] + drained(msgs.remove(c as int), c)
    } else {
        Seq::empty()
    }
}

/// First-in, first-out: draining a mailbox whose cursor is at the front
/// observes exactly the enqueued messages, in the order they were sent.
pub proof fn lemma_mailbox_fifo(msgs: Seq<Literal>)
    ensures
        drained(msgs, 0) == msgs,
{
    lemma_drained_is_rest(msgs, 0);
    assert(drained(msgs, 0) =~= msgs);
}

/// Draining observes exactly the unconsumed rest of the queue, in order.
pub proof fn lemma_drained_is_rest(msgs: Seq<Literal>, c: nat)
    requires
        c <= msgs.len(),
    ensures
        drained(msgs, c) == msgs.skip(c as int),
    decreases msgs.len(),
{
    if c < msgs.len() {
        lemma_drained_is_rest(msgs.remove(c as int), c);
        assert(msgs.remove(c as int).skip(c as int) =~= msgs.skip(c as int + 1));
        assert(seq![msgs[c as int]] + msgs.skip(c as int + 1) =~= msgs.skip(c as int));
    } else {
        assert(drained(msgs, c) =~= msgs.skip(c as int));
    }
}

} // verus!
