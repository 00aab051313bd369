//! A last-in-first-out message queue.
//!
//! Values are wrapped in a [`Message`] so that a dedicated `Unblock` entry can
//! be queued to wake a consumer without handing it a value; popping such an
//! entry yields `None` just as an empty queue does.

use vstd::prelude::*;

verus! {

/// An entry of the queue: either a value or a bare wake-up.
#[derive(Debug)]
pub enum Message<T> {
    /// Wakes a consumer without carrying a value.
    Unblock,
    /// Carries a queued value.
    Value(T),
}

/// A stack-ordered queue of messages: values are popped from the same end
/// they were pushed on.
#[derive(Debug)]
pub struct Queue<T> {
    queue: Vec<Message<T>>,
}

impl<T> View for Queue<T> {
    type V = Seq<Message<T>>;

    closed spec fn view(&self) -> Seq<Message<T>> {
        self.queue@
    }
}

impl<T> Queue<T> {
    /// Creates an empty queue.
    pub fn new() -> (r: Self)
        ensures
            r@ == Seq::<Message<T>>::empty(),
    {
        Queue { queue: Vec::new() }
    }

    /// Appends a value to the pending end of the queue.
    pub fn push(&mut self, value: T)
        ensures
            final(self)@ == old(self)@.push(Message::Value(value)),
    {
        self.queue.push(Message::Value(value));
    }

    /// Removes the most recently pushed entry. Yields the value it carried,
    /// or `None` if the queue was empty or the entry was a bare wake-up.
    pub fn pop(&mut self) -> (r: Option<T>)
        ensures
            old(self)@.len() == 0 ==> r is None && final(self)@ == old(self)@,
            old(self)@.len() > 0 ==> {
                &&& final(self)@ == old(self)@.drop_last()
                &&& (match old(self)@.last() {
                    Message::Value(v) => r == Some(v),
                    Message::Unblock => r is None,
                })
            },
    {
        match self.queue.pop() {
            Some(Message::Value(value)) => Some(value),
            Some(Message::Unblock) => None,
            None => None,
        }
    }
}

} // verus!
