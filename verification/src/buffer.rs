//! A queue of messages, oldest first.

use vstd::prelude::*;

verus! {

/// The queue.
pub struct Buffer {
    data: Vec<Vec<u8>>,
}

/// The messages of a list of byte vectors.
pub open spec fn messages(data: Seq<Vec<u8>>) -> Seq<Seq<u8>> {
    Seq::new(data.len(), |i: int| data[i]@)
}

impl View for Buffer {
    type V = Seq<Seq<u8>>;

    closed spec fn view(&self) -> Seq<Seq<u8>> {
        messages(self.data@)
    }
}

impl Buffer {
    /// An empty queue.
    pub fn new() -> (buffer: Self)
        ensures
            buffer@ == Seq::<Seq<u8>>::empty(),
    {
        let buffer = Buffer { data: Vec::new() };
        assert(buffer@ =~= Seq::<Seq<u8>>::empty());
        buffer
    }

    pub fn is_empty(&self) -> (empty: bool)
        ensures
            empty == (self@.len() == 0),
    {
        self.data.len() == 0
    }

    /// The messages in the queue, oldest first.
    pub fn data(&self) -> (data: &Vec<Vec<u8>>)
        ensures
            messages(data@) == self@,
    {
        &self.data
    }

    /// The oldest message.
    pub fn latest(&self) -> (message: &Vec<u8>)
        requires
            self@.len() > 0,
        ensures
            message@ == self@[0],
    {
        &self.data[0]
    }

    /// Puts a message at the end of the queue.
    pub fn add(&mut self, data: Vec<u8>)
        ensures
            final(self)@ == old(self)@.push(data@),
    {
        self.data.push(data);
        assert(self@ =~= old(self)@.push(data@));
    }

    /// Drops the oldest message.
    pub fn clean(&mut self)
        requires
            old(self)@.len() > 0,
        ensures
            final(self)@ == old(self)@.drop_first(),
    {
        self.data.remove(0);
        assert(self@ =~= old(self)@.drop_first());
    }
}

} // verus!
