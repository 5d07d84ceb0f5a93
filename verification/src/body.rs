//! Message payloads as a finite sequence of byte chunks that is read once.

use std::collections::VecDeque;
use vstd::prelude::*;

verus! {

/// A request or response payload: the chunks that have not been read yet.
///
/// Reading a chunk removes it for good. There is no way to seek or to read a
/// chunk twice.
#[derive(Debug)]
pub struct Body {
    chunks: VecDeque<Vec<u8>>,
}

impl View for Body {
    type V = Seq<Seq<u8>>;

    /// The unread chunks, first to last.
    closed spec fn view(&self) -> Seq<Seq<u8>> {
        self.chunks@.map_values(|c: Vec<u8>| c@)
    }
}

/// What is left to read after the first chunk has been taken.
pub open spec fn after_first(chunks: Seq<Seq<u8>>) -> Seq<Seq<u8>> {
    chunks.subrange(1, chunks.len() as int)
}

impl Body {
    /// A body without any chunk.
    pub fn empty() -> (body: Body)
        ensures
            body@ == Seq::<Seq<u8>>::empty(),
    {
        let body = Body { chunks: VecDeque::new() };
        assert(body@ =~= Seq::<Seq<u8>>::empty());
        body
    }

    /// A body that holds `data` as its only chunk.
    pub fn from_bytes(data: Vec<u8>) -> (body: Body)
        ensures
            body@ == seq![data@],
    {
        let mut chunks: VecDeque<Vec<u8>> = VecDeque::new();
        chunks.push_back(data);
        let body = Body { chunks };
        assert(body@ =~= seq![data@]);
        body
    }

    /// Adds a chunk behind the ones that are still unread.
    pub fn push_chunk(&mut self, chunk: Vec<u8>)
        ensures
            final(self)@ == old(self)@.push(chunk@),
    {
        self.chunks.push_back(chunk);
        assert(self@ =~= old(self)@.push(chunk@));
    }

    /// Whether every chunk has been read.
    pub fn is_end(&self) -> (end: bool)
        ensures
            end == (self@.len() == 0),
    {
        self.chunks.len() == 0
    }

    /// Takes the next unread chunk, or `None` at the end of the body.
    pub fn next_chunk(&mut self) -> (chunk: Option<Vec<u8>>)
        ensures
            match chunk {
                Some(c) => old(self)@.len() > 0 && c@ == old(self)@[0] && final(self)@
                    == after_first(old(self)@),
                None => old(self)@.len() == 0 && final(self)@ == old(self)@,
            },
    {
        let chunk = self.chunks.pop_front();
        assert(chunk is Some ==> self@ =~= after_first(old(self)@));
        chunk
    }

    /// Reads every unread chunk and joins them in order. The body is at its
    /// end afterwards.
    pub fn collect(&mut self) -> (data: Vec<u8>)
        ensures
            data@ == old(self)@.flatten(),
            final(self)@.len() == 0,
    {
        let mut data: Vec<u8> = Vec::new();
        loop
            invariant
                data@ + self@.flatten() == old(self)@.flatten(),
            ensures
                self@.len() == 0,
            decreases self@.len(),
        {
            let ghost before = self@;
            match self.chunks.pop_front() {
                Some(mut c) => {
                    proof {
                        assert(self@ =~= before.drop_first());
                        assert(before.flatten() == before.first() + before.drop_first().flatten());
                        assert((data@ + c@) + self@.flatten() =~= data@ + (c@ + self@.flatten()));
                    }
                    data.append(&mut c);
                },
                None => {
                    break ;
                },
            }
        }
        assert(self@.flatten() =~= Seq::<u8>::empty());
        assert(data@ + Seq::<u8>::empty() =~= data@);
        data
    }
}

} // verus!
