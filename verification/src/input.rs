//! The chunks that a parser reads, held in memory.
use crate::model::builder::Chunk;
use vstd::prelude::*;

verus! {

/// One chunk with its text.
#[derive(Debug, Clone, PartialEq, Eq)]
pub struct ChunkText {
    pub chunk: Chunk,
    pub text: String,
}

/// Mathematical value of a [`ChunkText`]: the path it came from, if known,
/// and its text.
pub struct ChunkTextView {
    pub path: Option<Seq<char>>,
    pub text: Seq<char>,
}

impl View for ChunkText {
    type V = ChunkTextView;

    open spec fn view(&self) -> ChunkTextView {
        ChunkTextView {
            path: match self.chunk.relative_file_path {
                Some(p) => Some(p@),
                None => None,
            },
            text: self.text@,
        }
    }
}

/// Chunks in the order in which the caller added them.
#[derive(Debug, Clone, PartialEq, Eq)]
pub struct ChunkBuffer {
    chunks: Vec<ChunkText>,
}

impl View for ChunkBuffer {
    type V = Seq<ChunkTextView>;

    closed spec fn view(&self) -> Seq<ChunkTextView> {
        Seq::new(self.chunks@.len(), |i: int| self.chunks@[i]@)
    }
}

impl ChunkBuffer {
    /// The buffer without chunks.
    pub fn new() -> (r: ChunkBuffer)
        ensures
            r@.len() == 0,
    {
        ChunkBuffer { chunks: Vec::new() }
    }

    /// The buffer that holds `text` as its one chunk, of unknown origin.
    pub fn single(text: &str) -> (r: ChunkBuffer)
        ensures
            r@ == seq![ChunkTextView { path: None, text: text@ }],
    {
        let mut chunks: Vec<ChunkText> = Vec::new();
        chunks.push(ChunkText { chunk: Chunk::new(), text: text.to_owned() });
        let r = ChunkBuffer { chunks };
        assert(r@ =~= seq![ChunkTextView { path: None, text: text@ }]);
        r
    }

    /// Adds a chunk behind those that are there.
    pub fn add_chunk(&mut self, chunk: Chunk, text: &str)
        ensures
            final(self)@ == old(self)@.push(
                ChunkTextView {
                    path: match chunk.relative_file_path {
                        Some(p) => Some(p@),
                        None => None,
                    },
                    text: text@,
                },
            ),
    {
        let item = ChunkText { chunk, text: text.to_owned() };
        self.chunks.push(item);
        assert(self@ =~= old(self)@.push(item@));
    }

    /// Number of chunks.
    pub fn len(&self) -> (r: usize)
        ensures
            r == self@.len(),
    {
        self.chunks.len()
    }

    /// The `i`-th chunk.
    pub fn get(&self, i: usize) -> (r: &ChunkText)
        requires
            i < self@.len(),
        ensures
            r@ == self@[i as int],
    {
        &self.chunks[i]
    }
}

} // verus!
