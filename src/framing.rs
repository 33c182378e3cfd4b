//! Frame reassembly: cuts a byte stream, arriving in chunks of any size, into lines.
//!
//! Lines are cut on bytes. In UTF-8 the line feed byte never occurs inside the encoding of
//! another character, so a character split across chunks simply waits among the pending
//! bytes until the rest of its line arrives; the text of a line is read when it is decoded.
use vstd::prelude::*;

verus! {

/// The line feed byte that ends every line.
pub const LINE_FEED: u8 = 10;

/// The lines emitted so far and the bytes of the line not yet ended.
pub type Scan = (Seq<Seq<u8>>, Seq<u8>);

/// One byte more: a line feed ends the pending line, any other byte extends it.
pub open spec fn scan_byte(s: Scan, b: u8) -> Scan {
    if b == LINE_FEED {
        (s.0.push(s.1), Seq::empty())
    } else {
        (s.0, s.1.push(b))
    }
}

/// The bytes, one after another.
pub open spec fn scan(s: Scan, bytes: Seq<u8>) -> Scan
    decreases bytes.len(),
{
    if bytes.len() == 0 {
        s
    } else {
        scan_byte(scan(s, bytes.drop_last()), bytes.last())
    }
}

/// What ending the stream adds: the pending bytes as a last line, unless there are none.
pub open spec fn end_lines(pending: Seq<u8>) -> Seq<Seq<u8>> {
    if pending.len() > 0 {
        seq![pending]
    } else {
        Seq::empty()
    }
}

/// The lines and the pending bytes after each chunk is fed in turn, starting from `pending`.
pub open spec fn feed_chunks(pending: Seq<u8>, chunks: Seq<Seq<u8>>) -> Scan
    decreases chunks.len(),
{
    if chunks.len() == 0 {
        (Seq::empty(), pending)
    } else {
        let before = feed_chunks(pending, chunks.drop_last());
        let last = scan((Seq::empty(), before.1), chunks.last());
        (before.0 + last.0, last.1)
    }
}

/// Every line of a stream fed as the given chunks and then ended.
pub open spec fn stream_lines(chunks: Seq<Seq<u8>>) -> Seq<Seq<u8>> {
    let fed = feed_chunks(Seq::empty(), chunks);
    fed.0 + end_lines(fed.1)
}

pub proof fn lemma_scan_concat(s: Scan, a: Seq<u8>, b: Seq<u8>)
    ensures
        scan(s, a + b) == scan(scan(s, a), b),
    decreases b.len(),
{
    if b.len() == 0 {
        assert(a + b =~= a);
    } else {
        assert((a + b).drop_last() =~= a + b.drop_last());
        assert((a + b).last() == b.last());
        lemma_scan_concat(s, a, b.drop_last());
    }
}

/// Lines already emitted are kept in front of what later bytes emit.
pub proof fn lemma_scan_keeps_lines(lines: Seq<Seq<u8>>, pending: Seq<u8>, b: Seq<u8>)
    ensures
        scan((lines, pending), b).0 == lines + scan((Seq::empty(), pending), b).0,
        scan((lines, pending), b).1 == scan((Seq::empty(), pending), b).1,
    decreases b.len(),
{
    if b.len() == 0 {
        assert(lines + Seq::<Seq<u8>>::empty() =~= lines);
    } else {
        lemma_scan_keeps_lines(lines, pending, b.drop_last());
        let e = scan((Seq::empty(), pending), b.drop_last());
        if b.last() == LINE_FEED {
            assert((lines + e.0).push(e.1) =~= lines + e.0.push(e.1));
        }
    }
}

pub proof fn lemma_feed_is_scan(pending: Seq<u8>, chunks: Seq<Seq<u8>>)
    ensures
        feed_chunks(pending, chunks) == scan((Seq::empty(), pending), chunks.flatten()),
    decreases chunks.len(),
{
    if chunks.len() == 0 {
    } else {
        let init = chunks.drop_last();
        lemma_feed_is_scan(pending, init);
        vstd::seq_lib::lemma_flatten_concat(init, seq![chunks.last()]);
        assert(init + seq![chunks.last()] =~= chunks);
        seq![chunks.last()].lemma_flatten_one_element();
        let before = scan((Seq::empty(), pending), init.flatten());
        lemma_scan_concat((Seq::empty(), pending), init.flatten(), chunks.last());
        lemma_scan_keeps_lines(before.0, before.1, chunks.last());
    }
}

/// However a byte stream is cut into chunks, the reassembler yields the same lines as when
/// the whole stream arrives in one chunk.
pub proof fn lemma_chunk_split_invariance(chunks: Seq<Seq<u8>>)
    ensures
        stream_lines(chunks) == stream_lines(seq![chunks.flatten()]),
{
    lemma_feed_is_scan(Seq::empty(), chunks);
    lemma_feed_is_scan(Seq::empty(), seq![chunks.flatten()]);
    seq![chunks.flatten()].lemma_flatten_one_element();
}

/// Holds the bytes of the line that has not ended yet.
#[derive(Debug)]
pub struct FrameReassembler {
    buffer: Vec<u8>,
}

impl View for FrameReassembler {
    type V = Seq<u8>;

    /// The pending bytes.
    closed spec fn view(&self) -> Seq<u8> {
        self.buffer@
    }
}

impl FrameReassembler {
    /// A reassembler with nothing pending.
    pub fn new() -> (r: FrameReassembler)
        ensures
            r@ == Seq::<u8>::empty(),
    {
        FrameReassembler { buffer: Vec::new() }
    }

    /// Appends a chunk and returns every line it completes, without their line feeds; the
    /// bytes after the last line feed stay pending.
    pub fn push_chunk(&mut self, chunk: &[u8]) -> (lines: Vec<Vec<u8>>)
        ensures
            (lines.deep_view(), final(self)@) == scan((Seq::empty(), old(self)@), chunk@),
    {
        let mut lines: Vec<Vec<u8>> = Vec::new();
        let mut i: usize = 0;
        assert(chunk@.subrange(0, 0) =~= Seq::<u8>::empty());
        while i < chunk.len()
            invariant
                i <= chunk@.len(),
                (lines.deep_view(), self.buffer@) == scan(
                    (Seq::empty(), old(self)@),
                    chunk@.subrange(0, i as int),
                ),
            decreases chunk@.len() - i,
        {
            let b = chunk[i];
            let ghost before = (lines.deep_view(), self.buffer@);
            if b == LINE_FEED {
                let mut line: Vec<u8> = Vec::new();
                std::mem::swap(&mut line, &mut self.buffer);
                assert(line.deep_view() =~= line@);
                let ghost old_lines = lines;
                lines.push(line);
                assert(lines.deep_view() =~= old_lines.deep_view().push(line.deep_view()));
            } else {
                self.buffer.push(b);
            }
            assert(chunk@.subrange(0, i + 1).drop_last() =~= chunk@.subrange(0, i as int));
            i += 1;
        }
        assert(chunk@.subrange(0, i as int) =~= chunk@);
        lines
    }

    /// Ends the stream: the pending bytes as a last line, unless there are none.
    pub fn finish(&mut self) -> (last: Option<Vec<u8>>)
        ensures
            final(self)@ == Seq::<u8>::empty(),
            match last {
                Some(l) => old(self)@.len() > 0 && l@ == old(self)@,
                None => old(self)@.len() == 0,
            },
    {
        let mut line: Vec<u8> = Vec::new();
        std::mem::swap(&mut line, &mut self.buffer);
        if line.len() > 0 {
            Some(line)
        } else {
            None
        }
    }

    /// Whether bytes of an unfinished line are pending.
    pub fn has_pending(&self) -> (r: bool)
        ensures
            r == (self@.len() > 0),
    {
        self.buffer.len() > 0
    }
}

} // verus!
