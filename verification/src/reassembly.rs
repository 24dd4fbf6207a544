//! Byte-to-line reassembly.
//!
//! The reassembler consumes chunks of raw bytes exactly as they come off the
//! device and produces complete, terminator-ended lines. Any trailing
//! incomplete fragment is retained for the next chunk. Line extraction is
//! gated on the whole buffer being valid UTF-8: a chunk boundary may split a
//! multi-byte character, and such a buffer is held back, never dropped,
//! until the character completes.

use crate::encoding::{lemma_valid_utf8_after_nl, nl, utf8_ok};
use vstd::prelude::*;
use vstd::utf8::valid_utf8;

verus! {

/// The lines extracted from `cur + s`, where `cur` is the fragment pending
/// from earlier bytes. Each line ends with the terminator and contains it
/// nowhere else.
pub open spec fn lines_from(s: Seq<u8>, cur: Seq<u8>) -> Seq<Seq<u8>>
    decreases s.len(),
{
    if s.len() == 0 {
        Seq::empty()
    } else if s[0] == nl() {
        seq![cur.push(nl())] + lines_from(s.skip(1), Seq::empty())
    } else {
        lines_from(s.skip(1), cur.push(s[0]))
    }
}

/// The fragment of `cur + s` left after the last terminator.
pub open spec fn pending_from(s: Seq<u8>, cur: Seq<u8>) -> Seq<u8>
    decreases s.len(),
{
    if s.len() == 0 {
        cur
    } else if s[0] == nl() {
        pending_from(s.skip(1), Seq::empty())
    } else {
        pending_from(s.skip(1), cur.push(s[0]))
    }
}

/// All complete lines of a byte sequence, in order.
pub open spec fn complete_lines(s: Seq<u8>) -> Seq<Seq<u8>> {
    lines_from(s, Seq::empty())
}

/// The unterminated tail of a byte sequence.
pub open spec fn pending_tail(s: Seq<u8>) -> Seq<u8> {
    pending_from(s, Seq::empty())
}

/// Extraction distributes over concatenation: the lines of `cur + s + t` are
/// the lines found in `cur + s` followed by the lines of `t` prefixed by
/// whatever `cur + s` left pending.
pub proof fn lemma_lines_split(s: Seq<u8>, t: Seq<u8>, cur: Seq<u8>)
    ensures
        lines_from(s + t, cur) == lines_from(s, cur) + lines_from(t, pending_from(s, cur)),
        pending_from(s + t, cur) == pending_from(t, pending_from(s, cur)),
    decreases s.len(),
{
    if s.len() == 0 {
        assert(s + t =~= t);
        assert(lines_from(s, cur) + lines_from(t, cur) =~= lines_from(t, cur));
    } else {
        assert((s + t).skip(1) =~= s.skip(1) + t);
        assert((s + t)[0] == s[0]);
        if s[0] == nl() {
            lemma_lines_split(s.skip(1), t, Seq::empty());
            let mid = lines_from(s.skip(1), Seq::empty());
            let end = lines_from(t, pending_from(s.skip(1), Seq::empty()));
            assert(seq![cur.push(nl())] + (mid + end) =~= (seq![cur.push(nl())] + mid) + end);
        } else {
            lemma_lines_split(s.skip(1), t, cur.push(s[0]));
        }
    }
}

/// A terminator-free byte sequence yields no lines and goes whole into the
/// pending fragment.
pub proof fn lemma_no_nl(s: Seq<u8>, cur: Seq<u8>)
    requires
        forall|i: int| 0 <= i < s.len() ==> s[i] != nl(),
    ensures
        lines_from(s, cur) == Seq::<Seq<u8>>::empty(),
        pending_from(s, cur) == cur + s,
    decreases s.len(),
{
    if s.len() == 0 {
        assert(cur + s =~= cur);
    } else {
        lemma_no_nl(s.skip(1), cur.push(s[0]));
        assert(cur.push(s[0]) + s.skip(1) =~= cur + s);
    }
}

/// The pending fragment never contains a terminator.
pub proof fn lemma_pending_free_of_nl(s: Seq<u8>, cur: Seq<u8>)
    requires
        forall|i: int| 0 <= i < cur.len() ==> cur[i] != nl(),
    ensures
        forall|i: int|
            0 <= i < pending_from(s, cur).len() ==> pending_from(s, cur)[i] != nl(),
    decreases s.len(),
{
    if s.len() == 0 {
    } else if s[0] == nl() {
        lemma_pending_free_of_nl(s.skip(1), Seq::empty());
        assert(pending_from(s, cur) == pending_from(s.skip(1), Seq::empty()));
    } else {
        let cur2 = cur.push(s[0]);
        assert(forall|i: int| 0 <= i < cur2.len() ==> cur2[i] != nl());
        lemma_pending_free_of_nl(s.skip(1), cur2);
        assert(pending_from(s, cur) == pending_from(s.skip(1), cur2));
    }
}

/// The pending fragment only depends on what follows a terminator.
proof fn lemma_pending_after_nl(s: Seq<u8>, cur: Seq<u8>, i: int)
    requires
        0 <= i < s.len(),
        s[i] == nl(),
    ensures
        pending_from(s, cur) == pending_from(s.skip(i + 1), Seq::empty()),
    decreases i,
{
    if i == 0 {
    } else {
        if s[0] == nl() {
            lemma_pending_after_nl(s.skip(1), Seq::empty(), i - 1);
        } else {
            lemma_pending_after_nl(s.skip(1), cur.push(s[0]), i - 1);
        }
        assert(s.skip(1).skip(i) =~= s.skip(i + 1));
    }
}

/// If `s + t` is valid UTF-8, so is the pending tail of `s` followed by `t`:
/// the pending tail begins right after a terminator byte, which is always a
/// character boundary.
pub proof fn lemma_pending_tail_valid(s: Seq<u8>, t: Seq<u8>)
    requires
        valid_utf8(s + t),
    ensures
        valid_utf8(pending_tail(s) + t),
    decreases s.len(),
{
    if exists|i: int| 0 <= i < s.len() && s[i] == nl() {
        let i = choose|i: int| 0 <= i < s.len() && s[i] == nl();
        lemma_pending_after_nl(s, Seq::empty(), i);
        assert((s + t)[i] == nl());
        lemma_valid_utf8_after_nl(s + t, i);
        assert((s + t).subrange(i + 1, (s + t).len() as int) =~= s.skip(i + 1) + t);
        lemma_pending_tail_valid(s.skip(i + 1), t);
        assert(pending_tail(s) == pending_tail(s.skip(i + 1)));
    } else {
        lemma_no_nl(s, Seq::empty());
        assert(pending_tail(s) + t =~= s + t);
    }
}

/// The lines one feed produces: all complete lines of buffer plus chunk when
/// that concatenation decodes, none otherwise.
pub open spec fn feed_lines(buf: Seq<u8>, chunk: Seq<u8>) -> Seq<Seq<u8>> {
    if valid_utf8(buf + chunk) {
        complete_lines(buf + chunk)
    } else {
        Seq::empty()
    }
}

/// The buffer one feed leaves behind: the unterminated tail when the
/// concatenation decodes, everything otherwise.
pub open spec fn feed_buffer(buf: Seq<u8>, chunk: Seq<u8>) -> Seq<u8> {
    if valid_utf8(buf + chunk) {
        pending_tail(buf + chunk)
    } else {
        buf + chunk
    }
}

/// A well-formed line: nonempty, ended by the terminator, holding the
/// terminator nowhere else.
pub open spec fn wf_line(l: Seq<u8>) -> bool {
    &&& l.len() > 0
    &&& l[l.len() - 1] == nl()
    &&& forall|i: int| 0 <= i < l.len() - 1 ==> l[i] != nl()
}

/// Every extracted line is well-formed, provided the pending fragment fed
/// in holds no terminator, as the reassembler guarantees of its own buffer.
pub proof fn lemma_lines_well_formed(s: Seq<u8>, cur: Seq<u8>)
    requires
        forall|i: int| 0 <= i < cur.len() ==> cur[i] != nl(),
    ensures
        forall|k: int|
            0 <= k < lines_from(s, cur).len() ==> #[trigger] wf_line(lines_from(s, cur)[k]),
    decreases s.len(),
{
    if s.len() == 0 {
    } else if s[0] == nl() {
        lemma_lines_well_formed(s.skip(1), Seq::empty());
        let first = cur.push(nl());
        assert(wf_line(first));
        assert forall|k: int| 0 <= k < lines_from(s, cur).len() implies #[trigger] wf_line(
            lines_from(s, cur)[k],
        ) by {
            if k == 0 {
                assert(lines_from(s, cur)[0] == first);
            } else {
                assert(lines_from(s, cur)[k] == lines_from(s.skip(1), Seq::empty())[k - 1]);
            }
        }
    } else {
        let cur2 = cur.push(s[0]);
        assert(forall|i: int| 0 <= i < cur2.len() ==> cur2[i] != nl());
        lemma_lines_well_formed(s.skip(1), cur2);
        assert(lines_from(s, cur) == lines_from(s.skip(1), cur2));
    }
}

/// Nothing is lost in extraction: the emitted lines, in order, followed by
/// the pending fragment, are exactly the bytes that went in.
proof fn lemma_conservation(s: Seq<u8>, cur: Seq<u8>)
    ensures
        lines_from(s, cur).flatten() + pending_from(s, cur) == cur + s,
    decreases s.len(),
{
    if s.len() == 0 {
        assert(lines_from(s, cur).flatten() =~= Seq::<u8>::empty());
        assert(Seq::<u8>::empty() + cur =~= cur);
        assert(cur + s =~= cur);
    } else if s[0] == nl() {
        lemma_conservation(s.skip(1), Seq::empty());
        let first = cur.push(nl());
        let rest = lines_from(s.skip(1), Seq::empty());
        assert((seq![first] + rest).drop_first() =~= rest);
        assert((seq![first] + rest).flatten() == first + rest.flatten());
        assert(Seq::<u8>::empty() + s.skip(1) =~= s.skip(1));
        assert((first + rest.flatten()) + pending_from(s.skip(1), Seq::empty()) =~= first + (
        rest.flatten() + pending_from(s.skip(1), Seq::empty())));
        assert(first + s.skip(1) =~= cur + s);
    } else {
        lemma_conservation(s.skip(1), cur.push(s[0]));
        assert(cur.push(s[0]) + s.skip(1) =~= cur + s);
    }
}

/// No byte is ever silently dropped by a feed, whether or not the buffer
/// decodes: the lines that come out, in order, followed by the buffer that
/// remains, are exactly the buffer that was held plus the chunk that came
/// in.
pub proof fn lemma_feed_conserves_bytes(buf: Seq<u8>, chunk: Seq<u8>)
    ensures
        feed_lines(buf, chunk).flatten() + feed_buffer(buf, chunk) == buf + chunk,
{
    if valid_utf8(buf + chunk) {
        lemma_conservation(buf + chunk, Seq::empty());
        assert(Seq::<u8>::empty() + (buf + chunk) =~= buf + chunk);
    } else {
        assert(feed_lines(buf, chunk).flatten() =~= Seq::<u8>::empty());
        assert(Seq::<u8>::empty() + (buf + chunk) =~= buf + chunk);
    }
}

/// All lines emitted when the chunks are fed one after another into a
/// reassembler whose buffer starts as `buf`.
pub open spec fn run_lines(buf: Seq<u8>, chunks: Seq<Seq<u8>>) -> Seq<Seq<u8>>
    decreases chunks.len(),
{
    if chunks.len() == 0 {
        Seq::empty()
    } else {
        feed_lines(buf, chunks[0]) + run_lines(feed_buffer(buf, chunks[0]), chunks.skip(1))
    }
}

/// The buffer left when the chunks have all been fed, starting from `buf`.
pub open spec fn run_buffer(buf: Seq<u8>, chunks: Seq<Seq<u8>>) -> Seq<u8>
    decreases chunks.len(),
{
    if chunks.len() == 0 {
        buf
    } else {
        run_buffer(feed_buffer(buf, chunks[0]), chunks.skip(1))
    }
}

/// Feeding any chunking of a valid UTF-8 input emits exactly the complete
/// lines of the whole input, in order, and leaves exactly its unterminated
/// tail buffered. The starting buffer must be in a state the reassembler
/// itself produces: if it decodes, it holds no terminator.
pub proof fn lemma_run_complete(buf: Seq<u8>, chunks: Seq<Seq<u8>>)
    requires
        valid_utf8(buf + chunks.flatten()),
        valid_utf8(buf) ==> forall|i: int| 0 <= i < buf.len() ==> buf[i] != nl(),
    ensures
        run_lines(buf, chunks) == complete_lines(buf + chunks.flatten()),
        run_buffer(buf, chunks) == pending_tail(buf + chunks.flatten()),
    decreases chunks.len(),
{
    if chunks.len() == 0 {
        assert(chunks.flatten() =~= Seq::<u8>::empty());
        assert(buf + chunks.flatten() =~= buf);
        lemma_no_nl(buf, Seq::empty());
        assert(Seq::<u8>::empty() + buf =~= buf);
    } else {
        let c0 = chunks[0];
        let rest = chunks.skip(1);
        let rf = rest.flatten();
        assert(chunks.first() == c0 && chunks.drop_first() =~= rest);
        assert(chunks.flatten() == c0 + rf);
        let nb = buf + c0;
        let total = buf + chunks.flatten();
        assert(total =~= nb + rf);
        if valid_utf8(nb) {
            let pt = pending_tail(nb);
            lemma_pending_tail_valid(nb, rf);
            lemma_pending_free_of_nl(nb, Seq::empty());
            lemma_run_complete(pt, rest);
            // lines of the whole input, split at the first chunk boundary
            lemma_lines_split(nb, rf, Seq::empty());
            // lines of the recursive run, split the same way
            lemma_lines_split(pt, rf, Seq::empty());
            lemma_no_nl(pt, Seq::empty());
            assert(Seq::<u8>::empty() + pt =~= pt);
            assert(complete_lines(pt + rf) =~= lines_from(rf, pt));
            assert(complete_lines(total) == complete_lines(nb + rf));
            assert(complete_lines(nb + rf) == complete_lines(nb) + lines_from(rf, pt));
            assert(run_lines(buf, chunks) == complete_lines(nb) + run_lines(pt, rest));
            assert(pending_tail(total) == pending_from(rf, pt));
            assert(pending_tail(pt + rf) == pending_from(rf, pt));
        } else {
            lemma_run_complete(nb, rest);
            assert(run_lines(buf, chunks) =~~= run_lines(nb, rest));
        }
    }
}

/// Chunk-boundary invariance: two arbitrary chunkings of the same valid
/// UTF-8 input, fed from an empty buffer, emit the same ordered sequence of
/// lines and leave the same buffer behind.
pub proof fn lemma_chunk_boundary_invariance(a: Seq<Seq<u8>>, b: Seq<Seq<u8>>)
    requires
        a.flatten() == b.flatten(),
        valid_utf8(a.flatten()),
    ensures
        run_lines(Seq::empty(), a) == run_lines(Seq::empty(), b),
        run_buffer(Seq::empty(), a) == run_buffer(Seq::empty(), b),
{
    assert(Seq::empty() + a.flatten() =~= a.flatten());
    assert(Seq::empty() + b.flatten() =~= b.flatten());
    lemma_run_complete(Seq::empty(), a);
    lemma_run_complete(Seq::empty(), b);
}

/// Stateful byte-to-line reassembler.
pub struct LineReassembler {
    buffer: Vec<u8>,
}

impl View for LineReassembler {
    type V = Seq<u8>;

    closed spec fn view(&self) -> Seq<u8> {
        self.buffer@
    }
}

impl LineReassembler {
    /// A reassembler with an empty buffer.
    pub fn new() -> (r: Self)
        ensures
            r@ == Seq::<u8>::empty(),
    {
        LineReassembler { buffer: Vec::new() }
    }

    /// Discard any buffered fragment. Called when a new device session
    /// begins: undelivered partial data from the previous session is
    /// unrecoverable.
    pub fn reset(&mut self)
        ensures
            final(self)@ == Seq::<u8>::empty(),
    {
        self.buffer.clear();
    }

    /// Consume one chunk of newly read bytes and return every complete line
    /// now available, each ending in the terminator. No byte is ever
    /// dropped: what is not returned stays buffered.
    pub fn feed(&mut self, chunk: &[u8]) -> (lines: Vec<Vec<u8>>)
        ensures
            lines.deep_view() == feed_lines(old(self)@, chunk@),
            final(self)@ == feed_buffer(old(self)@, chunk@),
    {
        self.buffer.extend_from_slice(chunk);
        let ghost nb = self.buffer@;
        assert(nb == old(self)@ + chunk@);
        if !utf8_ok(&self.buffer) {
            return Vec::new();
        }
        let n = self.buffer.len();
        let mut out: Vec<Vec<u8>> = Vec::new();
        let mut cur: Vec<u8> = Vec::new();
        let mut i: usize = 0;
        proof {
            assert(nb.skip(0) =~= nb);
            assert(out.deep_view() =~~= Seq::<Seq<u8>>::empty());
            assert(Seq::<Seq<u8>>::empty() + lines_from(nb, Seq::empty()) =~= lines_from(
                nb,
                Seq::empty(),
            ));
        }
        while i < n
            invariant
                n == nb.len(),
                self.buffer@ == nb,
                i <= n,
                out.deep_view() + lines_from(nb.skip(i as int), cur@) == complete_lines(nb),
                pending_from(nb.skip(i as int), cur@) == pending_tail(nb),
            decreases n - i,
        {
            let byte = self.buffer[i];
            let ghost s = nb.skip(i as int);
            assert(s[0] == byte);
            assert(s.skip(1) =~= nb.skip(i + 1));
            let ghost old_out = out.deep_view();
            let ghost old_cur = cur@;
            cur.push(byte);
            if byte == 0x0a {
                out.push(cur);
                cur = Vec::new();
                proof {
                    assert(out.deep_view() =~~= old_out.push(old_cur.push(nl())));
                    assert(lines_from(s, old_cur) == seq![old_cur.push(nl())] + lines_from(
                        s.skip(1),
                        Seq::empty(),
                    ));
                    assert(old_out.push(old_cur.push(nl())) + lines_from(s.skip(1), Seq::empty())
                        =~= old_out + (seq![old_cur.push(nl())] + lines_from(
                        s.skip(1),
                        Seq::empty(),
                    )));
                }
            }
            i = i + 1;
        }
        assert(nb.skip(n as int) =~= Seq::<u8>::empty());
        assert(out.deep_view() + Seq::<Seq<u8>>::empty() =~= out.deep_view());
        self.buffer = cur;
        out
    }
}

} // verus!
