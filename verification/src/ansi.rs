//! Filtering of terminal control sequences.
//!
//! The interactive console receives each line verbatim, so colour rendering
//! is preserved on screen; the persistent log receives a filtered variant
//! with ANSI escape sequences removed. A sequence is an escape byte followed
//! by `[`, then digits or semicolons, then a single final letter, `m` or
//! `K`. Anything that only looks like a sequence but does not finish as one
//! is kept verbatim.

use vstd::prelude::*;

verus! {

/// The escape byte that opens a control sequence.
pub open spec fn esc() -> u8 {
    0x1b
}

/// Digits and semicolons: the parameter bytes of a control sequence.
pub open spec fn is_param_byte(b: u8) -> bool {
    0x30 <= b <= 0x39 || b == 0x3b
}

/// `m` or `K`: the letters that end a control sequence.
pub open spec fn is_final_byte(b: u8) -> bool {
    b == 0x6d || b == 0x4b
}

/// Length of the run of parameter bytes at the head of `s`.
pub open spec fn param_run(s: Seq<u8>) -> int
    decreases s.len(),
{
    if s.len() > 0 && is_param_byte(s[0]) {
        1 + param_run(s.skip(1))
    } else {
        0
    }
}

/// Length of the control sequence starting at the head of `s`, or 0 when
/// none starts there.
pub open spec fn ansi_match_len(s: Seq<u8>) -> int {
    if s.len() >= 2 && s[0] == esc() && s[1] == 0x5b {
        let r = param_run(s.skip(2));
        if 2 + r < s.len() && is_final_byte(s[2 + r]) {
            r + 3
        } else {
            0
        }
    } else {
        0
    }
}

/// `s` with every control sequence removed: scan left to right, drop each
/// sequence whole, keep every other byte.
pub open spec fn stripped(s: Seq<u8>) -> Seq<u8>
    decreases s.len(),
{
    if s.len() == 0 {
        Seq::empty()
    } else {
        let k = ansi_match_len(s);
        if 0 < k <= s.len() {
            stripped(s.skip(k))
        } else {
            seq![s[0]] + stripped(s.skip(1))
        }
    }
}

/// A complete, well-formed control sequence and nothing else.
pub open spec fn is_ansi_escape(e: Seq<u8>) -> bool {
    &&& e.len() >= 3
    &&& e[0] == esc()
    &&& e[1] == 0x5b
    &&& is_final_byte(e[e.len() - 1])
    &&& forall|i: int| 2 <= i < e.len() - 1 ==> is_param_byte(e[i])
}

/// The head run of parameter bytes is exactly `q` when the first `q` bytes
/// are parameter bytes and the next one, if any, is not.
proof fn lemma_param_run_exact(s: Seq<u8>, q: int)
    requires
        0 <= q <= s.len(),
        forall|i: int| 0 <= i < q ==> is_param_byte(s[i]),
        q < s.len() ==> !is_param_byte(s[q]),
    ensures
        param_run(s) == q,
    decreases q,
{
    if q == 0 {
    } else {
        lemma_param_run_exact(s.skip(1), q - 1);
    }
}

/// Dropping one whole control sequence from the head: the stripped form of
/// `e + t` is the stripped form of `t`.
pub proof fn lemma_strip_escape_head(e: Seq<u8>, t: Seq<u8>)
    requires
        is_ansi_escape(e),
    ensures
        stripped(e + t) == stripped(t),
{
    let u = e + t;
    let q = e.len() - 3;
    assert forall|i: int| 0 <= i < q implies is_param_byte(u.skip(2)[i]) by {
        assert(u.skip(2)[i] == e[i + 2]);
    }
    assert(u.skip(2)[q] == e[e.len() - 1]);
    assert(!is_param_byte(u.skip(2)[q]));
    lemma_param_run_exact(u.skip(2), q);
    assert(u[2 + q] == e[e.len() - 1]);
    assert(ansi_match_len(u) == e.len());
    assert(u.skip(e.len() as int) =~= t);
}

/// Bytes free of the escape byte pass through the filter unchanged, whatever
/// follows them.
pub proof fn lemma_strip_plain_head(a: Seq<u8>, t: Seq<u8>)
    requires
        forall|i: int| 0 <= i < a.len() ==> a[i] != esc(),
    ensures
        stripped(a + t) == a + stripped(t),
    decreases a.len(),
{
    if a.len() == 0 {
        assert(a + t =~= t);
        assert(a + stripped(t) =~= stripped(t));
    } else {
        let u = a + t;
        assert(u[0] == a[0]);
        assert(ansi_match_len(u) == 0);
        assert(u.skip(1) =~= a.skip(1) + t);
        lemma_strip_plain_head(a.skip(1), t);
        assert(seq![a[0]] + (a.skip(1) + stripped(t)) =~= a + stripped(t));
    }
}

/// Bytes free of the escape byte are left untouched.
pub proof fn lemma_strip_plain(a: Seq<u8>)
    requires
        forall|i: int| 0 <= i < a.len() ==> a[i] != esc(),
    ensures
        stripped(a) == a,
{
    lemma_strip_plain_head(a, Seq::empty());
    assert(a + Seq::<u8>::empty() =~= a);
    assert(a + stripped(Seq::<u8>::empty()) =~= a);
}

/// Sink divergence: an embedded control sequence is removed from the
/// filtered form of a line, while the bytes around it are kept. The
/// interactive form is the line itself, untouched by construction.
pub proof fn lemma_strip_removes_escape(a: Seq<u8>, e: Seq<u8>, b: Seq<u8>)
    requires
        forall|i: int| 0 <= i < a.len() ==> a[i] != esc(),
        is_ansi_escape(e),
    ensures
        stripped(a + e + b) == a + stripped(b),
{
    lemma_strip_plain_head(a, e + b);
    lemma_strip_escape_head(e, b);
    assert(a + e + b =~= a + (e + b));
}

/// Remove every ANSI control sequence from one line.
pub fn strip_ansi(line: &[u8]) -> (out: Vec<u8>)
    ensures
        out@ == stripped(line@),
{
    let n = line.len();
    let mut out: Vec<u8> = Vec::new();
    let mut i: usize = 0;
    proof {
        assert(line@.skip(0) =~= line@);
        assert(out@ + stripped(line@) =~= stripped(line@));
    }
    while i < n
        invariant
            n == line@.len(),
            i <= n,
            out@ + stripped(line@.skip(i as int)) == stripped(line@),
        decreases n - i,
    {
        let ghost s = line@.skip(i as int);
        assert(s[0] == line@[i as int]);
        let mut matched = false;
        let mut next: usize = i + 1;
        if line[i] == 0x1b && i + 1 < n && line[i + 1] == 0x5b {
            let mut j = i + 2;
            proof {
                assert(s.skip(2) =~= line@.skip(i + 2));
            }
            while j < n && 0x30 <= line[j] && (line[j] <= 0x39 || line[j] == 0x3b)
                invariant
                    n == line@.len(),
                    i + 2 <= j <= n,
                    i + 1 < n,
                    param_run(line@.skip(i + 2)) == (j - (i + 2)) + param_run(
                        line@.skip(j as int),
                    ),
                    forall|k: int| i + 2 <= k < j ==> is_param_byte(line@[k]),
                decreases n - j,
            {
                proof {
                    assert(line@.skip(j as int)[0] == line@[j as int]);
                    assert(line@.skip(j as int).skip(1) =~= line@.skip(j + 1));
                }
                j = j + 1;
            }
            proof {
                if j < n {
                    assert(line@.skip(j as int)[0] == line@[j as int]);
                } else {
                    assert(line@.skip(j as int).len() == 0);
                }
                assert(param_run(line@.skip(j as int)) == 0);
                assert(param_run(s.skip(2)) == j - (i + 2));
            }
            if j < n && (line[j] == 0x6d || line[j] == 0x4b) {
                proof {
                    assert(s[2 + (j - (i + 2))] == line@[j as int]);
                    assert(ansi_match_len(s) == (j - (i + 2)) + 3);
                    assert(s.skip(j + 1 - i) =~= line@.skip(j + 1));
                    assert(stripped(s) == stripped(s.skip(j + 1 - i)));
                }
                matched = true;
                next = j + 1;
            }
        }
        if !matched {
            proof {
                assert(ansi_match_len(s) == 0);
                assert(s.skip(1) =~= line@.skip(i + 1));
                assert(stripped(s) == seq![s[0]] + stripped(line@.skip(i + 1)));
            }
            let ghost old_out = out@;
            out.push(line[i]);
            proof {
                assert(out@ =~= old_out + seq![s[0]]);
                assert((old_out + seq![s[0]]) + stripped(line@.skip(i + 1)) =~= old_out + (seq![
                    s[0],
                ] + stripped(line@.skip(i + 1))));
            }
        }
        i = next;
    }
    proof {
        assert(line@.skip(n as int) =~= Seq::<u8>::empty());
        assert(out@ + Seq::<u8>::empty() =~= out@);
    }
    out
}

} // verus!
