//! UTF-8 validity checking for the reassembly buffer.
//!
//! The reassembler only extracts lines from its buffer once the whole buffer
//! decodes as text, so it needs an executable validity check. The checker
//! here is verified against `vstd::utf8::valid_utf8`, the mathematical
//! definition of a well-formed UTF-8 byte sequence.

use vstd::prelude::*;
use vstd::utf8::*;

verus! {

/// The byte that terminates a line.
pub open spec fn nl() -> u8 {
    0x0a
}

proof fn lemma_width1_valid(t: Seq<u8>)
    requires
        t.len() >= 1,
        t[0] < 0x80,
    ensures
        valid_first_scalar(t),
        length_of_first_scalar(t) == 1,
{
    let b0 = t[0];
    assert((b0 & 0x7f) <= 0x7f) by (bit_vector);
}

proof fn lemma_width2_valid(t: Seq<u8>)
    requires
        t.len() >= 2,
        0xc2 <= t[0] <= 0xdf,
        0x80 <= t[1] <= 0xbf,
    ensures
        valid_first_scalar(t),
        length_of_first_scalar(t) == 2,
{
    let b0 = t[0];
    let b1 = t[1];
    assert(0xc2 <= b0 <= 0xdf && 0x80 <= b1 <= 0xbf ==> 0x80 <= ((((b0 & 0x1f) as u32) << 6) | ((
    b1 & 0x3f) as u32)) < 0x800) by (bit_vector);
}

proof fn lemma_width3_valid(t: Seq<u8>)
    requires
        t.len() >= 3,
        0x80 <= t[1] <= 0xbf,
        0x80 <= t[2] <= 0xbf,
        (t[0] == 0xe0 && 0xa0 <= t[1]) || (0xe1 <= t[0] <= 0xec) || (t[0] == 0xed && t[1] <= 0x9f)
            || (0xee <= t[0] <= 0xef),
    ensures
        valid_first_scalar(t),
        length_of_first_scalar(t) == 3,
{
    let b0 = t[0];
    let b1 = t[1];
    let b2 = t[2];
    assert((0x80 <= b1 <= 0xbf && 0x80 <= b2 <= 0xbf && ((b0 == 0xe0 && 0xa0 <= b1) || (0xe1 <= b0
        <= 0xec) || (b0 == 0xed && b1 <= 0x9f) || (0xee <= b0 <= 0xef))) ==> {
        let cp = ((((b0 & 0x0f) as u32) << 12) | (((b1 & 0x3f) as u32) << 6) | ((b2
            & 0x3f) as u32));
        0x800 <= cp < 0x10000 && !(0xd800 <= cp <= 0xdfff)
    }) by (bit_vector);
}

proof fn lemma_width4_valid(t: Seq<u8>)
    requires
        t.len() >= 4,
        0x80 <= t[1] <= 0xbf,
        0x80 <= t[2] <= 0xbf,
        0x80 <= t[3] <= 0xbf,
        (t[0] == 0xf0 && 0x90 <= t[1]) || (0xf1 <= t[0] <= 0xf3) || (t[0] == 0xf4 && t[1] <= 0x8f),
    ensures
        valid_first_scalar(t),
        length_of_first_scalar(t) == 4,
{
    let b0 = t[0];
    let b1 = t[1];
    let b2 = t[2];
    let b3 = t[3];
    assert((0x80 <= b1 <= 0xbf && 0x80 <= b2 <= 0xbf && 0x80 <= b3 <= 0xbf && ((b0 == 0xf0 && 0x90
        <= b1) || (0xf1 <= b0 <= 0xf3) || (b0 == 0xf4 && b1 <= 0x8f))) ==> {
        let cp = ((((b0 & 0x07) as u32) << 18) | (((b1 & 0x3f) as u32) << 12) | (((b2
            & 0x3f) as u32) << 6) | ((b3 & 0x3f) as u32));
        0x10000 <= cp <= 0x10ffff
    }) by (bit_vector);
}

proof fn lemma_invalid_head_byte(t: Seq<u8>)
    requires
        t.len() >= 1,
        0x80 <= t[0] <= 0xc1 || 0xf5 <= t[0],
    ensures
        !valid_first_scalar(t),
{
    let b0 = t[0];
    if 0xc0 <= b0 <= 0xc1 {
        if t.len() >= 2 && 0x80 <= t[1] <= 0xbf {
            let b1 = t[1];
            assert(0xc0 <= b0 <= 0xc1 ==> ((((b0 & 0x1f) as u32) << 6) | ((b1
                & 0x3f) as u32)) < 0x80) by (bit_vector);
        }
    } else if 0xf5 <= b0 <= 0xf7 {
        if t.len() >= 4 && 0x80 <= t[1] <= 0xbf && 0x80 <= t[2] <= 0xbf && 0x80 <= t[3] <= 0xbf {
            let b1 = t[1];
            let b2 = t[2];
            let b3 = t[3];
            assert(0xf5 <= b0 <= 0xf7 ==> ((((b0 & 0x07) as u32) << 18) | (((b1
                & 0x3f) as u32) << 12) | (((b2 & 0x3f) as u32) << 6) | ((b3
                & 0x3f) as u32)) > 0x10ffff) by (bit_vector);
        }
    }
}

proof fn lemma_invalid_second_byte_width3(t: Seq<u8>)
    requires
        t.len() >= 3,
        0xe0 <= t[0] <= 0xef,
        0x80 <= t[1] <= 0xbf,
        0x80 <= t[2] <= 0xbf,
        (t[0] == 0xe0 && t[1] < 0xa0) || (t[0] == 0xed && t[1] > 0x9f),
    ensures
        !valid_first_scalar(t),
{
    let b0 = t[0];
    let b1 = t[1];
    let b2 = t[2];
    assert((0x80 <= b1 <= 0xbf && 0x80 <= b2 <= 0xbf && ((b0 == 0xe0 && b1 < 0xa0) || (b0 == 0xed
        && b1 > 0x9f))) ==> {
        let cp = ((((b0 & 0x0f) as u32) << 12) | (((b1 & 0x3f) as u32) << 6) | ((b2
            & 0x3f) as u32));
        cp < 0x800 || (0xd800 <= cp <= 0xdfff)
    }) by (bit_vector);
}

proof fn lemma_invalid_second_byte_width4(t: Seq<u8>)
    requires
        t.len() >= 4,
        0xf0 <= t[0] <= 0xf4,
        0x80 <= t[1] <= 0xbf,
        0x80 <= t[2] <= 0xbf,
        0x80 <= t[3] <= 0xbf,
        (t[0] == 0xf0 && t[1] < 0x90) || (t[0] == 0xf4 && t[1] > 0x8f),
    ensures
        !valid_first_scalar(t),
{
    let b0 = t[0];
    let b1 = t[1];
    let b2 = t[2];
    let b3 = t[3];
    assert((0x80 <= b1 <= 0xbf && 0x80 <= b2 <= 0xbf && 0x80 <= b3 <= 0xbf && ((b0 == 0xf0 && b1
        < 0x90) || (b0 == 0xf4 && b1 > 0x8f))) ==> {
        let cp = ((((b0 & 0x07) as u32) << 18) | (((b1 & 0x3f) as u32) << 12) | (((b2
            & 0x3f) as u32) << 6) | ((b3 & 0x3f) as u32));
        cp < 0x10000 || cp > 0x10ffff
    }) by (bit_vector);
}

/// Check whether the bytes form a valid UTF-8 encoding.
pub fn utf8_ok(v: &Vec<u8>) -> (r: bool)
    ensures
        r == valid_utf8(v@),
{
    let n = v.len();
    let mut i: usize = 0;
    while i < n
        invariant
            0 <= i <= n,
            n == v@.len(),
            partial_valid_utf8(v@, i as int),
        decreases n - i,
    {
        let ghost t = v@.subrange(i as int, n as int);
        let b0 = v[i];
        assert(t[0] == b0);
        if b0 < 0x80 {
            proof {
                lemma_width1_valid(t);
                partial_valid_utf8_extend(v@, i as int);
            }
            i = i + 1;
        } else if b0 < 0xc2 {
            proof {
                lemma_invalid_head_byte(t);
                partial_valid_partial_invalid_utf8(v@, i as int);
            }
            return false;
        } else if b0 <= 0xdf {
            if i + 1 >= n {
                proof {
                    partial_valid_partial_invalid_utf8(v@, i as int);
                }
                return false;
            }
            let b1 = v[i + 1];
            assert(t[1] == b1);
            if 0x80 <= b1 && b1 <= 0xbf {
                proof {
                    lemma_width2_valid(t);
                    partial_valid_utf8_extend(v@, i as int);
                }
                i = i + 2;
            } else {
                proof {
                    partial_valid_partial_invalid_utf8(v@, i as int);
                }
                return false;
            }
        } else if b0 <= 0xef {
            if n - i < 3 {
                proof {
                    partial_valid_partial_invalid_utf8(v@, i as int);
                }
                return false;
            }
            let b1 = v[i + 1];
            let b2 = v[i + 2];
            assert(t[1] == b1 && t[2] == b2);
            let second_ok = if b0 == 0xe0 {
                0xa0 <= b1 && b1 <= 0xbf
            } else if b0 == 0xed {
                0x80 <= b1 && b1 <= 0x9f
            } else {
                0x80 <= b1 && b1 <= 0xbf
            };
            if second_ok && 0x80 <= b2 && b2 <= 0xbf {
                proof {
                    lemma_width3_valid(t);
                    partial_valid_utf8_extend(v@, i as int);
                }
                i = i + 3;
            } else {
                proof {
                    if 0x80 <= b1 <= 0xbf && 0x80 <= b2 <= 0xbf {
                        lemma_invalid_second_byte_width3(t);
                    }
                    partial_valid_partial_invalid_utf8(v@, i as int);
                }
                return false;
            }
        } else if b0 <= 0xf4 {
            if n - i < 4 {
                proof {
                    partial_valid_partial_invalid_utf8(v@, i as int);
                }
                return false;
            }
            let b1 = v[i + 1];
            let b2 = v[i + 2];
            let b3 = v[i + 3];
            assert(t[1] == b1 && t[2] == b2 && t[3] == b3);
            let second_ok = if b0 == 0xf0 {
                0x90 <= b1 && b1 <= 0xbf
            } else if b0 == 0xf4 {
                0x80 <= b1 && b1 <= 0x8f
            } else {
                0x80 <= b1 && b1 <= 0xbf
            };
            if second_ok && 0x80 <= b2 && b2 <= 0xbf && 0x80 <= b3 && b3 <= 0xbf {
                proof {
                    lemma_width4_valid(t);
                    partial_valid_utf8_extend(v@, i as int);
                }
                i = i + 4;
            } else {
                proof {
                    if 0x80 <= b1 <= 0xbf && 0x80 <= b2 <= 0xbf && 0x80 <= b3 <= 0xbf {
                        lemma_invalid_second_byte_width4(t);
                    }
                    partial_valid_partial_invalid_utf8(v@, i as int);
                }
                return false;
            }
        } else {
            proof {
                lemma_invalid_head_byte(t);
                partial_valid_partial_invalid_utf8(v@, i as int);
            }
            return false;
        }
    }
    proof {
        assert(v@.subrange(0, n as int) =~= v@);
    }
    true
}

/// After any line-feed byte of a valid UTF-8 sequence, the remaining suffix
/// is itself valid UTF-8: a line feed is an ASCII byte, so it always sits on
/// a character boundary.
pub proof fn lemma_valid_utf8_after_nl(s: Seq<u8>, i: int)
    requires
        valid_utf8(s),
        0 <= i < s.len(),
        s[i] == nl(),
    ensures
        valid_utf8(s.subrange(i + 1, s.len() as int)),
{
    is_char_boundary_iff_not_is_continuation_byte(s, i);
    valid_utf8_split(s, i);
    let t = s.subrange(i, s.len() as int);
    assert(t[0] == nl());
    assert(valid_first_scalar(t) && valid_utf8(pop_first_scalar(t)));
    assert(length_of_first_scalar(t) == 1);
    assert(pop_first_scalar(t) =~= s.subrange(i + 1, s.len() as int));
}

} // verus!
