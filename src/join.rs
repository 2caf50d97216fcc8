//! The join handshake: `JOIN <channel> <user>`.
//!
//! The line is split at every single space. Terms longer than the name limit,
//! or holding a whitespace character, are dropped before the positions are
//! read, so `JOIN a  b` (two spaces) has four surviving terms.

use vstd::prelude::*;
use vstd::utf8::*;
use vstd::string::*;

verus! {

broadcast use vstd::utf8::encode_utf8_valid_utf8;

/// The separator of the terms of a join command.
pub const SPACE: u8 = 0x20;

/// The longest channel or user name, in characters.
pub const MAX_NAME_LEN: usize = 20;

/// Whether the UTF-8 encoding of a Unicode `White_Space` character starts at
/// byte `j` of `t`.
pub open spec fn whitespace_at(t: Seq<u8>, j: int) -> bool {
    let b0 = t[j];
    ||| 9 <= b0 <= 13
    ||| b0 == 0x20
    ||| (j + 1 < t.len() && b0 == 0xC2 && (t[j + 1] == 0x85 || t[j + 1] == 0xA0))
    ||| (j + 2 < t.len() && b0 == 0xE1 && t[j + 1] == 0x9A && t[j + 2] == 0x80)
    ||| (j + 2 < t.len() && b0 == 0xE2 && t[j + 1] == 0x80 && ((0x80 <= t[j + 2] <= 0x8A)
        || t[j + 2] == 0xA8 || t[j + 2] == 0xA9 || t[j + 2] == 0xAF))
    ||| (j + 2 < t.len() && b0 == 0xE2 && t[j + 1] == 0x81 && t[j + 2] == 0x9F)
    ||| (j + 2 < t.len() && b0 == 0xE3 && t[j + 1] == 0x80 && t[j + 2] == 0x80)
}

pub open spec fn has_whitespace(t: Seq<u8>) -> bool {
    exists|j: int| 0 <= j < t.len() && whitespace_at(t, j)
}

/// The number of characters that `t` encodes: the bytes of `t` that start a
/// character, that is, all but the UTF-8 continuation bytes.
pub open spec fn char_count(t: Seq<u8>) -> nat
    decreases t.len(),
{
    if t.len() == 0 {
        0
    } else {
        char_count(t.drop_last()) + if is_continuation_byte(t.last()) {
            0nat
        } else {
            1nat
        }
    }
}

/// A term that survives the filter: at most twenty characters, no whitespace.
pub open spec fn is_name(t: Seq<u8>) -> bool {
    char_count(t) <= MAX_NAME_LEN && !has_whitespace(t)
}

/// The terms of `b` between single spaces, empty ones included.
pub open spec fn split_spaces(b: Seq<u8>) -> Seq<Seq<u8>>
    decreases b.len(),
{
    if b.len() == 0 {
        seq![Seq::empty()]
    } else {
        let prev = split_spaces(b.drop_last());
        if b.last() == SPACE {
            prev.push(Seq::empty())
        } else {
            prev.update(prev.len() - 1, prev.last().push(b.last()))
        }
    }
}

/// The terms of `terms` that are names, in order.
pub open spec fn surviving(terms: Seq<Seq<u8>>) -> Seq<Seq<u8>>
    decreases terms.len(),
{
    if terms.len() == 0 {
        Seq::empty()
    } else {
        let prev = surviving(terms.drop_last());
        if is_name(terms.last()) {
            prev.push(terms.last())
        } else {
            prev
        }
    }
}

/// The bytes of the keyword `JOIN`.
pub open spec fn join_keyword() -> Seq<u8> {
    seq![0x4Au8, 0x4Fu8, 0x49u8, 0x4Eu8]
}

/// What a join line asks for: `(channel, user)`, or `None` when it is not a
/// join command.
pub open spec fn parse_join(line: Seq<u8>) -> Option<(Seq<u8>, Seq<u8>)> {
    let t = surviving(split_spaces(line));
    if t.len() == 3 && t[0] == join_keyword() {
        Some((t[1], t[2]))
    } else {
        None
    }
}

pub proof fn lemma_split_spaces_nonempty(b: Seq<u8>)
    ensures
        split_spaces(b).len() >= 1,
    decreases b.len(),
{
    if b.len() > 0 {
        lemma_split_spaces_nonempty(b.drop_last());
    }
}

/// The terms named by `spans` within `b`.
pub open spec fn span_terms(b: Seq<u8>, spans: Seq<(usize, usize)>) -> Seq<Seq<u8>> {
    spans.map_values(|p: (usize, usize)| b.subrange(p.0 as int, p.1 as int))
}

fn whitespace_starts(b: &[u8], lo: usize, hi: usize, j: usize) -> (r: bool)
    requires
        lo <= j < hi <= b@.len(),
    ensures
        r == whitespace_at(b@.subrange(lo as int, hi as int), j - lo),
{
    let b0 = b[j];
    let two = hi - j > 1;
    let three = hi - j > 2;
    (9 <= b0 && b0 <= 13) || b0 == 0x20
        || (two && b0 == 0xC2 && (b[j + 1] == 0x85 || b[j + 1] == 0xA0))
        || (three && b0 == 0xE1 && b[j + 1] == 0x9A && b[j + 2] == 0x80)
        || (three && b0 == 0xE2 && b[j + 1] == 0x80 && ((0x80 <= b[j + 2] && b[j + 2] <= 0x8A)
            || b[j + 2] == 0xA8 || b[j + 2] == 0xA9 || b[j + 2] == 0xAF))
        || (three && b0 == 0xE2 && b[j + 1] == 0x81 && b[j + 2] == 0x9F)
        || (three && b0 == 0xE3 && b[j + 1] == 0x80 && b[j + 2] == 0x80)
}

fn is_name_span(b: &[u8], lo: usize, hi: usize) -> (r: bool)
    requires
        lo <= hi <= b@.len(),
    ensures
        r == is_name(b@.subrange(lo as int, hi as int)),
{
    let ghost t = b@.subrange(lo as int, hi as int);
    let mut j: usize = lo;
    let mut chars: usize = 0;
    proof {
        assert(t.subrange(0, 0) =~= Seq::<u8>::empty());
    }
    while j < hi
        invariant
            lo <= j <= hi <= b@.len(),
            t == b@.subrange(lo as int, hi as int),
            chars <= j - lo,
            chars == char_count(t.subrange(0, j - lo)),
            forall|k: int| 0 <= k < j - lo ==> !whitespace_at(t, k),
        decreases hi - j,
    {
        if whitespace_starts(b, lo, hi, j) {
            assert(whitespace_at(t, j - lo));
            return false;
        }
        proof {
            let next = t.subrange(0, j - lo + 1);
            assert(next.drop_last() =~= t.subrange(0, j - lo));
            assert(next.last() == b@[j as int]);
        }
        let byte = b[j];
        if !(0x80 <= byte && byte <= 0xBF) {
            chars += 1;
        }
        j += 1;
    }
    proof {
        assert(t.subrange(0, hi - lo) =~= t);
    }
    chars <= MAX_NAME_LEN
}

/// A span whose ends sit at the line's edges or next to a space.
pub open spec fn span_ok(b: Seq<u8>, p: (usize, usize)) -> bool {
    &&& p.0 <= p.1 <= b.len()
    &&& (p.0 == 0 || b[p.0 - 1] == SPACE)
    &&& (p.1 == b.len() || b[p.1 as int] == SPACE)
}

proof fn lemma_span_terms_push(b: Seq<u8>, spans: Seq<(usize, usize)>, p: (usize, usize))
    ensures
        span_terms(b, spans.push(p)) == span_terms(b, spans).push(b.subrange(p.0 as int, p.1 as int)),
{
    assert(span_terms(b, spans.push(p)) =~= span_terms(b, spans).push(b.subrange(p.0 as int, p.1 as int)));
}

/// The spans, within `b`, of the terms that survive the filter, in order.
pub fn surviving_spans(b: &[u8]) -> (spans: Vec<(usize, usize)>)
    ensures
        span_terms(b@, spans@) == surviving(split_spaces(b@)),
        forall|k: int| 0 <= k < spans@.len() ==> span_ok(b@, #[trigger] spans@[k]),
{
    let mut spans: Vec<(usize, usize)> = Vec::new();
    let mut start: usize = 0;
    let mut i: usize = 0;
    proof {
        assert(b@.subrange(0, 0) =~= Seq::<u8>::empty());
        assert(span_terms(b@, spans@) =~= Seq::<Seq<u8>>::empty());
    }
    while i < b.len()
        invariant
            start <= i <= b@.len(),
            start == 0 || b@[start - 1] == SPACE,
            split_spaces(b@.subrange(0, i as int)).len() >= 1,
            split_spaces(b@.subrange(0, i as int)).last() == b@.subrange(start as int, i as int),
            span_terms(b@, spans@) == surviving(split_spaces(b@.subrange(0, i as int)).drop_last()),
            forall|k: int| 0 <= k < spans@.len() ==> span_ok(b@, #[trigger] spans@[k]),
        decreases b@.len() - i,
    {
        let ghost prev = split_spaces(b@.subrange(0, i as int));
        let ghost next = b@.subrange(0, i + 1);
        proof {
            assert(next.drop_last() =~= b@.subrange(0, i as int));
            assert(next.last() == b@[i as int]);
            assert(prev =~= prev.drop_last().push(prev.last()));
        }
        if b[i] == SPACE {
            let keep = is_name_span(b, start, i);
            if keep {
                proof { lemma_span_terms_push(b@, spans@, (start, i)); }
                spans.push((start, i));
            }
            proof {
                let next_split = split_spaces(next);
                assert(next_split == prev.push(Seq::<u8>::empty()));
                assert(next_split.drop_last() =~= prev);
                assert(span_terms(b@, spans@) == surviving(prev));
                assert(b@.subrange(i + 1, i + 1) =~= Seq::<u8>::empty());
            }
            start = i + 1;
        } else {
            proof {
                let next_split = split_spaces(next);
                assert(next_split.drop_last() =~= prev.drop_last());
                assert(next_split.last() =~= b@.subrange(start as int, i + 1));
            }
        }
        i += 1;
    }
    proof {
        assert(b@.subrange(0, b@.len() as int) =~= b@);
    }
    let ghost all = split_spaces(b@);
    proof {
        assert(all =~= all.drop_last().push(all.last()));
    }
    if is_name_span(b, start, b.len()) {
        proof { lemma_span_terms_push(b@, spans@, (start, b.len())); }
        spans.push((start, b.len()));
    }
    spans
}

/// The part of `s` between byte offsets `lo` and `hi`, both next to a space
/// or at an edge of `s`.
pub fn term_slice(s: &str, lo: usize, hi: usize) -> (r: &str)
    requires
        span_ok(s.spec_bytes(), (lo, hi)),
    ensures
        r.spec_bytes() == s.spec_bytes().subrange(lo as int, hi as int),
{
    let ghost b = s.spec_bytes();
    let tail: &str = if lo == 0 {
        proof {
            assert(b.subrange(0, b.len() as int) =~= b);
        }
        s
    } else {
        proof {
            is_char_boundary_iff_not_is_continuation_byte(b, lo - 1);
        }
        let (_, t1) = s.split_at(lo - 1);
        let ghost b1 = t1.spec_bytes();
        proof {
            assert(b1[0] == SPACE);
            assert(length_of_first_scalar(b1) == 1);
            assert(is_char_boundary(pop_first_scalar(b1), 0));
            assert(is_char_boundary(b1, 1));
        }
        let (_, t2) = t1.split_at(1);
        proof {
            assert(t2.spec_bytes() =~= b.subrange(lo as int, b.len() as int));
        }
        t2
    };
    let ghost bt = tail.spec_bytes();
    proof {
        if hi == b.len() {
            is_char_boundary_start_end_of_seq(bt);
        } else {
            is_char_boundary_iff_not_is_continuation_byte(bt, hi - lo);
        }
    }
    let (r, _) = tail.split_at(hi - lo);
    proof {
        assert(r.spec_bytes() =~= b.subrange(lo as int, hi as int));
    }
    r
}

} // verus!
