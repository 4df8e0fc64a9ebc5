//! How the payload scans see a payload in which a run of digits was replaced
//! by other digits: a key, a delimiter, white space or a quote never stands
//! among digits, so every finding before the run stays where it was and
//! every finding after it moves by the change in length.
use vstd::prelude::*;

use vstd::utf8::*;

use crate::text::{
    char_at, char_width_at, find_either_from, find_from, is_digit, is_white_space,
    lemma_find_either_found, lemma_find_from_found, lemma_next_boundary, matches_at,
    skip_white_space,
};

verus! {

/// A byte of the text that `u64::from_str` reads: a digit or `+`.
pub open spec fn digit_like(c: u8) -> bool {
    is_digit(c) || c == 43
}

/// `b` with `b[s..e]` replaced by `d`.
pub open spec fn splice(b: Seq<u8>, s: int, e: int, d: Seq<u8>) -> Seq<u8> {
    b.subrange(0, s) + d + b.subrange(e, b.len() as int)
}

/// The replaced run `b[s..e]` and its replacement `d` are both non-empty,
/// the run is made of digits and `+`, and the replacement of digits.
pub open spec fn splice_ok(b: Seq<u8>, s: int, e: int, d: Seq<u8>) -> bool {
    &&& 0 <= s < e <= b.len()
    &&& d.len() > 0
    &&& forall|j: int| s <= j < e ==> digit_like(#[trigger] b[j])
    &&& forall|j: int| 0 <= j < d.len() ==> is_digit(#[trigger] d[j])
}

/// No byte of `p` is a digit or `+`.
pub open spec fn no_digit_like(p: Seq<u8>) -> bool {
    forall|t: int| 0 <= t < p.len() ==> !digit_like(#[trigger] p[t])
}

/// The bytes of a splice, by position.
pub proof fn lemma_splice_index(b: Seq<u8>, s: int, e: int, d: Seq<u8>)
    requires
        0 <= s <= e <= b.len(),
    ensures
        splice(b, s, e, d).len() == b.len() + d.len() - (e - s),
        forall|j: int| 0 <= j < s ==> #[trigger] splice(b, s, e, d)[j] == b[j],
        forall|j: int|
            s <= j < s + d.len() ==> #[trigger] splice(b, s, e, d)[j] == d[j - s],
        forall|j: int|
            s + d.len() <= j < splice(b, s, e, d).len() ==> #[trigger] splice(b, s, e, d)[j]
                == b[j - (d.len() - (e - s))],
{
    let c = splice(b, s, e, d);
    assert forall|j: int| 0 <= j < s implies #[trigger] c[j] == b[j] by {
        assert(c[j] == (b.subrange(0, s) + d)[j]);
    }
    assert forall|j: int| s <= j < s + d.len() implies #[trigger] c[j] == d[j - s] by {
        assert(c[j] == (b.subrange(0, s) + d)[j]);
    }
}

/// The first match of `p` at or after `i` is at `k` when `k` matches and
/// nothing from `i` up to `k` does.
pub proof fn lemma_find_from_first(hay: Seq<u8>, p: Seq<u8>, i: int, k: int)
    requires
        0 <= i <= k,
        matches_at(hay, p, k),
        forall|j: int| i <= j < k ==> !#[trigger] matches_at(hay, p, j),
    ensures
        find_from(hay, p, i) == Some(k),
    decreases k - i,
{
    if i < k {
        assert(!matches_at(hay, p, i));
        lemma_find_from_first(hay, p, i + 1, k);
    }
}

/// There is no match at or after `i` when nothing there matches.
pub proof fn lemma_find_from_none(hay: Seq<u8>, p: Seq<u8>, i: int)
    requires
        0 <= i,
        forall|j: int| i <= j ==> !#[trigger] matches_at(hay, p, j),
    ensures
        find_from(hay, p, i) is None,
    decreases hay.len() + 1 - i,
{
    if i + p.len() <= hay.len() {
        assert(!matches_at(hay, p, i));
        lemma_find_from_none(hay, p, i + 1);
    }
}

/// A pattern without digits or `+` matches a splice exactly where it
/// matches the original before the run, or after it, shifted; and it
/// matches neither across its run.
pub proof fn lemma_splice_matches(b: Seq<u8>, s: int, e: int, d: Seq<u8>, p: Seq<u8>)
    requires
        splice_ok(b, s, e, d),
        no_digit_like(p),
        p.len() > 0,
    ensures
        forall|i: int|
            #[trigger] matches_at(splice(b, s, e, d), p, i) <==> ((i + p.len() <= s
                && matches_at(b, p, i)) || (i >= s + d.len() && matches_at(
                b,
                p,
                i - (d.len() - (e - s)),
            ))),
        forall|i: int| #[trigger] matches_at(b, p, i) ==> i + p.len() <= s || i >= e,
{
    let c = splice(b, s, e, d);
    let delta = d.len() - (e - s);
    lemma_splice_index(b, s, e, d);
    assert forall|i: int| #[trigger] matches_at(b, p, i) implies i + p.len() <= s || i >= e by {
        if i + p.len() > s && i < e {
            let j = if i < s { s } else { i };
            assert(b.subrange(i, i + p.len())[j - i] == b[j]);
            assert(digit_like(b[j]));
        }
    }
    assert forall|i: int|
        #[trigger] matches_at(c, p, i) <==> ((i + p.len() <= s && matches_at(b, p, i)) || (i >= s
            + d.len() && matches_at(b, p, i - delta))) by {
        if i + p.len() <= s && 0 <= i {
            assert(c.subrange(i, i + p.len()) =~= b.subrange(i, i + p.len()));
        } else if i >= s + d.len() {
            if i + p.len() <= c.len() {
                assert(c.subrange(i, i + p.len()) =~= b.subrange(i - delta, i - delta + p.len()));
            }
        } else if 0 <= i {
            if matches_at(c, p, i) {
                let j = if i < s { s } else { i };
                assert(c.subrange(i, i + p.len())[j - i] == c[j]);
                assert(is_digit(d[j - s]));
            }
        }
    }
}

/// The first match of a pattern without digits or `+` in a splice: the same
/// as in the original before the run, shifted after it, and none if the
/// original has none.
pub proof fn lemma_splice_find(b: Seq<u8>, s: int, e: int, d: Seq<u8>, p: Seq<u8>)
    requires
        splice_ok(b, s, e, d),
        no_digit_like(p),
        p.len() > 0,
    ensures
        find_from(b, p, 0) matches Some(k) ==> (k + p.len() <= s && find_from(
            splice(b, s, e, d),
            p,
            0,
        ) == Some(k)) || (k >= e && find_from(splice(b, s, e, d), p, 0) == Some(
            k + (d.len() - (e - s)),
        )),
        find_from(b, p, 0) is None ==> find_from(splice(b, s, e, d), p, 0) is None,
{
    let c = splice(b, s, e, d);
    let delta = d.len() - (e - s);
    lemma_splice_matches(b, s, e, d, p);
    lemma_find_from_found(b, p, 0);
    match find_from(b, p, 0) {
        Some(k) => {
            assert(matches_at(b, p, k));
            if k + p.len() <= s {
                assert(matches_at(c, p, k));
                assert forall|j: int| 0 <= j < k implies !#[trigger] matches_at(c, p, j) by {
                    assert(!matches_at(b, p, j));
                }
                lemma_find_from_first(c, p, 0, k);
            } else {
                assert(k >= e);
                assert(matches_at(c, p, k + delta));
                assert forall|j: int| 0 <= j < k + delta implies !#[trigger] matches_at(c, p, j) by {
                    if j + p.len() <= s {
                        assert(!matches_at(b, p, j));
                    }
                    if j >= s + d.len() {
                        assert(!matches_at(b, p, j - delta));
                    }
                }
                lemma_find_from_first(c, p, 0, k + delta);
            }
        },
        None => {
            assert forall|j: int| 0 <= j implies !#[trigger] matches_at(c, p, j) by {
                if j + p.len() <= s {
                    assert(!matches_at(b, p, j));
                }
                if j >= s + d.len() {
                    assert(!matches_at(b, p, j - delta));
                }
            }
            lemma_find_from_none(c, p, 0);
        },
    }
}

/// After the run, a search for `x` or `y` finds in the splice what it finds
/// in the original, shifted.
pub proof fn lemma_splice_either_after(b: Seq<u8>, s: int, e: int, d: Seq<u8>, x: u8, y: u8, i: int)
    requires
        splice_ok(b, s, e, d),
        e <= i,
    ensures
        find_either_from(splice(b, s, e, d), x, y, i + (d.len() - (e - s))) == (match find_either_from(
            b,
            x,
            y,
            i,
        ) {
            Some(r) => Some(r + (d.len() - (e - s))),
            None => None,
        }),
    decreases b.len() - i,
{
    lemma_splice_index(b, s, e, d);
    let delta = d.len() - (e - s);
    if i < b.len() {
        assert(splice(b, s, e, d)[i + delta] == b[i]);
        lemma_splice_either_after(b, s, e, d, x, y, i + 1);
    }
}

/// Within a run of bytes that are neither `x` nor `y`, a search for them
/// finds what it finds from the run's end.
pub proof fn lemma_either_skips_run(hay: Seq<u8>, x: u8, y: u8, i: int, end: int)
    requires
        0 <= i <= end <= hay.len(),
        forall|j: int| i <= j < end ==> hay[j] != x && hay[j] != y,
    ensures
        find_either_from(hay, x, y, i) == find_either_from(hay, x, y, end),
    decreases end - i,
{
    if i < end {
        lemma_either_skips_run(hay, x, y, i + 1, end);
    }
}

/// Before the run, a search for bytes that are neither digits nor `+` finds
/// in the splice what it finds in the original before the run, and
/// otherwise the original's finding after the run, shifted.
pub proof fn lemma_splice_either_before(b: Seq<u8>, s: int, e: int, d: Seq<u8>, x: u8, y: u8, i: int)
    requires
        splice_ok(b, s, e, d),
        !digit_like(x),
        !digit_like(y),
        0 <= i <= s,
    ensures
        match find_either_from(b, x, y, i) {
            Some(r) => if r < s {
                find_either_from(splice(b, s, e, d), x, y, i) == Some(r)
            } else {
                r >= e && find_either_from(splice(b, s, e, d), x, y, i) == Some(
                    r + (d.len() - (e - s)),
                )
            },
            None => find_either_from(splice(b, s, e, d), x, y, i) is None,
        },
    decreases s - i,
{
    let c = splice(b, s, e, d);
    let delta = d.len() - (e - s);
    lemma_splice_index(b, s, e, d);
    if i < s {
        assert(c[i] == b[i]);
        lemma_splice_either_before(b, s, e, d, x, y, i + 1);
    } else {
        assert forall|j: int| s <= j < e implies b[j] != x && b[j] != y by {
            assert(digit_like(b[j]));
        }
        lemma_either_skips_run(b, x, y, s, e);
        assert forall|j: int| s <= j < s + d.len() implies c[j] != x && c[j] != y by {
            assert(is_digit(d[j - s]));
        }
        lemma_either_skips_run(c, x, y, s, s + d.len());
        lemma_splice_either_after(b, s, e, d, x, y, e);
        lemma_find_either_found(b, x, y, e);
    }
}

/// After the run, skipping white space in the splice ends where it ends in
/// the original, shifted.
pub proof fn lemma_splice_skip_after(b: Seq<u8>, s: int, e: int, d: Seq<u8>, i: int)
    requires
        splice_ok(b, s, e, d),
        e <= i,
    ensures
        skip_white_space(splice(b, s, e, d), i + (d.len() - (e - s))) == (match skip_white_space(
            b,
            i,
        ) {
            Some(p) => Some(p + (d.len() - (e - s))),
            None => None,
        }),
    decreases b.len() + 4 - i,
{
    let c = splice(b, s, e, d);
    let delta = d.len() - (e - s);
    lemma_splice_index(b, s, e, d);
    if i < b.len() {
        assert(c.subrange(i + delta, c.len() as int) =~= b.subrange(i, b.len() as int));
        assert(char_at(c, i + delta) == char_at(b, i));
        assert(char_width_at(c, i + delta) == char_width_at(b, i));
        if is_white_space(char_at(b, i)) {
            let w = char_width_at(b, i);
            if w > 0 {
                lemma_splice_skip_after(b, s, e, d, i + w);
            } else {
                assert(skip_white_space(b, i) == skip_white_space(b, i + w));
                assert(false) by {
                    assert(w == 1 || w == 2 || w == 3 || w == 4);
                }
            }
        }
    }
}

/// The first character of two byte strings that agree on its bytes is the
/// same, and so is its width.
proof fn lemma_same_first_char(x: Seq<u8>, y: Seq<u8>)
    requires
        x.len() >= length_of_first_codepoint(x),
        y.len() >= length_of_first_codepoint(x),
        x.len() > 0,
        forall|t: int| 0 <= t < length_of_first_codepoint(x) ==> x[t] == y[t],
    ensures
        decode_first_codepoint(x) == decode_first_codepoint(y),
        length_of_first_codepoint(x) == length_of_first_codepoint(y),
{
    assert(x[0] == y[0]);
    if length_of_first_codepoint(x) >= 2 {
        assert(x[1] == y[1]);
    }
    if length_of_first_codepoint(x) >= 3 {
        assert(x[2] == y[2]);
    }
    if length_of_first_codepoint(x) >= 4 {
        assert(x[3] == y[3]);
    }
}

/// In valid UTF-8, skipping white space from a character boundary before a
/// byte `m - 1` that is ASCII and not white space stops at or before it,
/// reading only bytes before `m`: any byte string that agrees with it there
/// skips the same way.
pub proof fn lemma_skip_same_prefix(b: Seq<u8>, c: Seq<u8>, m: int, i: int)
    requires
        valid_utf8(b),
        is_char_boundary(b, i),
        0 <= i < m,
        m <= b.len(),
        m <= c.len(),
        b[m - 1] < 0x80,
        !is_white_space(b[m - 1] as u32),
        forall|j: int| 0 <= j < m ==> b[j] == c[j],
    ensures
        skip_white_space(b, i) == skip_white_space(c, i),
        skip_white_space(b, i) matches Some(p) && i <= p < m,
    decreases m - i,
{
    lemma_next_boundary(b, i);
    let x = b.subrange(i, b.len() as int);
    let y = c.subrange(i, c.len() as int);
    let w = char_width_at(b, i);
    assert(valid_first_scalar(x));
    assert(w == length_of_first_codepoint(x));
    if i + w > m - 1 && i < m - 1 {
        let t = m - 1 - i;
        assert(1 <= t < w);
        assert(x[t] == b[m - 1]);
        assert(is_continuation_byte(x[t]));
        assert(false);
    }
    if i == m - 1 {
        assert(x[0] == b[m - 1]);
        assert(w == 1);
    }
    assert forall|t: int| 0 <= t < w implies x[t] == y[t] by {
        assert(x[t] == b[i + t]);
        assert(y[t] == c[i + t]);
    }
    lemma_same_first_char(x, y);
    assert(char_at(b, i) == char_at(c, i));
    assert(char_width_at(b, i) == char_width_at(c, i));
    if i == m - 1 {
        let byte = b[m - 1];
        assert((byte & 0x7f) == byte) by (bit_vector)
            requires
                byte < 0x80,
        ;
        assert(char_at(b, i) == b[m - 1] as u32);
    } else if is_white_space(char_at(b, i)) {
        lemma_skip_same_prefix(b, c, m, i + w);
    }
}

/// Skipping white space from `i` ends at a byte of `hay` at or after `i`.
pub proof fn lemma_skip_found(hay: Seq<u8>, i: int)
    ensures
        skip_white_space(hay, i) matches Some(p) ==> i <= p < hay.len(),
    decreases hay.len() + 4 - i,
{
    if 0 <= i < hay.len() && is_white_space(char_at(hay, i)) {
        lemma_skip_found(hay, i + char_width_at(hay, i));
    }
}

} // verus!
