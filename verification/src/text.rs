//! Byte-level text utilities shared by the payload scanner and the rewriting
//! code: substring search, UTF-8 decoding of a single character, the Unicode
//! `White_Space` property and unsigned decimal numbers.
use vstd::prelude::*;
use vstd::string::StrSliceExecFns;
use vstd::utf8::*;

verus! {

/// `pat` occurs in `hay` at byte offset `i`.
pub open spec fn matches_at(hay: Seq<u8>, pat: Seq<u8>, i: int) -> bool {
    0 <= i && i + pat.len() <= hay.len() && hay.subrange(i, i + pat.len()) == pat
}

/// Offset of the first occurrence of `pat` in `hay` at or after `i`.
pub open spec fn find_from(hay: Seq<u8>, pat: Seq<u8>, i: int) -> Option<int>
    decreases hay.len() + 1 - i,
{
    if i < 0 || i + pat.len() > hay.len() {
        None
    } else if hay.subrange(i, i + pat.len()) == pat {
        Some(i)
    } else {
        find_from(hay, pat, i + 1)
    }
}

/// Offset of the first byte at or after `i` that is `a` or `b`.
pub open spec fn find_either_from(hay: Seq<u8>, a: u8, b: u8, i: int) -> Option<int>
    decreases hay.len() - i,
{
    if i < 0 || i >= hay.len() {
        None
    } else if hay[i] == a || hay[i] == b {
        Some(i)
    } else {
        find_either_from(hay, a, b, i + 1)
    }
}

pub proof fn lemma_find_from_found(hay: Seq<u8>, pat: Seq<u8>, i: int)
    requires
        0 <= i,
    ensures
        find_from(hay, pat, i) matches Some(k) ==> i <= k && matches_at(hay, pat, k) && forall|
            j: int,
        |
            i <= j < k ==> !matches_at(hay, pat, j),
        find_from(hay, pat, i) is None ==> forall|j: int| i <= j ==> !matches_at(hay, pat, j),
    decreases hay.len() + 1 - i,
{
    if i + pat.len() > hay.len() {
    } else if hay.subrange(i, i + pat.len()) == pat {
    } else {
        lemma_find_from_found(hay, pat, i + 1);
    }
}


pub proof fn lemma_find_either_found(hay: Seq<u8>, a: u8, b: u8, i: int)
    requires
        0 <= i,
    ensures
        find_either_from(hay, a, b, i) matches Some(k) ==> i <= k < hay.len() && (hay[k] == a
            || hay[k] == b) && forall|j: int| i <= j < k ==> hay[j] != a && hay[j] != b,
        find_either_from(hay, a, b, i) is None ==> forall|j: int|
            i <= j < hay.len() ==> hay[j] != a && hay[j] != b,
    decreases hay.len() - i,
{
    if i >= hay.len() {
    } else if hay[i] == a || hay[i] == b {
    } else {
        lemma_find_either_found(hay, a, b, i + 1);
    }
}

/// Searches `hay` for `pat`, starting at byte offset `start`.
pub fn find_bytes(hay: &[u8], pat: &[u8], start: usize) -> (r: Option<usize>)
    ensures
        match r {
            Some(k) => find_from(hay@, pat@, start as int) == Some(k as int),
            None => find_from(hay@, pat@, start as int) is None,
        },
{
    let n = hay.len();
    let m = pat.len();
    let mut i = start;
    while i <= n && m <= n - i
        invariant
            start <= i,
            n == hay@.len(),
            m == pat@.len(),
            find_from(hay@, pat@, start as int) == find_from(hay@, pat@, i as int),
        decreases n + 1 - i,
    {
        let mut j: usize = 0;
        let mut same = true;
        while j < m
            invariant
                i + m <= n,
                j <= m,
                n == hay@.len(),
                m == pat@.len(),
                same <==> (forall|t: int| 0 <= t < j ==> hay@[i + t] == pat@[t]),
            decreases m - j,
        {
            if hay[i + j] != pat[j] {
                same = false;
            }
            j = j + 1;
        }
        if same {
            assert(hay@.subrange(i as int, i + m) =~= pat@);
            return Some(i);
        }
        assert(hay@.subrange(i as int, i + m) != pat@) by {
            let t = choose|t: int| 0 <= t < m && hay@[i + t] != pat@[t];
            assert(hay@.subrange(i as int, i + m)[t] == hay@[i + t]);
        }
        i = i + 1;
    }
    None
}

/// Searches `hay` for the first byte equal to `a` or `b`, starting at `start`.
pub fn find_either(hay: &[u8], a: u8, b: u8, start: usize) -> (r: Option<usize>)
    ensures
        match r {
            Some(k) => find_either_from(hay@, a, b, start as int) == Some(k as int),
            None => find_either_from(hay@, a, b, start as int) is None,
        },
{
    let n = hay.len();
    let mut i = start;
    while i < n
        invariant
            start <= i,
            n == hay@.len(),
            find_either_from(hay@, a, b, start as int) == find_either_from(hay@, a, b, i as int),
        decreases n - i,
    {
        if hay[i] == a || hay[i] == b {
            return Some(i);
        }
        i = i + 1;
    }
    None
}


/// Code points with the Unicode `White_Space` property, the set that
/// `char::is_whitespace` tests for.
pub open spec fn is_white_space(c: u32) -> bool {
    ||| 0x09 <= c <= 0x0d
    ||| c == 0x20
    ||| c == 0x85
    ||| c == 0xa0
    ||| c == 0x1680
    ||| 0x2000 <= c <= 0x200a
    ||| c == 0x2028
    ||| c == 0x2029
    ||| c == 0x202f
    ||| c == 0x205f
    ||| c == 0x3000
}

/// Tests a code point for the Unicode `White_Space` property.
pub fn white_space(c: u32) -> (r: bool)
    ensures
        r == is_white_space(c),
{
    (0x09 <= c && c <= 0x0d) || c == 0x20 || c == 0x85 || c == 0xa0 || c == 0x1680 || (0x2000 <= c
        && c <= 0x200a) || c == 0x2028 || c == 0x2029 || c == 0x202f || c == 0x205f || c == 0x3000
}

/// The code point of the character whose encoding starts at byte `i`.
pub open spec fn char_at(b: Seq<u8>, i: int) -> u32 {
    decode_first_codepoint(b.subrange(i, b.len() as int))
}

/// The length in bytes of the character whose encoding starts at byte `i`.
pub open spec fn char_width_at(b: Seq<u8>, i: int) -> int {
    length_of_first_codepoint(b.subrange(i, b.len() as int))
}

/// The first character boundary at or after `i` whose character is not white
/// space, if there is one before the end of `b`.
pub open spec fn skip_white_space(b: Seq<u8>, i: int) -> Option<int>
    decreases b.len() + 4 - i,
{
    if i < 0 || i >= b.len() {
        None
    } else if is_white_space(char_at(b, i)) {
        skip_white_space(b, i + char_width_at(b, i))
    } else {
        Some(i)
    }
}

/// The byte just after an ASCII byte of valid UTF-8 starts a character.
pub proof fn lemma_after_ascii_is_boundary(b: Seq<u8>, i: int)
    requires
        valid_utf8(b),
        0 < i <= b.len(),
        b[i - 1] <= 0x7f,
    ensures
        is_char_boundary(b, i),
    decreases b.len(),
{
    let w = length_of_first_scalar(b);
    let rest = pop_first_scalar(b);
    assert(valid_first_scalar(b) && valid_utf8(rest));
    if i <= w {
        assert(w == 1 && i == 1);
        reveal_with_fuel(is_char_boundary, 2);
        assert(is_char_boundary(rest, 0));
    } else {
        assert(rest[i - w - 1] == b[i - 1]);
        lemma_after_ascii_is_boundary(rest, i - w);
        reveal_with_fuel(is_char_boundary, 2);
    }
}

/// An ASCII byte of valid UTF-8 starts a character.
pub proof fn lemma_ascii_is_boundary(b: Seq<u8>, i: int)
    requires
        valid_utf8(b),
        0 <= i < b.len(),
        b[i] <= 0x7f,
    ensures
        is_char_boundary(b, i),
{
    is_char_boundary_iff_not_is_continuation_byte(b, i);
}

/// From a character boundary, the next character starts at a boundary too.
pub proof fn lemma_next_boundary(b: Seq<u8>, i: int)
    requires
        valid_utf8(b),
        is_char_boundary(b, i),
        0 <= i < b.len(),
    ensures
        valid_first_scalar(b.subrange(i, b.len() as int)),
        i + char_width_at(b, i) <= b.len(),
        is_char_boundary(b, i + char_width_at(b, i)),
    decreases b.len(),
{
    let w = length_of_first_scalar(b);
    let rest = pop_first_scalar(b);
    assert(valid_first_scalar(b) && valid_utf8(rest));
    if i == 0 {
        assert(b.subrange(0, b.len() as int) =~= b);
        reveal_with_fuel(is_char_boundary, 2);
        assert(is_char_boundary(rest, 0));
    } else {
        reveal_with_fuel(is_char_boundary, 2);
        assert(is_char_boundary(rest, i - w));
        assert(i - w >= 0) by {
            if i - w < 0 {
                assert(!is_char_boundary(rest, i - w));
            }
        }
        if i - w == rest.len() {
            is_char_boundary_start_end_of_seq(b);
            assert(i == b.len());
        } else {
            lemma_next_boundary(rest, i - w);
            assert(rest.subrange(i - w, rest.len() as int) =~= b.subrange(i, b.len() as int));
        }
    }
}

/// Decodes the character whose encoding starts at byte `i`, giving its code
/// point and its length in bytes.
pub fn decode_char(b: &[u8], i: usize) -> (r: (u32, usize))
    requires
        valid_utf8(b@),
        is_char_boundary(b@, i as int),
        i < b@.len(),
    ensures
        r.0 == char_at(b@, i as int),
        r.1 == char_width_at(b@, i as int),
        i + r.1 <= b@.len(),
        is_char_boundary(b@, i + r.1),
{
    proof {
        lemma_next_boundary(b@, i as int);
    }
    let ghost rest = b@.subrange(i as int, b@.len() as int);
    let b0 = b[i];
    if b0 <= 0x7f {
        ((b0 & 0x7F) as u32, 1)
    } else if 0xc0 <= b0 && b0 <= 0xdf {
        assert(rest[1] == b@[i + 1]);
        (((b0 & 0x1F) as u32) << 6 | ((b[i + 1] & 0x3f) as u32), 2)
    } else if 0xe0 <= b0 && b0 <= 0xef {
        assert(rest[1] == b@[i + 1] && rest[2] == b@[i + 2]);
        (((b0 & 0x0F) as u32) << 12 | ((b[i + 1] & 0x3f) as u32) << 6 | ((b[i + 2] & 0x3f) as u32), 3)
    } else {
        assert(rest[1] == b@[i + 1] && rest[2] == b@[i + 2] && rest[3] == b@[i + 3]);
        (((b0 & 0x07) as u32) << 18 | ((b[i + 1] & 0x3f) as u32) << 12 | ((b[i + 2] & 0x3f) as u32)
            << 6 | ((b[i + 3] & 0x3f) as u32), 4)
    }
}

/// Skips the white space characters that start at byte `i`, returning the
/// offset of the first other character.
pub fn skip_white(b: &[u8], i: usize) -> (r: Option<usize>)
    requires
        valid_utf8(b@),
        is_char_boundary(b@, i as int),
    ensures
        match r {
            Some(k) => skip_white_space(b@, i as int) == Some(k as int) && i <= k < b@.len(),
            None => skip_white_space(b@, i as int) is None,
        },
{
    let n = b.len();
    let mut k = i;
    while k < n
        invariant
            n == b@.len(),
            valid_utf8(b@),
            is_char_boundary(b@, k as int),
            i <= k,
            skip_white_space(b@, i as int) == skip_white_space(b@, k as int),
        decreases n - k,
    {
        let (c, w) = decode_char(b, k);
        if !white_space(c) {
            return Some(k);
        }
        k = k + w;
    }
    None
}

/// An ASCII decimal digit.
pub open spec fn is_digit(c: u8) -> bool {
    48 <= c <= 57
}

pub open spec fn all_digits(s: Seq<u8>) -> bool {
    forall|i: int| 0 <= i < s.len() ==> is_digit(#[trigger] s[i])
}

/// The number that a string of decimal digits denotes.
pub open spec fn digits_value(s: Seq<u8>) -> nat
    decreases s.len(),
{
    if s.len() == 0 {
        0
    } else {
        digits_value(s.drop_last()) * 10 + (s.last() - 48) as nat
    }
}

/// What `u64::from_str` reads from `s`: an optional `+` and then one or more
/// ASCII digits whose value fits in 64 bits; anything else is refused.
pub open spec fn parse_u64_spec(s: Seq<u8>) -> Option<u64> {
    let d = if s.len() > 0 && s[0] == 43 {
        s.drop_first()
    } else {
        s
    };
    if d.len() > 0 && all_digits(d) && digits_value(d) <= u64::MAX {
        Some(digits_value(d) as u64)
    } else {
        None
    }
}

proof fn lemma_digits_value_grows(s: Seq<u8>, k: int)
    requires
        0 <= k <= s.len(),
        all_digits(s),
    ensures
        digits_value(s.subrange(0, k)) <= digits_value(s),
    decreases s.len() - k,
{
    if k < s.len() {
        lemma_digits_value_grows(s, k + 1);
        let t = s.subrange(0, k + 1);
        assert(t.drop_last() =~= s.subrange(0, k));
        assert(is_digit(s[k]));
    } else {
        assert(s.subrange(0, k) =~= s);
    }
}

/// Reads an unsigned decimal number from `b[start..end]` as `u64::from_str`
/// does.
pub fn parse_u64(b: &[u8], start: usize, end: usize) -> (r: Option<u64>)
    requires
        start <= end <= b@.len(),
    ensures
        r == parse_u64_spec(b@.subrange(start as int, end as int)),
{
    let ghost s = b@.subrange(start as int, end as int);
    let mut i = start;
    if start < end && b[start] == 43 {
        i = start + 1;
    }
    let ghost d = if s.len() > 0 && s[0] == 43 {
        s.drop_first()
    } else {
        s
    };
    assert(d =~= b@.subrange(i as int, end as int));
    if i == end {
        return None;
    }
    let ds = i;
    let mut value: u64 = 0;
    while i < end
        invariant
            ds <= i <= end <= b@.len(),
            s == b@.subrange(start as int, end as int),
            d == (if s.len() > 0 && s[0] == 43 {
                s.drop_first()
            } else {
                s
            }),
            d =~= b@.subrange(ds as int, end as int),
            all_digits(b@.subrange(ds as int, i as int)),
            value == digits_value(b@.subrange(ds as int, i as int)),
        decreases end - i,
    {
        let c = b[i];
        if c < 48 || c > 57 {
            assert(!is_digit(d[i - ds]));
            return None;
        }
        let ghost prev = b@.subrange(ds as int, i as int);
        let ghost next = b@.subrange(ds as int, i + 1);
        assert(next.drop_last() =~= prev);
        assert(all_digits(next)) by {
            assert forall|t: int| 0 <= t < next.len() implies is_digit(#[trigger] next[t]) by {
                if t < prev.len() {
                    assert(next[t] == prev[t]);
                }
            }
        }
        let digit = (c - 48) as u64;
        let grown = value.checked_mul(10);
        match grown {
            None => {
                proof {
                    if all_digits(d) {
                        lemma_digits_value_grows(d, i + 1 - ds);
                        assert(d.subrange(0, i + 1 - ds) =~= next);
                    }
                }
                return None;
            },
            Some(g) => match g.checked_add(digit) {
                None => {
                    proof {
                        if all_digits(d) {
                            lemma_digits_value_grows(d, i + 1 - ds);
                            assert(d.subrange(0, i + 1 - ds) =~= next);
                        }
                    }
                    return None;
                },
                Some(v) => {
                    value = v;
                },
            },
        }
        i = i + 1;
    }
    assert(b@.subrange(ds as int, i as int) =~= d);
    Some(value)
}

/// The decimal digits of `n`, most significant first, without leading zeros.
pub open spec fn decimal(n: nat) -> Seq<u8>
    decreases n,
{
    if n < 10 {
        seq![(48 + n) as u8]
    } else {
        decimal(n / 10).push((48 + n % 10) as u8)
    }
}

/// Writing a number in decimal and reading it back as `u64::from_str` does
/// gives the number.
pub proof fn lemma_decimal_reads_back(n: u64)
    ensures
        parse_u64_spec(decimal(n as nat)) == Some(n),
{
    lemma_decimal(n as nat);
    let d = decimal(n as nat);
    assert(is_digit(d[0]));
}

/// The decimal digits of `n` as characters.
pub open spec fn decimal_text(n: nat) -> Seq<char> {
    decimal(n).map_values(|c: u8| c as char)
}

/// The decimal digits of `n` are digits, there is at least one, and they
/// denote `n`.
pub proof fn lemma_decimal(n: nat)
    ensures
        decimal(n).len() >= 1,
        all_digits(decimal(n)),
        digits_value(decimal(n)) == n,
    decreases n,
{
    if n >= 10 {
        lemma_decimal(n / 10);
        let d = decimal(n);
        assert(d.drop_last() =~= decimal(n / 10));
        assert(d.last() == (48 + n % 10) as u8);
        assert(n == (n / 10) * 10 + n % 10) by (nonlinear_arith);
        assert(((48 + n % 10) as u8) as int == 48 + n % 10);
        assert(digits_value(d) == digits_value(d.drop_last()) * 10 + (d.last() - 48) as nat);
        assert(digits_value(d.drop_last()) == n / 10);
        assert(digits_value(d) == n);
        assert forall|i: int| 0 <= i < d.len() implies is_digit(#[trigger] d[i]) by {
            if i < d.len() - 1 {
                assert(d[i] == decimal(n / 10)[i]);
            }
        }
    } else {
        assert(decimal(n).drop_last() =~= Seq::<u8>::empty());
        assert(((48 + n) as u8) as int == 48 + n);
        assert(digits_value(Seq::<u8>::empty()) == 0);
        assert(decimal(n).last() == (48 + n) as u8);
        assert(digits_value(decimal(n)) == n);
    }
}

/// The UTF-8 encoding of the decimal text of `n` is its digits.
pub proof fn lemma_decimal_text_bytes(n: nat)
    ensures
        encode_utf8(decimal_text(n)) == decimal(n),
{
    lemma_decimal(n);
    let t = decimal_text(n);
    let d = decimal(n);
    assert(is_ascii_chars(t)) by {
        assert forall|i: int| 0 <= i < t.len() implies '\0' <= #[trigger] t[i] <= '\u{7f}' by {
            assert(is_digit(d[i]));
        }
    }
    is_ascii_chars_encode_utf8(t);
    assert forall|i: int| 0 <= i < d.len() implies encode_utf8(t)[i] == d[i] by {
        assert(is_digit(d[i]));
        assert(t[i] as u8 == encode_utf8(t)[i]);
    }
    assert(encode_utf8(t) =~= d);
}

/// Encoding a concatenation of characters concatenates their encodings.
pub proof fn lemma_encode_utf8_concat(a: Seq<char>, b: Seq<char>)
    ensures
        encode_utf8(a + b) == encode_utf8(a) + encode_utf8(b),
    decreases a.len(),
{
    if a.len() == 0 {
        assert(a + b =~= b);
        assert(encode_utf8(a) =~= Seq::<u8>::empty());
        assert(encode_utf8(a) + encode_utf8(b) =~= encode_utf8(b));
    } else {
        lemma_encode_utf8_concat(a.drop_first(), b);
        assert((a + b).drop_first() =~= a.drop_first() + b);
        assert((a + b)[0] == a[0]);
        assert(encode_utf8(a + b) =~= encode_scalar(a[0] as u32) + (encode_utf8(a.drop_first())
            + encode_utf8(b)));
    }
}

/// Compares two strings.
pub fn str_eq(a: &str, b: &str) -> (r: bool)
    ensures
        r == (a@ == b@),
{
    let x = a.as_bytes();
    let y = b.as_bytes();
    proof {
        encode_utf8_decode_utf8(a@);
        encode_utf8_decode_utf8(b@);
    }
    if x.len() != y.len() {
        return false;
    }
    let n = x.len();
    let mut i: usize = 0;
    while i < n
        invariant
            n == x@.len(),
            n == y@.len(),
            i <= n,
            (a@ == b@) ==> (x@ == y@),
            forall|j: int| 0 <= j < i ==> x@[j] == y@[j],
        decreases n - i,
    {
        if x[i] != y[i] {
            return false;
        }
        i = i + 1;
    }
    assert(x@ =~= y@);
    true
}

/// A character with the Unicode `White_Space` property.
pub open spec fn is_white_space_char(c: char) -> bool {
    is_white_space(c as u32)
}

/// The characters at the end of `s` that are not white space.
pub open spec fn trailing_word(s: Seq<char>) -> Seq<char>
    decreases s.len(),
{
    if s.len() == 0 || is_white_space_char(s.last()) {
        Seq::empty()
    } else {
        trailing_word(s.drop_last()).push(s.last())
    }
}

/// The last of the white-space separated words of `s`, as
/// `str::split_whitespace().last()` gives it.
pub open spec fn last_word(s: Seq<char>) -> Option<Seq<char>>
    decreases s.len(),
{
    if s.len() == 0 {
        None
    } else if is_white_space_char(s.last()) {
        last_word(s.drop_last())
    } else {
        Some(trailing_word(s))
    }
}

pub proof fn lemma_trailing_word_split(s: Seq<char>, start: int, end: int)
    requires
        0 <= start <= end <= s.len(),
        forall|i: int| start <= i < end ==> !is_white_space_char(#[trigger] s[i]),
    ensures
        trailing_word(s.subrange(0, end)) == trailing_word(s.subrange(0, start)) + s.subrange(
            start,
            end,
        ),
    decreases end - start,
{
    if start < end {
        lemma_trailing_word_split(s, start, end - 1);
        let t = s.subrange(0, end);
        assert(t.drop_last() =~= s.subrange(0, end - 1));
        assert(t.last() == s[end - 1]);
        assert(trailing_word(s.subrange(0, start)) + s.subrange(start, end) =~= (trailing_word(
            s.subrange(0, start),
        ) + s.subrange(start, end - 1)).push(s[end - 1]));
    } else {
        assert(s.subrange(start, end) =~= Seq::<char>::empty());
        assert(trailing_word(s.subrange(0, start)) + s.subrange(start, end) =~= trailing_word(
            s.subrange(0, start),
        ));
    }
}

/// Whether the last white-space separated word of `given` is `expected`:
/// `given.split_whitespace().last() == Some(expected)`.
pub fn last_word_is(given: &str, expected: &str) -> (r: bool)
    ensures
        r == (last_word(given@) == Some(expected@)),
{
    let ghost s = given@;
    let n = given.unicode_len();
    assert(s.subrange(0, n as int) =~= s);
    let mut end = n;
    while end > 0 && white_space(given.get_char(end - 1) as u32)
        invariant
            end <= n,
            n == s.len(),
            s == given@,
            last_word(s) == last_word(s.subrange(0, end as int)),
        decreases end,
    {
        proof {
            let t = s.subrange(0, end as int);
            assert(t.drop_last() =~= s.subrange(0, end - 1));
            assert(t.last() == s[end - 1]);
        }
        end = end - 1;
    }
    if end == 0 {
        assert(s.subrange(0, 0) =~= Seq::<char>::empty());
        return false;
    }
    proof {
        let t = s.subrange(0, end as int);
        assert(t.last() == s[end - 1]);
        assert(!is_white_space_char(t.last()));
    }
    let mut start = end;
    while start > 0 && !white_space(given.get_char(start - 1) as u32)
        invariant
            start <= end <= n,
            n == s.len(),
            s == given@,
            forall|i: int| start <= i < end ==> !is_white_space_char(#[trigger] s[i]),
        decreases start,
    {
        start = start - 1;
    }
    proof {
        lemma_trailing_word_split(s, start as int, end as int);
        if start > 0 {
            let u = s.subrange(0, start as int);
            assert(u.last() == s[start - 1]);
        }
        assert(trailing_word(s.subrange(0, start as int)) =~= Seq::<char>::empty());
        assert(trailing_word(s.subrange(0, end as int)) =~= s.subrange(start as int, end as int));
        assert(last_word(s) == Some(s.subrange(start as int, end as int)));
    }
    let m = expected.unicode_len();
    if m != end - start {
        return false;
    }
    let mut i: usize = 0;
    while i < m
        invariant
            m == expected@.len(),
            m == end - start,
            end <= n,
            n == s.len(),
            s == given@,
            i <= m,
            last_word(s) == Some(s.subrange(start as int, end as int)),
            forall|j: int| 0 <= j < i ==> s[start + j] == expected@[j],
        decreases m - i,
    {
        if given.get_char(start + i) != expected.get_char(i) {
            assert(s.subrange(start as int, end as int)[i as int] == s[start + i]);
            return false;
        }
        i = i + 1;
    }
    assert(s.subrange(start as int, end as int) =~= expected@);
    true
}

} // verus!
