//! Relaying shard events to a client under the client's own numbering: the
//! sequence number that a payload carries is replaced in place by the next
//! number of the client's session, without parsing the JSON.
use std::ops::Range;
use vstd::prelude::*;
use vstd::string::{StringExecFns, StringSliceAdditionalSpecFns};
use vstd::utf8::*;

use crate::deserializer::{
    event_type_key, op_key, scan_event, scan_event_type, scan_opcode, scan_sequence, sequence_key,
    EventScan, SequenceInfo,
};
use crate::splice::{
    digit_like, lemma_skip_same_prefix, lemma_splice_either_after, lemma_splice_either_before,
    lemma_skip_found, lemma_splice_find, lemma_splice_index, lemma_splice_skip_after,
    no_digit_like, splice,
    splice_ok,
};
use crate::text::{
    decimal, decimal_text, find_either_from, find_from, is_digit, lemma_after_ascii_is_boundary,
    lemma_ascii_is_boundary, lemma_decimal, lemma_decimal_text_bytes, lemma_encode_utf8_concat,
    lemma_find_either_found, lemma_find_from_found, matches_at, parse_u64_spec, skip_white_space,
};

verus! {

/// A payload relayed from a shard to its clients, with where its sequence
/// number stands.
pub type BroadcastMessage = (String, Option<SequenceInfo>);

/// `itoa::Buffer::format`: the decimal text of `n`, as `n`'s `Display` impl
/// writes it (the crate states that it prints integers as libcore does).
#[verifier::external_body]
fn format_decimal(n: u64) -> (r: String)
    ensures
        r@ == decimal_text(n as nat),
{
    let mut buffer = itoa::Buffer::new();
    buffer.format(n).to_owned()
}

/// The decimal text of `n`, as written into payloads and responses.
pub fn decimal_string(n: u64) -> (r: String)
    ensures
        r@ == decimal_text(n as nat),
        encode_utf8(r@) == decimal(n as nat),
{
    let r = format_decimal(n);
    proof {
        lemma_decimal_text_bytes(n as nat);
    }
    r
}

/// The bytes of `b` with `b[start..end]` replaced by the digits of `n`.
pub open spec fn with_number(b: Seq<u8>, start: int, end: int, n: nat) -> Seq<u8> {
    b.subrange(0, start) + decimal(n) + b.subrange(end, b.len() as int)
}

/// Replaces the text at `range` of `payload` by the decimal digits of `seq`.
pub fn rewrite_sequence(payload: &str, range: &Range<usize>, seq: u64) -> (r: String)
    requires
        range.start <= range.end <= payload.spec_bytes().len(),
        is_char_boundary(payload.spec_bytes(), range.start as int),
        is_char_boundary(payload.spec_bytes(), range.end as int),
    ensures
        encode_utf8(r@) == with_number(
            payload.spec_bytes(),
            range.start as int,
            range.end as int,
            seq as nat,
        ),
{
    let ghost b = payload.spec_bytes();
    proof {
        encode_utf8_valid_utf8(payload@);
    }
    let (head, rest) = payload.split_at(range.start);
    proof {
        valid_utf8_split(b, range.start as int);
        let t = rest.spec_bytes();
        assert(t =~= b.subrange(range.start as int, b.len() as int));
        if range.end < b.len() {
            is_char_boundary_iff_not_is_continuation_byte(b, range.end as int);
            assert(t[range.end - range.start] == b[range.end as int]);
            is_char_boundary_iff_not_is_continuation_byte(t, range.end - range.start);
        } else {
            is_char_boundary_start_end_of_seq(t);
        }
    }
    let (_, tail) = rest.split_at(range.end - range.start);
    let digits = decimal_string(seq);
    let mut r = String::from_str(head);
    r.append(digits.as_str());
    r.append(tail);
    proof {
        encode_utf8_decode_utf8(head@);
        lemma_encode_utf8_concat(head@, digits@);
        lemma_encode_utf8_concat(head@ + digits@, tail@);
        assert(tail.spec_bytes() =~= b.subrange(range.end as int, b.len() as int));
        assert(head.spec_bytes() =~= b.subrange(0, range.start as int));
    }
    r
}

/// The range where the scan of a payload finds its sequence number starts
/// and ends on character boundaries, so it can be replaced in place.
pub proof fn lemma_sequence_range_on_boundaries(b: Seq<u8>)
    requires
        valid_utf8(b),
        scan_sequence(b) is Some,
    ensures
        ({
            let (v, s, e) = scan_sequence(b).unwrap();
            &&& 0 <= s <= e < b.len()
            &&& is_char_boundary(b, s)
            &&& is_char_boundary(b, e)
        }),
{
    let (v, s, e) = scan_sequence(b).unwrap();
    let key = sequence_key();
    let k = find_from(b, key, 0).unwrap();
    lemma_find_from_found(b, key, 0);
    assert(matches_at(b, key, k));
    assert(b[k + 3] == b.subrange(k, k + 4)[3]);
    lemma_after_ascii_is_boundary(b, s);
    lemma_find_either_found(b, 44, 125, s);
    lemma_ascii_is_boundary(b, e);
}

/// Prepares a shard payload for one client: a payload with a sequence number
/// gets the client's next number `seq + 1` in its place, and that number is
/// returned as the client's new count; a payload without one goes out as it
/// came and the count stays.
pub fn relay_event(payload: String, sequence: Option<SequenceInfo>, seq: usize) -> (r: (
    String,
    usize,
))
    requires
        sequence matches Some(info) ==> {
            &&& seq < usize::MAX
            &&& info.1.start <= info.1.end <= encode_utf8(payload@).len()
            &&& is_char_boundary(encode_utf8(payload@), info.1.start as int)
            &&& is_char_boundary(encode_utf8(payload@), info.1.end as int)
        },
    ensures
        match sequence {
            None => r.0@ == payload@ && r.1 == seq,
            Some(info) => r.1 == seq + 1 && encode_utf8(r.0@) == with_number(
                encode_utf8(payload@),
                info.1.start as int,
                info.1.end as int,
                (seq + 1) as nat,
            ),
        },
{
    match sequence {
        None => (payload, seq),
        Some(info) => {
            let next = seq + 1;
            let rewritten = rewrite_sequence(payload.as_str(), &info.1, next as u64);
            (rewritten, next)
        },
    }
}

proof fn lemma_find_from_same_prefix(b: Seq<u8>, c: Seq<u8>, p: Seq<u8>, i: int, k: int, m: int)
    requires
        find_from(b, p, i) == Some(k),
        0 <= i <= k,
        k + p.len() <= m,
        m <= b.len(),
        m <= c.len(),
        forall|j: int| 0 <= j < m ==> b[j] == c[j],
    ensures
        find_from(c, p, i) == Some(k),
    decreases k - i,
{
    assert(b.subrange(i, i + p.len()) =~= c.subrange(i, i + p.len()));
    lemma_find_from_found(b, p, i);
    if i < k {
        lemma_find_from_same_prefix(b, c, p, i + 1, k, m);
    }
}

proof fn lemma_find_after_digits(c: Seq<u8>, s: int, t: int, i: int)
    requires
        0 <= s <= i <= t < c.len(),
        forall|j: int| s <= j < t ==> is_digit(#[trigger] c[j]),
        c[t] == 44 || c[t] == 125,
    ensures
        find_either_from(c, 44, 125, i) == Some(t),
    decreases t - i,
{
    if i < t {
        assert(is_digit(c[i]));
        lemma_find_either_from_step(c, i);
        lemma_find_after_digits(c, s, t, i + 1);
    }
}

proof fn lemma_find_either_from_step(c: Seq<u8>, i: int)
    requires
        0 <= i < c.len(),
        c[i] != 44 && c[i] != 125,
    ensures
        find_either_from(c, 44, 125, i) == find_either_from(c, 44, 125, i + 1),
{
}

/// Replacing a payload's sequence number by `n`, at the range where the
/// scan found it, gives a payload whose scan finds `n` there: the relayed
/// payload carries the client's number and nothing else about the number's
/// place changes.
pub proof fn lemma_rewritten_sequence_reads_back(b: Seq<u8>, n: u64)
    requires
        scan_sequence(b) is Some,
    ensures
        ({
            let (v, s, e) = scan_sequence(b).unwrap();
            scan_sequence(with_number(b, s, e, n as nat)) == Some(
                (n, s, s + decimal(n as nat).len()),
            )
        }),
{
    let (v, s, e) = scan_sequence(b).unwrap();
    let key = sequence_key();
    let k = find_from(b, key, 0).unwrap();
    lemma_find_from_found(b, key, 0);
    lemma_find_either_found(b, 44, 125, s);
    let d = decimal(n as nat);
    lemma_decimal(n as nat);
    let c = with_number(b, s, e, n as nat);
    let t = s + d.len();
    assert(s == k + 4);
    assert forall|j: int| 0 <= j < s implies b[j] == c[j] by {
        assert(c[j] == b.subrange(0, s)[j]);
    }
    lemma_find_from_same_prefix(b, c, key, 0, k, s);
    assert forall|j: int| s <= j < t implies is_digit(#[trigger] c[j]) by {
        assert(c[j] == d[j - s]);
    }
    assert(c[t] == b[e]);
    lemma_find_after_digits(c, s, t, s);
    assert(c.subrange(s, t) =~= d);
    assert(is_digit(d[0]));
}

/// The event name that a scan found, as bytes.
pub open spec fn scanned_name(scan: EventScan) -> Option<Seq<u8>> {
    match scan.event_type {
        Some((name, _, _)) => Some(name),
        None => None,
    }
}

/// Every byte of text that `u64::from_str` accepts is a digit or `+`, and
/// there is at least one.
proof fn lemma_parsed_digit_like(t: Seq<u8>)
    requires
        parse_u64_spec(t) is Some,
    ensures
        t.len() > 0,
        forall|j: int| 0 <= j < t.len() ==> digit_like(#[trigger] t[j]),
{
    assert forall|j: int| 0 <= j < t.len() implies digit_like(#[trigger] t[j]) by {
        if t[0] == 43 {
            if j > 0 {
                assert(t.drop_first()[j - 1] == t[j]);
            }
        }
    }
}

/// The bytes of a key that a match of it at `k` shows.
proof fn lemma_key_bytes(b: Seq<u8>, key: Seq<u8>, k: int)
    requires
        matches_at(b, key, k),
    ensures
        forall|t: int| 0 <= t < key.len() ==> #[trigger] b[k + t] == key[t],
{
    assert forall|t: int| 0 <= t < key.len() implies #[trigger] b[k + t] == key[t] by {
        assert(b.subrange(k, k + key.len())[t] == b[k + t]);
    }
}

/// What a key `"s":` at `s - 4` shows of the bytes before `s`.
pub open spec fn after_sequence_key(b: Seq<u8>, s: int) -> bool {
    4 <= s <= b.len() && b[s - 4] == 34 && b[s - 3] == 115 && b[s - 2] == 34 && b[s - 1] == 58
}

/// Replacing a run of digits right after a key `"s":` keeps the opcode.
proof fn lemma_splice_keeps_opcode(b: Seq<u8>, s: int, e: int, d: Seq<u8>)
    requires
        splice_ok(b, s, e, d),
        after_sequence_key(b, s),
        scan_opcode(b) is Some,
    ensures
        scan_opcode(splice(b, s, e, d)) is Some,
        scan_opcode(splice(b, s, e, d)).unwrap().0 == scan_opcode(b).unwrap().0,
{
    let c = splice(b, s, e, d);
    let delta = d.len() - (e - s);
    lemma_splice_index(b, s, e, d);
    let ok = op_key();
    assert(no_digit_like(ok)) by {
        assert forall|t: int| 0 <= t < ok.len() implies !digit_like(#[trigger] ok[t]) by {}
    }
    lemma_splice_find(b, s, e, d, ok);
    lemma_find_from_found(b, ok, 0);
    let ko = find_from(b, ok, 0).unwrap();
    lemma_key_bytes(b, ok, ko);
    let from = ko + 5;
    lemma_find_either_found(b, 44, 125, from);
    let to = find_either_from(b, 44, 125, from).unwrap();
    assert(parse_u64_spec(b.subrange(from, to)) is Some);
    lemma_parsed_digit_like(b.subrange(from, to));
    if ko + 5 <= s {
        assert(ko + 5 != s) by {
            if ko + 5 == s {
                assert(b[ko + 1] == ok[1]);
            }
        }
        lemma_splice_either_before(b, s, e, d, 44, 125, from);
        assert(to < s) by {
            if to >= s {
                assert(b.subrange(from, to)[s - 1 - from] == b[s - 1]);
            }
        }
        assert(c.subrange(from, to) =~= b.subrange(from, to));
    } else {
        lemma_splice_either_after(b, s, e, d, 44, 125, from);
        assert(c.subrange(from + delta, to + delta) =~= b.subrange(from, to));
    }
}

/// Replacing a run of digits right after a key `"s":` keeps the event name.
proof fn lemma_splice_keeps_event_type(b: Seq<u8>, s: int, e: int, d: Seq<u8>)
    requires
        valid_utf8(b),
        splice_ok(b, s, e, d),
        after_sequence_key(b, s),
    ensures
        match scan_event_type(b) {
            None => scan_event_type(splice(b, s, e, d)) is None,
            Some((x, y)) => scan_event_type(splice(b, s, e, d)) matches Some((x2, y2))
                && splice(b, s, e, d).subrange(x2, y2) == b.subrange(x, y),
        },
{
    let c = splice(b, s, e, d);
    let delta = d.len() - (e - s);
    lemma_splice_index(b, s, e, d);
    let tk = event_type_key();
    assert(no_digit_like(tk)) by {
        assert forall|t: int| 0 <= t < tk.len() implies !digit_like(#[trigger] tk[t]) by {}
    }
    lemma_splice_find(b, s, e, d, tk);
    lemma_find_from_found(b, tk, 0);
    if let Some(kt) = find_from(b, tk, 0) {
        lemma_key_bytes(b, tk, kt);
        let i = kt + 4;
        if kt + 4 <= s {
            assert(kt + 4 <= s - 4) by {
                assert(b[kt + 1] == tk[1]);
                assert(b[kt + 2] == tk[2]);
                assert(b[kt + 3] == tk[3]);
            }
            assert(b[kt + 3] == tk[3]);
            lemma_after_ascii_is_boundary(b, i);
            lemma_skip_same_prefix(b, c, s - 3, i);
            let p = skip_white_space(b, i).unwrap();
            if b[p] == 34 {
                lemma_splice_either_before(b, s, e, d, 34, 34, p + 1);
                lemma_find_either_found(b, 34, 34, p + 1);
                let r = find_either_from(b, 34, 34, p + 1).unwrap();
                assert(r <= s - 2) by {
                    if r > s - 2 {
                        assert(b[s - 2] == 34);
                    }
                }
                assert(c.subrange(p + 1, r) =~= b.subrange(p + 1, r));
            }
        } else {
            lemma_splice_skip_after(b, s, e, d, i);
            lemma_skip_found(b, i);
            if let Some(p) = skip_white_space(b, i) {
                assert(c[p + delta] == b[p]);
                if b[p] == 34 {
                    lemma_splice_either_after(b, s, e, d, 34, 34, p + 1);
                    lemma_find_either_found(b, 34, 34, p + 1);
                    if let Some(r) = find_either_from(b, 34, 34, p + 1) {
                        assert(c.subrange(p + 1 + delta, r + delta) =~= b.subrange(p + 1, r));
                    }
                }
            }
        }
    }
}

/// Replacing a payload's sequence number by `n` leaves what the scan finds
/// of its opcode and its event name as it was, and the scan finds `n` as its
/// sequence number: a relayed payload is the shard's payload with only its
/// number changed.
pub proof fn lemma_rewritten_payload_keeps_op_and_name(b: Seq<u8>, n: u64)
    requires
        valid_utf8(b),
        scan_event(b) is Some,
        scan_sequence(b) is Some,
    ensures
        ({
            let (v, s, e) = scan_sequence(b).unwrap();
            let c = with_number(b, s, e, n as nat);
            &&& scan_event(c) is Some
            &&& scan_event(c).unwrap().op == scan_event(b).unwrap().op
            &&& scanned_name(scan_event(c).unwrap()) == scanned_name(scan_event(b).unwrap())
            &&& scan_event(c).unwrap().sequence == Some((n, s, s + decimal(n as nat).len()))
        }),
{
    let (v, s, e) = scan_sequence(b).unwrap();
    let d = decimal(n as nat);
    let c = with_number(b, s, e, n as nat);
    assert(c == splice(b, s, e, d));
    lemma_rewritten_sequence_reads_back(b, n);
    let ks = find_from(b, sequence_key(), 0).unwrap();
    lemma_find_from_found(b, sequence_key(), 0);
    lemma_key_bytes(b, sequence_key(), ks);
    assert(after_sequence_key(b, s)) by {
        assert(b[ks + 0] == sequence_key()[0]);
        assert(b[ks + 1] == sequence_key()[1]);
        assert(b[ks + 2] == sequence_key()[2]);
        assert(b[ks + 3] == sequence_key()[3]);
    }
    lemma_find_either_found(b, 44, 125, s);
    lemma_parsed_digit_like(b.subrange(s, e));
    assert forall|j: int| s <= j < e implies digit_like(#[trigger] b[j]) by {
        assert(b.subrange(s, e)[j - s] == b[j]);
    }
    lemma_decimal(n as nat);
    assert forall|j: int| 0 <= j < d.len() implies is_digit(#[trigger] d[j]) by {}
    assert(splice_ok(b, s, e, d));
    lemma_splice_keeps_opcode(b, s, e, d);
    lemma_splice_keeps_event_type(b, s, e, d);
}

} // verus!
