//! What the proxy decides when it starts: which shards it runs, and the
//! activity text of each shard.
use vstd::prelude::*;
use vstd::string::{StringExecFns, StringSliceAdditionalSpecFns};
use vstd::utf8::*;

use crate::relay::decimal_string;
use crate::text::{
    decimal, find_bytes, find_from, lemma_after_ascii_is_boundary, lemma_ascii_is_boundary,
    lemma_encode_utf8_concat, lemma_find_from_found, matches_at,
};

verus! {

/// The shards that the proxy runs: shard IDs `start` up to, not including,
/// `end`, out of `count` in total.
#[derive(Clone, Copy, Debug, PartialEq, Eq)]
pub struct ShardPlan {
    pub count: u32,
    pub start: u32,
    pub end: u32,
}

/// Picks the shards to run: the configured shard count, else the one that
/// Discord recommends; the configured first shard, else 0; the configured
/// end, else the count.
pub fn shard_plan(
    configured_count: Option<u32>,
    recommended_count: u32,
    configured_start: Option<u32>,
    configured_end: Option<u32>,
) -> (r: ShardPlan)
    ensures
        r.count == (match configured_count {
            Some(c) => c,
            None => recommended_count,
        }),
        r.start == (match configured_start {
            Some(s) => s,
            None => 0,
        }),
        r.end == (match configured_end {
            Some(e) => e,
            None => r.count,
        }),
{
    let count = match configured_count {
        Some(c) => c,
        None => recommended_count,
    };
    let start = match configured_start {
        Some(s) => s,
        None => 0,
    };
    let end = match configured_end {
        Some(e) => e,
        None => count,
    };
    ShardPlan { count, start, end }
}

/// The bytes of the placeholder `{{shard}}`.
pub open spec fn placeholder() -> Seq<u8> {
    seq![123u8, 123u8, 115u8, 104u8, 97u8, 114u8, 100u8, 125u8, 125u8]
}

/// `b` with every occurrence of `p`, taken from left to right without
/// overlaps, replaced by `r`, as `str::replace` does.
pub open spec fn replace_all(b: Seq<u8>, p: Seq<u8>, r: Seq<u8>) -> Seq<u8>
    decreases b.len(),
{
    if p.len() == 0 {
        b
    } else {
        match find_from(b, p, 0) {
            None => b,
            Some(i) => {
                if 0 <= i && i + p.len() <= b.len() {
                    b.subrange(0, i) + r + replace_all(b.subrange(i + p.len(), b.len() as int), p, r)
                } else {
                    b
                }
            },
        }
    }
}

/// The activity text of a shard: every `{{shard}}` in `name` replaced by the
/// shard's ID.
pub fn activity_name(name: &str, shard_id: u32) -> (r: String)
    ensures
        encode_utf8(r@) == replace_all(name.spec_bytes(), placeholder(), decimal(shard_id as nat)),
{
    let digits = decimal_string(shard_id as u64);
    let pattern: [u8; 9] = [123, 123, 115, 104, 97, 114, 100, 125, 125];
    assert(pattern@ == placeholder());
    let mut out = String::new();
    let mut rest = name;
    proof {
        encode_utf8_valid_utf8(name@);
        assert(encode_utf8(out@) =~= Seq::<u8>::empty());
    }
    loop
        invariant
            pattern@ == placeholder(),
            encode_utf8(digits@) == decimal(shard_id as nat),
            valid_utf8(rest.spec_bytes()),
            encode_utf8(out@) + replace_all(rest.spec_bytes(), placeholder(), decimal(shard_id as nat))
                == replace_all(name.spec_bytes(), placeholder(), decimal(shard_id as nat)),
        decreases rest.spec_bytes().len(),
    {
        let ghost b = rest.spec_bytes();
        proof {
            encode_utf8_valid_utf8(rest@);
        }
        match find_bytes(rest.as_bytes(), &pattern, 0) {
            None => {
                let ghost before = out@;
                out.append(rest);
                proof {
                    lemma_encode_utf8_concat(before, rest@);
                    encode_utf8_decode_utf8(rest@);
                }
                return out;
            },
            Some(i) => {
                proof {
                    lemma_find_from_found(b, placeholder(), 0);
                    assert(matches_at(b, placeholder(), i as int));
                    assert(b[i as int] == b.subrange(i as int, i + 9)[0]);
                    lemma_ascii_is_boundary(b, i as int);
                }
                let (head, tail) = rest.split_at(i);
                proof {
                    valid_utf8_split(b, i as int);
                    let t = tail.spec_bytes();
                    assert(t[8] == b.subrange(i as int, i + 9)[8]);
                    lemma_after_ascii_is_boundary(t, 9);
                }
                let (_, after) = tail.split_at(9);
                let ghost before = out@;
                out.append(head);
                out.append(digits.as_str());
                proof {
                    let t = tail.spec_bytes();
                    valid_utf8_split(t, 9);
                    encode_utf8_decode_utf8(head@);
                    lemma_encode_utf8_concat(before, head@);
                    lemma_encode_utf8_concat(before + head@, digits@);
                    assert(head.spec_bytes() =~= b.subrange(0, i as int));
                    assert(after.spec_bytes() =~= b.subrange(i + 9, b.len() as int));
                    assert(encode_utf8(out@) + replace_all(after.spec_bytes(), placeholder(), decimal(
                        shard_id as nat,
                    )) =~= encode_utf8(before) + replace_all(b, placeholder(), decimal(
                        shard_id as nat,
                    )));
                }
                rest = after;
            },
        }
    }
}

} // verus!
