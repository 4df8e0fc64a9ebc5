//! Finds the opcode, the sequence number and the event name of a gateway
//! payload by scanning its text for the keys `"op":`, `"s":` and `"t":`,
//! without parsing the JSON. Each finding carries the byte range where its
//! value stands, so that the value can later be replaced in place.
use std::ops::Range;
use vstd::prelude::*;
use vstd::string::StringSliceAdditionalSpecFns;
use vstd::utf8::*;

use crate::text::{
    find_bytes, find_either, find_either_from, find_from, lemma_after_ascii_is_boundary,
    lemma_ascii_is_boundary, lemma_find_either_found, lemma_find_from_found, matches_at, parse_u64,
    parse_u64_spec, skip_white, skip_white_space,
};

verus! {

/// Where the opcode, the sequence number and the event name of a payload
/// stand, as found by [`GatewayEvent::from_json`].
#[derive(Debug, Eq, PartialEq)]
pub struct GatewayEvent<'a> {
    event_type: Option<EventTypeInfo<'a>>,
    op: OpInfo,
    sequence: Option<SequenceInfo>,
}

/// An opcode and the byte range of its digits.
#[derive(Debug, Eq, PartialEq)]
pub struct OpInfo(pub u8, pub Range<usize>);

/// An event name and the byte range that it occupies between its quotes.
#[derive(Debug, Eq, PartialEq)]
pub struct EventTypeInfo<'a>(pub &'a str, pub Range<usize>);

/// A sequence number and the byte range of its digits.
#[derive(Debug, Eq, PartialEq)]
pub struct SequenceInfo(pub u64, pub Range<usize>);


impl Clone for OpInfo {
    fn clone(&self) -> (r: Self)
        ensures
            r == *self,
    {
        OpInfo(self.0, self.1.start..self.1.end)
    }
}

impl Clone for SequenceInfo {
    fn clone(&self) -> (r: Self)
        ensures
            r == *self,
    {
        SequenceInfo(self.0, self.1.start..self.1.end)
    }
}

impl<'a> Clone for EventTypeInfo<'a> {
    fn clone(&self) -> (r: Self)
        ensures
            r == *self,
    {
        EventTypeInfo(self.0, self.1.start..self.1.end)
    }
}

impl<'a> Clone for GatewayEvent<'a> {
    fn clone(&self) -> (r: Self)
        ensures
            r == *self,
    {
        GatewayEvent {
            event_type: match &self.event_type {
                Some(t) => Some(t.clone()),
                None => None,
            },
            op: self.op.clone(),
            sequence: match &self.sequence {
                Some(s) => Some(s.clone()),
                None => None,
            },
        }
    }
}

/// The bytes of the key `"op":`.
pub open spec fn op_key() -> Seq<u8> {
    seq![34u8, 111u8, 112u8, 34u8, 58u8]
}

/// The bytes of the key `"s":`.
pub open spec fn sequence_key() -> Seq<u8> {
    seq![34u8, 115u8, 34u8, 58u8]
}

/// The bytes of the key `"t":`.
pub open spec fn event_type_key() -> Seq<u8> {
    seq![34u8, 116u8, 34u8, 58u8]
}

/// The number written after the first occurrence of `key`, up to the next
/// `,` or `}`, with the byte range of that text: the text must be what
/// `u64::from_str` accepts, so white space around the digits is refused.
pub open spec fn scan_integer(b: Seq<u8>, key: Seq<u8>) -> Option<(u64, int, int)> {
    match find_from(b, key, 0) {
        None => None,
        Some(k) => {
            let from = k + key.len();
            match find_either_from(b, 44, 125, from) {
                None => None,
                Some(to) => match parse_u64_spec(b.subrange(from, to)) {
                    None => None,
                    Some(v) => Some((v, from, to)),
                },
            }
        },
    }
}

/// The opcode of a payload: the number after `"op":`, which must fit in a
/// byte.
pub open spec fn scan_opcode(b: Seq<u8>) -> Option<(u8, int, int)> {
    match scan_integer(b, op_key()) {
        Some((v, from, to)) => if v <= 255 {
            Some((v as u8, from, to))
        } else {
            None
        },
        None => None,
    }
}

/// The sequence number of a payload: the number after `"s":`.
pub open spec fn scan_sequence(b: Seq<u8>) -> Option<(u64, int, int)> {
    scan_integer(b, sequence_key())
}

/// The event name of a payload: after the first `"t":` and any white space
/// there must stand a quote; the name runs from just after it up to the
/// next quote.
pub open spec fn scan_event_type(b: Seq<u8>) -> Option<(int, int)> {
    match find_from(b, event_type_key(), 0) {
        None => None,
        Some(k) => match skip_white_space(b, k + 4) {
            None => None,
            Some(p) => if b[p] != 34 {
                None
            } else {
                match find_either_from(b, 34, 34, p + 1) {
                    None => None,
                    Some(e) => Some((p + 1, e)),
                }
            },
        },
    }
}

/// What the scan of a payload finds: the opcode, the sequence number and the
/// event name (its bytes), each with the byte range of its value.
pub struct EventScan {
    pub op: u8,
    pub op_range: (int, int),
    pub sequence: Option<(u64, int, int)>,
    pub event_type: Option<(Seq<u8>, int, int)>,
}

/// The scan of a payload's bytes; there is none when no opcode is found.
pub open spec fn scan_event(b: Seq<u8>) -> Option<EventScan> {
    match scan_opcode(b) {
        None => None,
        Some((op, from, to)) => Some(
            EventScan {
                op,
                op_range: (from, to),
                sequence: scan_sequence(b),
                event_type: match scan_event_type(b) {
                    None => None,
                    Some((s, e)) => Some((b.subrange(s, e), s, e)),
                },
            },
        ),
    }
}

impl<'a> GatewayEvent<'a> {
    /// What the event holds, in the terms of [`scan_event`].
    pub closed spec fn scan(&self) -> EventScan {
        EventScan {
            op: self.op.0,
            op_range: (self.op.1.start as int, self.op.1.end as int),
            sequence: match self.sequence {
                None => None,
                Some(s) => Some((s.0, s.1.start as int, s.1.end as int)),
            },
            event_type: match self.event_type {
                None => None,
                Some(t) => Some((t.0.spec_bytes(), t.1.start as int, t.1.end as int)),
            },
        }
    }

    /// Create a gateway event deserializer with some information found by
    /// scanning the JSON payload to deserialise.
    ///
    /// This will scan the payload for the opcode and, optionally, event type if
    /// provided. The opcode key ("op"), must be in the payload while the event
    /// type key ("t") is optional and only required for event ops.
    pub fn from_json(input: &'a str) -> (r: Option<Self>)
        ensures
            r is Some <==> scan_event(input.spec_bytes()) is Some,
            r matches Some(ev) ==> ev.scan() == scan_event(input.spec_bytes()).unwrap(),
    {
        let op = match Self::find_opcode(input) {
            Some(op) => op,
            None => return None,
        };
        let event_type = Self::find_event_type(input);
        let sequence = Self::find_sequence(input);
        let ev = GatewayEvent { event_type, op, sequence };
        Some(ev)
    }

    /// Return the opcode of the payload.
    pub fn op(&self) -> (r: u8)
        ensures
            r == self.scan().op,
    {
        self.op.0
    }

    /// Consume the deserializer, returning its opcode and event type
    /// components.
    pub fn into_parts(self) -> (r: (OpInfo, Option<SequenceInfo>, Option<EventTypeInfo<'a>>))
        ensures
            r.0.0 == self.scan().op,
            (r.0.1.start as int, r.0.1.end as int) == self.scan().op_range,
            match r.1 {
                None => self.scan().sequence is None,
                Some(s) => self.scan().sequence == Some((s.0, s.1.start as int, s.1.end as int)),
            },
            match r.2 {
                None => self.scan().event_type is None,
                Some(t) => self.scan().event_type == Some(
                    (t.0.spec_bytes(), t.1.start as int, t.1.end as int),
                ),
            },
    {
        (self.op, self.sequence, self.event_type)
    }

    /// The event name after the first `"t":`, if a quoted string stands
    /// there, with its byte range between the quotes.
    pub fn find_event_type(input: &'a str) -> (r: Option<EventTypeInfo<'a>>)
        ensures
            match r {
                None => scan_event_type(input.spec_bytes()) is None,
                Some(t) => scan_event_type(input.spec_bytes()) == Some(
                    (t.1.start as int, t.1.end as int),
                ) && t.0.spec_bytes() == input.spec_bytes().subrange(
                    t.1.start as int,
                    t.1.end as int,
                ),
            },
    {
        let b = input.as_bytes();
        proof {
            encode_utf8_valid_utf8(input@);
        }
        let key: [u8; 4] = [34, 116, 34, 58];
        assert(key@ == event_type_key());
        // The event type key sits at the front of Discord's payloads, before
        // the data.
        let k = match find_bytes(b, &key, 0) {
            Some(k) => k,
            None => return None,
        };
        proof {
            lemma_find_from_found(b@, key@, 0);
            assert(matches_at(b@, key@, k as int));
            assert(b@.subrange(k as int, k + 4)[3] == b@[k + 3]);
        }
        let n = b.len();
        assert(k + 4 <= n);
        let from = k + 4;
        proof {
            lemma_after_ascii_is_boundary(b@, from as int);
        }
        // The value may be a string or null, or maybe something else; only a
        // string names an event.
        let p = match skip_white(b, from) {
            Some(p) => p,
            None => return None,
        };
        if b[p] != 34 {
            return None;
        }
        let start = p + 1;
        let e = match find_either(b, 34, 34, start) {
            Some(e) => e,
            None => return None,
        };
        proof {
            lemma_find_either_found(b@, 34, 34, start as int);
            lemma_after_ascii_is_boundary(b@, start as int);
        }
        let (_, tail) = input.split_at(start);
        proof {
            valid_utf8_split(b@, start as int);
            assert(tail.spec_bytes()[e - start] == b@[e as int]);
            lemma_ascii_is_boundary(tail.spec_bytes(), e - start);
        }
        let (name, _) = tail.split_at(e - start);
        assert(name.spec_bytes() =~= b@.subrange(start as int, e as int));
        Some(EventTypeInfo(name, start..e))
    }

    /// The opcode after the first `"op":`, if it fits in a byte.
    pub fn find_opcode(input: &'a str) -> (r: Option<OpInfo>)
        ensures
            match r {
                None => scan_opcode(input.spec_bytes()) is None,
                Some(o) => scan_opcode(input.spec_bytes()) == Some(
                    (o.0, o.1.start as int, o.1.end as int),
                ),
            },
    {
        let key: [u8; 5] = [34, 111, 112, 34, 58];
        assert(key@ == op_key());
        match Self::find_integer(input, &key) {
            Some((v, range)) => if v <= 255 {
                Some(OpInfo(v as u8, range))
            } else {
                None
            },
            None => None,
        }
    }

    /// The sequence number after the first `"s":`.
    pub fn find_sequence(input: &'a str) -> (r: Option<SequenceInfo>)
        ensures
            match r {
                None => scan_sequence(input.spec_bytes()) is None,
                Some(s) => scan_sequence(input.spec_bytes()) == Some(
                    (s.0, s.1.start as int, s.1.end as int),
                ),
            },
    {
        let key: [u8; 4] = [34, 115, 34, 58];
        assert(key@ == sequence_key());
        match Self::find_integer(input, &key) {
            Some((v, range)) => Some(SequenceInfo(v, range)),
            None => None,
        }
    }

    /// The number after the first occurrence of `key`, up to the next `,` or
    /// `}`, untrimmed, with its byte range.
    pub fn find_integer(input: &'a str, key: &[u8]) -> (r: Option<(u64, Range<usize>)>)
        ensures
            match r {
                None => scan_integer(input.spec_bytes(), key@) is None,
                Some((v, range)) => scan_integer(input.spec_bytes(), key@) == Some(
                    (v, range.start as int, range.end as int),
                ),
            },
    {
        let b = input.as_bytes();
        // Find the key's position and then search for where the first comma
        // (denoting another JSON field) or curly brace (end of the object)
        // is. What lies between is the number.
        let k = match find_bytes(b, key, 0) {
            Some(k) => k,
            None => return None,
        };
        proof {
            lemma_find_from_found(b@, key@, 0);
            assert(matches_at(b@, key@, k as int));
        }
        let n = b.len();
        assert(k + key@.len() <= n);
        let from = k + key.len();
        let to = match find_either(b, 44, 125, from) {
            Some(to) => to,
            None => return None,
        };
        proof {
            lemma_find_either_found(b@, 44, 125, from as int);
        }
        match parse_u64(b, from, to) {
            Some(v) => Some((v, from..to)),
            None => None,
        }
    }
}

} // verus!
