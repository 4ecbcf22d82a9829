use vstd::prelude::*;
use vstd::string::StringSliceAdditionalSpecFns;
use vstd::utf8::encode_utf8;

use crate::error::{DkgError, RecoveryFailure};

verus! {

/// One key-value attribute of a chain event.
pub struct EventAttribute {
    pub key: String,
    pub value: String,
}

/// A chain event: its type and attributes.
pub struct Event {
    pub kind: String,
    pub attributes: Vec<EventAttribute>,
}

/// The decimal value of a sequence of ASCII digits.
pub open spec fn digits_value(b: Seq<u8>) -> nat
    decreases b.len(),
{
    if b.len() == 0 {
        0
    } else {
        digits_value(b.drop_last()) * 10 + (b.last() - 48) as nat
    }
}

pub open spec fn is_digit(c: u8) -> bool {
    48 <= c <= 57
}

/// The digits of a number written with an optional leading `+`.
pub open spec fn unsigned_digits(b: Seq<u8>) -> Seq<u8> {
    if b.len() > 0 && b[0] == 43 {
        b.drop_first()
    } else {
        b
    }
}

/// `b` writes an unsigned number: an optional `+`, then one digit or more.
pub open spec fn is_unsigned(b: Seq<u8>) -> bool {
    all_digits(unsigned_digits(b))
}

/// `d` is one ASCII digit or more.
pub open spec fn all_digits(d: Seq<u8>) -> bool {
    d.len() > 0 && forall|i: int| 0 <= i < d.len() ==> is_digit(#[trigger] d[i])
}

proof fn lemma_prefix_value_le(b: Seq<u8>, k: int)
    requires
        0 <= k <= b.len(),
        forall|i: int| 0 <= i < b.len() ==> is_digit(#[trigger] b[i]),
    ensures
        digits_value(b.subrange(0, k)) <= digits_value(b),
    decreases b.len(),
{
    if k < b.len() {
        lemma_prefix_value_le(b.drop_last(), k);
        assert(b.drop_last().subrange(0, k) =~= b.subrange(0, k));
    } else {
        assert(b.subrange(0, k) =~= b);
    }
}

/// The node index an attribute value (as bytes) holds: an unsigned decimal number that
/// fits in 64 bits, with an optional leading `+`; anything else is malformed.
pub open spec fn node_index_value(b: Seq<u8>) -> Result<u64, DkgError> {
    if is_unsigned(b) && digits_value(unsigned_digits(b)) <= u64::MAX {
        Ok(digits_value(unsigned_digits(b)) as u64)
    } else {
        Err(DkgError::NodeIndexRecoveryError { reason: RecoveryFailure::Malformed })
    }
}

/// Reads the node index from an attribute value.
pub fn parse_node_index(value: &str) -> (r: Result<u64, DkgError>)
    ensures
        r == node_index_value(value.spec_bytes()),
{
    let b = value.as_bytes();
    let ghost d = unsigned_digits(b@);
    let start: usize = if b.len() > 0 && b[0] == 43u8 { 1 } else { 0 };
    if start >= b.len() {
        proof {
            assert(d.len() == 0);
            assert(!is_unsigned(b@));
        }
        return Err(DkgError::NodeIndexRecoveryError { reason: RecoveryFailure::Malformed });
    }
    proof {
        assert(d =~= b@.subrange(start as int, b@.len() as int));
    }
    let mut acc: u64 = 0;
    let mut i: usize = start;
    while i < b.len()
        invariant
            start <= i <= b@.len(),
            d == b@.subrange(start as int, b@.len() as int),
            d == unsigned_digits(b@),
            b@ == value.spec_bytes(),
            forall|k: int| 0 <= k < i - start ==> is_digit(#[trigger] d[k]),
            acc == digits_value(d.subrange(0, i - start)),
        decreases b@.len() - i,
    {
        let c = b[i];
        if c < 48u8 || c > 57u8 {
            proof {
                assert(!is_digit(d[i - start]));
            }
            return Err(DkgError::NodeIndexRecoveryError { reason: RecoveryFailure::Malformed });
        }
        let digit = (c - 48u8) as u64;
        proof {
            assert(d.subrange(0, i - start + 1).drop_last() =~= d.subrange(0, i - start));
        }
        if acc > (u64::MAX - digit) / 10 {
            proof {
                assert(acc * 10 + digit > u64::MAX) by (nonlinear_arith)
                    requires acc > (u64::MAX - digit) / 10, digit <= 9;
                if is_unsigned(b@) {
                    lemma_prefix_value_le(d, i - start + 1);
                    assert(digits_value(d) > u64::MAX);
                }
            }
            return Err(DkgError::NodeIndexRecoveryError { reason: RecoveryFailure::Malformed });
        }
        proof {
            assert(acc * 10 + digit <= u64::MAX) by (nonlinear_arith)
                requires acc <= (u64::MAX - digit) / 10, digit <= 9;
        }
        acc = acc * 10 + digit;
        i = i + 1;
    }
    proof {
        assert(d.subrange(0, i - start) =~= d);
    }
    Ok(acc)
}

/// The event type under which the contract reports its results.
pub open spec fn contract_event_kind() -> Seq<char> {
    "wasm"@
}

/// The attribute that carries a newly registered dealer's node index.
pub open spec fn node_index_key() -> Seq<char> {
    "node_index"@
}

/// Whether attribute `j` of event `i` has the given event type and key.
pub open spec fn attribute_at(events: Seq<Event>, i: int, j: int, kind: Seq<char>, key: Seq<char>) -> bool {
    &&& 0 <= i < events.len()
    &&& 0 <= j < events[i].attributes@.len()
    &&& events[i].kind@ == kind
    &&& events[i].attributes@[j].key@ == key
}

/// Attribute `j` of event `i` is the first, in event order and then attribute order, with
/// the given event type and key.
pub open spec fn first_at(events: Seq<Event>, i: int, j: int, kind: Seq<char>, key: Seq<char>) -> bool {
    &&& attribute_at(events, i, j, kind, key)
    &&& forall|i2: int, j2: int| (i2 < i || (i2 == i && j2 < j)) ==> !#[trigger] attribute_at(events, i2, j2, kind, key)
}

proof fn lemma_first_unique(events: Seq<Event>, i: int, j: int, i2: int, j2: int, kind: Seq<char>, key: Seq<char>)
    requires
        first_at(events, i, j, kind, key),
        first_at(events, i2, j2, kind, key),
    ensures
        i == i2 && j == j2,
{
    if i < i2 || (i == i2 && j < j2) {
        assert(!attribute_at(events, i, j, kind, key));
    } else if i2 < i || (i2 == i && j2 < j) {
        assert(!attribute_at(events, i2, j2, kind, key));
    }
}

/// The value of the first attribute, in event order and then attribute order, with the
/// given event type and key.
pub fn find_attribute<'a>(events: &'a Vec<Event>, kind: &String, key: &String) -> (r: Option<&'a String>)
    ensures
        r is None <==> forall|i: int, j: int| !#[trigger] attribute_at(events@, i, j, kind@, key@),
        r matches Some(v) ==> exists|i: int, j: int| #[trigger] first_at(events@, i, j, kind@, key@) && events@[i].attributes@[j].value == *v,
{
    let mut i: usize = 0;
    while i < events.len()
        invariant
            i <= events@.len(),
            forall|i2: int, j2: int| i2 < i ==> !#[trigger] attribute_at(events@, i2, j2, kind@, key@),
        decreases events@.len() - i,
    {
        let ev = &events[i];
        if ev.kind == *kind {
            let mut j: usize = 0;
            while j < ev.attributes.len()
                invariant
                    i < events@.len(),
                    *ev == events@[i as int],
                    ev.kind@ == kind@,
                    j <= ev.attributes@.len(),
                    forall|i2: int, j2: int| i2 < i ==> !#[trigger] attribute_at(events@, i2, j2, kind@, key@),
                    forall|j2: int| j2 < j ==> !#[trigger] attribute_at(events@, i as int, j2, kind@, key@),
                decreases ev.attributes@.len() - j,
            {
                if ev.attributes[j].key == *key {
                    proof {
                        assert(first_at(events@, i as int, j as int, kind@, key@));
                    }
                    return Some(&ev.attributes[j].value);
                }
                j = j + 1;
            }
        }
        i = i + 1;
    }
    None
}

/// Recovers the node index that a registration's events report: the value of the
/// `node_index` attribute of the first contract event that carries one. With no such
/// attribute the index is not found; a value that is not an unsigned 64-bit decimal is
/// malformed.
pub fn node_index_from_events(events: &Vec<Event>) -> (r: Result<u64, DkgError>)
    ensures
        (forall|i: int, j: int| !#[trigger] attribute_at(events@, i, j, contract_event_kind(), node_index_key()))
            ==> r == Err::<u64, DkgError>(DkgError::NodeIndexRecoveryError { reason: RecoveryFailure::NotFound }),
        forall|i: int, j: int| #[trigger] first_at(events@, i, j, contract_event_kind(), node_index_key())
            ==> r == node_index_value(encode_utf8(events@[i].attributes@[j].value@)),
{
    let kind = "wasm".to_owned();
    let key = "node_index".to_owned();
    proof {
        reveal_strlit("wasm");
        reveal_strlit("node_index");
    }
    assert(kind@ == contract_event_kind());
    assert(key@ == node_index_key());
    match find_attribute(events, &kind, &key) {
        Some(v) => {
            let s = v.as_str();
            assert(s.spec_bytes() == encode_utf8(v@));
            proof {
                let (i0, j0) = choose|i: int, j: int| #[trigger] first_at(events@, i, j, kind@, key@) && events@[i].attributes@[j].value == *v;
                assert forall|i: int, j: int| #[trigger] first_at(events@, i, j, contract_event_kind(), node_index_key()) implies i == i0 && j == j0 by {
                    lemma_first_unique(events@, i, j, i0, j0, kind@, key@);
                }
            }
            parse_node_index(s)
        },
        None => Err(DkgError::NodeIndexRecoveryError { reason: RecoveryFailure::NotFound }),
    }
}

} // verus!
