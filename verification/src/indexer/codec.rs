//! The stored form of the aggregates of a domain.

use vstd::prelude::*;

use crate::indexer::stats::{empty_record, DomainRecord, RawDomainStats};
use vstd::bytes::{lemma_auto_spec_u64_to_from_le_bytes, spec_u64_to_le_bytes};
use vstd::utf8::{encode_utf8, encode_utf8_decode_utf8};

verus! {

/// An error of the `bincode` crate.
#[verifier::external_type_specification]
#[verifier::external_body]
pub struct ExErrorKind(bincode::ErrorKind);

/// A number as it is stored: eight bytes, the least significant first.
pub open spec fn number_bytes(n: nat) -> Seq<u8> {
    spec_u64_to_le_bytes(n as u64)
}

/// A text as it is stored: the length of its UTF-8 form as a number, then
/// that form.
pub open spec fn text_bytes(text: Seq<char>) -> Seq<u8> {
    number_bytes(encode_utf8(text).len()) + encode_utf8(text)
}

/// The aggregates of a domain as they are stored: the four numbers and the
/// two addresses, one after the other.
pub open spec fn record_bytes(record: DomainRecord) -> Seq<u8> {
    number_bytes(record.page_count) + number_bytes(record.total_size) + number_bytes(
        record.min_size,
    ) + number_bytes(record.max_size) + text_bytes(record.min_url) + text_bytes(record.max_url)
}

/// The records that can be stored: each number, and the length of each
/// address in bytes, is within the range of `u64`.
pub open spec fn storable(record: DomainRecord) -> bool {
    &&& record.page_count <= u64::MAX
    &&& record.total_size <= u64::MAX
    &&& record.min_size <= u64::MAX
    &&& record.max_size <= u64::MAX
    &&& encode_utf8(record.min_url).len() <= u64::MAX
    &&& encode_utf8(record.max_url).len() <= u64::MAX
}

/// The bytes start with the stored form of the record; what follows it is
/// not looked at.
pub open spec fn decodes_to(bytes: Seq<u8>, record: DomainRecord) -> bool {
    storable(record) && record_bytes(record).is_prefix_of(bytes)
}

/// The bytes start with the stored form of some record.
pub open spec fn decodable(bytes: Seq<u8>) -> bool {
    exists|record: DomainRecord| decodes_to(bytes, record)
}

/// The record that stored bytes stand for; bytes that hold no record,
/// among them no bytes at all, stand for a domain without pages.
pub open spec fn decoded(bytes: Seq<u8>) -> DomainRecord {
    if decodable(bytes) {
        choose|record: DomainRecord| decodes_to(bytes, record)
    } else {
        empty_record()
    }
}

/// Encodes the fields of a record with `bincode::serialize`, in their
/// order: integers as eight bytes, least significant first; a string as
/// its length in bytes, written as such an integer, and its UTF-8 bytes.
#[verifier::external_body]
pub(crate) fn encode_record(stats: &RawDomainStats) -> (encoded: Result<Vec<u8>, bincode::Error>)
    ensures
        encoded matches Ok(bytes) ==> bytes@ == record_bytes(stats@),
{
    bincode::serialize(
        &(
            stats.page_count,
            stats.total_size,
            stats.min_size,
            stats.max_size,
            &stats.min_url,
            &stats.max_url,
        ),
    )
}

/// Decodes the fields of a record with `bincode::deserialize`, which reads
/// them as `bincode::serialize` writes them, accepts bytes that follow the
/// last field, and fails where the bytes end early or a string is not
/// UTF-8.
#[verifier::external_body]
pub(crate) fn decode_record(bytes: &[u8]) -> (record: Result<RawDomainStats, bincode::Error>)
    ensures
        record matches Ok(stats) ==> decodes_to(bytes@, stats@),
        record is Err ==> !decodable(bytes@),
{
    let (page_count, total_size, min_size, max_size, min_url, max_url) = bincode::deserialize(
        bytes,
    )?;
    Ok(RawDomainStats { page_count, total_size, min_size, max_size, min_url, max_url })
}

proof fn lemma_number_first(n: nat, m: nat, rest_n: Seq<u8>, rest_m: Seq<u8>)
    requires
        n <= u64::MAX,
        m <= u64::MAX,
        number_bytes(n) + rest_n == number_bytes(m) + rest_m,
    ensures
        n == m,
        rest_n == rest_m,
{
    lemma_auto_spec_u64_to_from_le_bytes();
    let a = number_bytes(n) + rest_n;
    let b = number_bytes(m) + rest_m;
    assert(number_bytes(n) =~= a.subrange(0, 8));
    assert(number_bytes(m) =~= b.subrange(0, 8));
    assert(rest_n =~= a.subrange(8, a.len() as int));
    assert(rest_m =~= b.subrange(8, b.len() as int));
}

proof fn lemma_text_first(s: Seq<char>, t: Seq<char>, rest_s: Seq<u8>, rest_t: Seq<u8>)
    requires
        encode_utf8(s).len() <= u64::MAX,
        encode_utf8(t).len() <= u64::MAX,
        text_bytes(s) + rest_s == text_bytes(t) + rest_t,
    ensures
        s == t,
        rest_s == rest_t,
{
    let es = encode_utf8(s);
    let et = encode_utf8(t);
    assert(text_bytes(s) + rest_s =~= number_bytes(es.len()) + (es + rest_s));
    assert(text_bytes(t) + rest_t =~= number_bytes(et.len()) + (et + rest_t));
    lemma_number_first(es.len(), et.len(), es + rest_s, et + rest_t);
    let a = es + rest_s;
    let b = et + rest_t;
    assert(es =~= a.subrange(0, es.len() as int));
    assert(et =~= b.subrange(0, es.len() as int));
    encode_utf8_decode_utf8(s);
    encode_utf8_decode_utf8(t);
    assert(rest_s =~= a.subrange(es.len() as int, a.len() as int));
    assert(rest_t =~= b.subrange(es.len() as int, b.len() as int));
}

/// The stored form of a record, followed by `rest`, field by field from
/// the given field on.
spec fn tail_bytes(record: DomainRecord, rest: Seq<u8>, from: nat) -> Seq<u8> {
    if from >= 6 {
        rest
    } else if from == 5 {
        text_bytes(record.max_url) + rest
    } else if from == 4 {
        text_bytes(record.min_url) + (text_bytes(record.max_url) + rest)
    } else if from == 3 {
        number_bytes(record.max_size) + (text_bytes(record.min_url) + (text_bytes(record.max_url)
            + rest))
    } else if from == 2 {
        number_bytes(record.min_size) + (number_bytes(record.max_size) + (text_bytes(
            record.min_url,
        ) + (text_bytes(record.max_url) + rest)))
    } else if from == 1 {
        number_bytes(record.total_size) + (number_bytes(record.min_size) + (number_bytes(
            record.max_size,
        ) + (text_bytes(record.min_url) + (text_bytes(record.max_url) + rest))))
    } else {
        number_bytes(record.page_count) + (number_bytes(record.total_size) + (number_bytes(
            record.min_size,
        ) + (number_bytes(record.max_size) + (text_bytes(record.min_url) + (text_bytes(
            record.max_url,
        ) + rest)))))
    }
}

proof fn lemma_tail_bytes(record: DomainRecord, rest: Seq<u8>)
    ensures
        tail_bytes(record, rest, 0) == record_bytes(record) + rest,
{
    assert(tail_bytes(record, rest, 0) =~= record_bytes(record) + rest);
}

/// Stored bytes stand for at most one record.
pub proof fn lemma_decoding_unique(bytes: Seq<u8>, a: DomainRecord, b: DomainRecord)
    requires
        decodes_to(bytes, a),
        decodes_to(bytes, b),
    ensures
        a == b,
{
    let rest_a = bytes.skip(record_bytes(a).len() as int);
    let rest_b = bytes.skip(record_bytes(b).len() as int);
    assert(bytes =~= record_bytes(a) + rest_a);
    assert(bytes =~= record_bytes(b) + rest_b);
    lemma_tail_bytes(a, rest_a);
    lemma_tail_bytes(b, rest_b);
    assert(tail_bytes(a, rest_a, 0) == tail_bytes(b, rest_b, 0));
    assert(a.page_count == b.page_count && tail_bytes(a, rest_a, 1) == tail_bytes(b, rest_b, 1))
        by {
        lemma_number_first(
            a.page_count,
            b.page_count,
            tail_bytes(a, rest_a, 1),
            tail_bytes(b, rest_b, 1),
        );
    }
    assert(a.total_size == b.total_size && tail_bytes(a, rest_a, 2) == tail_bytes(b, rest_b, 2))
        by {
        lemma_number_first(
            a.total_size,
            b.total_size,
            tail_bytes(a, rest_a, 2),
            tail_bytes(b, rest_b, 2),
        );
    }
    assert(a.min_size == b.min_size && tail_bytes(a, rest_a, 3) == tail_bytes(b, rest_b, 3)) by {
        lemma_number_first(
            a.min_size,
            b.min_size,
            tail_bytes(a, rest_a, 3),
            tail_bytes(b, rest_b, 3),
        );
    }
    assert(a.max_size == b.max_size && tail_bytes(a, rest_a, 4) == tail_bytes(b, rest_b, 4)) by {
        lemma_number_first(
            a.max_size,
            b.max_size,
            tail_bytes(a, rest_a, 4),
            tail_bytes(b, rest_b, 4),
        );
    }
    assert(a.min_url == b.min_url && tail_bytes(a, rest_a, 5) == tail_bytes(b, rest_b, 5)) by {
        lemma_text_first(a.min_url, b.min_url, tail_bytes(a, rest_a, 5), tail_bytes(b, rest_b, 5));
    }
    assert(a.max_url == b.max_url) by {
        lemma_text_first(a.max_url, b.max_url, rest_a, rest_b);
    }
}

/// What was stored is read back: the stored form of a record stands for
/// that record, whatever bytes follow it.
pub proof fn lemma_decoded_record(record: DomainRecord, rest: Seq<u8>)
    requires
        storable(record),
    ensures
        decoded(record_bytes(record) + rest) == record,
{
    let bytes = record_bytes(record) + rest;
    assert(record_bytes(record) =~= bytes.subrange(0, record_bytes(record).len() as int));
    assert(decodes_to(bytes, record));
    lemma_decoding_unique(bytes, decoded(bytes), record);
}

/// A record whose stored form is no longer than a number of the store
/// can say can be stored: its addresses are part of that form.
pub proof fn lemma_encoded_is_storable(record: DomainRecord)
    requires
        record.page_count <= u64::MAX,
        record.total_size <= u64::MAX,
        record.min_size <= u64::MAX,
        record.max_size <= u64::MAX,
        record_bytes(record).len() <= u64::MAX,
    ensures
        storable(record),
{
    lemma_auto_spec_u64_to_from_le_bytes();
    let front = number_bytes(record.page_count) + number_bytes(record.total_size) + number_bytes(
        record.min_size,
    ) + number_bytes(record.max_size);
    assert(record_bytes(record).len() == front.len() + text_bytes(record.min_url).len()
        + text_bytes(record.max_url).len());
    assert(text_bytes(record.min_url).len() >= encode_utf8(record.min_url).len());
    assert(text_bytes(record.max_url).len() >= encode_utf8(record.max_url).len());
}

/// The record that stored bytes stand for; a domain without pages where
/// they hold none.
pub fn decode_or_default(bytes: &[u8]) -> (stats: RawDomainStats)
    ensures
        stats@ == decoded(bytes@),
        storable(stats@),
{
    match decode_record(bytes) {
        Ok(stats) => {
            proof {
                lemma_decoding_unique(bytes@, decoded(bytes@), stats@);
            }
            stats
        },
        Err(_) => {
            assert(encode_utf8(Seq::<char>::empty()).len() == 0);
            RawDomainStats::default()
        },
    }
}

} // verus!
