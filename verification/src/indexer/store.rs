//! The store of the aggregates, on the `sled` crate.

use vstd::prelude::*;

use crate::indexer::codec::{
    decodable, decode_or_default, decode_record, decoded, decodes_to, encode_record,
    lemma_decoded_record, lemma_encoded_is_storable, record_bytes, storable,
};
use crate::indexer::document::DocumentView;
use crate::indexer::stats::{
    can_record, display_stats, displayed, empty_record, is_first_largest, is_first_smallest,
    lemma_record_tracks_extremes, recorded, recorded_all, DomainRecord, DomainStats, PageSize,
    RawDomainStats,
};
use vstd::slice::{slice_subrange, slice_to_vec};
use vstd::string::StringSliceAdditionalSpecFns;
use vstd::utf8::{encode_utf8, encode_utf8_decode_utf8, encode_utf8_valid_utf8, valid_utf8};

verus! {

/// The embedded key-value store of the `sled` crate.
#[verifier::external_type_specification]
#[verifier::external_body]
pub struct ExDb(sled::Db);

/// An error of the `sled` crate.
#[verifier::external_type_specification]
#[verifier::external_body]
pub struct ExStoreError(sled::Error);

/// What a store holds: its keys, each with its value.
pub uninterp spec fn store_entries(db: sled::Db) -> Map<Seq<u8>, Seq<u8>>;

/// Byte strings in dictionary order: the first byte that differs decides,
/// and a string comes before every longer string that starts with it.
pub open spec fn bytes_less(a: Seq<u8>, b: Seq<u8>) -> bool
    decreases a.len(),
{
    if b.len() == 0 {
        false
    } else if a.len() == 0 {
        true
    } else if a[0] != b[0] {
        a[0] < b[0]
    } else {
        bytes_less(a.drop_first(), b.drop_first())
    }
}

/// `items` is what a scan of `entries` for `prefix` yields: every entry
/// whose key starts with `prefix`, none else, each once, in ascending
/// order of the keys.
pub open spec fn is_scan_of(
    items: Seq<(Vec<u8>, Vec<u8>)>,
    entries: Map<Seq<u8>, Seq<u8>>,
    prefix: Seq<u8>,
) -> bool {
    &&& forall|i: int|
        0 <= i < items.len() ==> {
            &&& prefix.is_prefix_of((#[trigger] items[i]).0@)
            &&& entries.contains_key(items[i].0@)
            &&& entries[items[i].0@] == items[i].1@
        }
    &&& forall|i: int, j: int|
        0 <= i < j < items.len() ==> bytes_less((#[trigger] items[i]).0@, (#[trigger] items[j]).0@)
    &&& forall|key: Seq<u8>|
        #![trigger entries.contains_key(key)]
        entries.contains_key(key) && prefix.is_prefix_of(key) ==> exists|i: int|
            0 <= i < items.len() && (#[trigger] items[i]).0@ == key
}

/// Reads the value of a key, by `sled::Tree::get`: the value that the
/// store holds for the key, `None` where it holds none.
#[verifier::external_body]
pub(crate) fn db_get(db: &sled::Db, key: &[u8]) -> (found: Result<Option<Vec<u8>>, sled::Error>)
    ensures
        found matches Ok(value) ==> match value {
            Some(bytes) => store_entries(*db).contains_key(key@) && store_entries(*db)[key@]
                == bytes@,
            None => !store_entries(*db).contains_key(key@),
        },
{
    db.get(key).map(|found| found.map(|value| value.to_vec()))
}

/// Sets the value of a key, by `sled::Tree::insert`: on success the store
/// holds the value for the key and is otherwise as before.
#[verifier::external_body]
pub(crate) fn db_insert(db: &mut sled::Db, key: &[u8], value: Vec<u8>) -> (done: Result<
    (),
    sled::Error,
>)
    ensures
        done is Ok ==> store_entries(*final(db)) == store_entries(*old(db)).insert(key@, value@),
{
    db.insert(key, value).map(|_| ())
}

/// Reads every entry whose key starts with a prefix, by
/// `sled::Tree::scan_prefix`, which walks the keys in ascending order.
#[verifier::external_body]
pub(crate) fn db_scan_prefix(db: &sled::Db, prefix: &[u8]) -> (found: Result<
    Vec<(Vec<u8>, Vec<u8>)>,
    sled::Error,
>)
    ensures
        found matches Ok(items) ==> is_scan_of(items@, store_entries(*db), prefix@),
{
    db.scan_prefix(prefix).map(|item| item.map(|(key, value)| (key.to_vec(), value.to_vec()))).collect()
}

/// Turns bytes into a string, by `String::from_utf8`: the string whose
/// UTF-8 form the bytes are, `None` where they are not UTF-8.
#[verifier::external_body]
pub(crate) fn string_from_utf8(bytes: Vec<u8>) -> (text: Option<String>)
    ensures
        match text {
            Some(string) => encode_utf8(string@) == bytes@,
            None => !valid_utf8(bytes@),
        },
{
    String::from_utf8(bytes).ok()
}

/// What every key of a domain's aggregates starts with.
pub const STATS_KEY_PREFIX: &'static str = "domain:";

/// The bytes that every key of a domain's aggregates starts with.
pub open spec fn key_prefix() -> Seq<u8> {
    encode_utf8(STATS_KEY_PREFIX@)
}

/// The key under which the aggregates of a domain are stored: the prefix,
/// then the domain's name.
pub open spec fn stats_key(domain: Seq<char>) -> Seq<u8> {
    key_prefix() + encode_utf8(domain)
}

/// The aggregates that a store holds for a domain; those of a domain
/// without pages where it holds none.
pub open spec fn stored_record(entries: Map<Seq<u8>, Seq<u8>>, domain: Seq<char>) -> DomainRecord {
    if entries.contains_key(stats_key(domain)) {
        decoded(entries[stats_key(domain)])
    } else {
        empty_record()
    }
}

/// Why the aggregates of a domain could not be updated or read.
#[derive(Debug)]
pub enum StatsError {
    /// The page count or the total size would leave the range of `u64`.
    Overflow,
    /// The aggregates could not be turned into bytes.
    Encode(bincode::Error),
    /// Stored bytes hold no aggregates.
    Decode(bincode::Error),
    /// The store could not be read; nothing was written.
    Read(sled::Error),
    /// The store could not be written.
    Write(sled::Error),
    /// A stored key does not hold a domain name.
    BadKey,
}

impl StatsError {
    /// What went wrong, for the log.
    pub fn message(&self) -> (text: String)
        ensures
            self is Overflow ==> text@
                == "The page count or the total size of the domain is too large"@,
            self is BadKey ==> text@ == "A stored key holds no domain name"@,
    {
        match self {
            StatsError::Overflow => "The page count or the total size of the domain is too large".to_owned(),
            StatsError::Encode(error) => error.to_string(),
            StatsError::Decode(error) => error.to_string(),
            StatsError::Read(error) => error.to_string(),
            StatsError::Write(error) => error.to_string(),
            StatsError::BadKey => "A stored key holds no domain name".to_owned(),
        }
    }
}

/// The key under which the aggregates of a domain are stored.
pub fn stats_key_of(domain: &str) -> (key: Vec<u8>)
    ensures
        key@ == stats_key(domain@),
{
    let mut key = slice_to_vec(STATS_KEY_PREFIX.as_bytes());
    let name = domain.as_bytes();
    let mut i: usize = 0;
    while i < name.len()
        invariant
            i <= name.len(),
            name@ == encode_utf8(domain@),
            key@ == key_prefix() + name@.take(i as int),
        decreases name.len() - i,
    {
        key.push(name[i]);
        assert(name@.take(i + 1) =~= name@.take(i as int).push(name@[i as int]));
        i += 1;
    }
    assert(name@.take(name.len() as int) =~= name@);
    key
}

/// Different domains have different keys.
pub proof fn lemma_stats_key_unique(a: Seq<char>, b: Seq<char>)
    requires
        stats_key(a) == stats_key(b),
    ensures
        a == b,
{
    let p = key_prefix();
    assert(encode_utf8(a) =~= stats_key(a).skip(p.len() as int));
    assert(encode_utf8(b) =~= stats_key(b).skip(p.len() as int));
    encode_utf8_decode_utf8(a);
    encode_utf8_decode_utf8(b);
}

/// Counts one more page for a domain: reads the domain's aggregates, adds
/// the page, and writes them back. Only the entry of the domain is
/// written; a failure before the write leaves the store as it was.
pub fn update_domain_stats(db: &mut sled::Db, domain: &str, url: &str, size: u64) -> (done: Result<
    (),
    StatsError,
>)
    ensures
        match done {
            Ok(()) => {
                let before = stored_record(store_entries(*old(db)), domain@);
                &&& can_record(before, size as nat)
                &&& store_entries(*final(db)) == updated(
                    store_entries(*old(db)),
                    domain@,
                    url@,
                    size as nat,
                )
                &&& stored_record(store_entries(*final(db)), domain@) == recorded(
                    before,
                    url@,
                    size as nat,
                )
            },
            Err(StatsError::Overflow) => {
                &&& !can_record(stored_record(store_entries(*old(db)), domain@), size as nat)
                &&& store_entries(*final(db)) == store_entries(*old(db))
            },
            Err(StatsError::Encode(_)) => store_entries(*final(db)) == store_entries(*old(db)),
            Err(StatsError::Read(_)) => store_entries(*final(db)) == store_entries(*old(db)),
            Err(StatsError::Write(_)) => can_record(
                stored_record(store_entries(*old(db)), domain@),
                size as nat,
            ),
            Err(_) => false,
        },
        !can_record(stored_record(store_entries(*old(db)), domain@), size as nat) ==> done is Err
            && store_entries(*final(db)) == store_entries(*old(db)),
{
    let key = stats_key_of(domain);
    let current = match db_get(db, key.as_slice()) {
        Ok(current) => current,
        Err(error) => {
            return Err(StatsError::Read(error));
        },
    };
    let mut stats = match current {
        Some(bytes) => decode_or_default(bytes.as_slice()),
        None => {
            assert(encode_utf8(Seq::<char>::empty()).len() == 0);
            RawDomainStats::default()
        },
    };
    let ghost before = stats@;
    assert(before == stored_record(store_entries(*old(db)), domain@));
    if !stats.record(url, size) {
        return Err(StatsError::Overflow);
    }
    let bytes = match encode_record(&stats) {
        Ok(bytes) => bytes,
        Err(error) => {
            return Err(StatsError::Encode(error));
        },
    };
    proof {
        assert(record_bytes(stats@).len() == bytes.len());
        lemma_encoded_is_storable(stats@);
        lemma_decoded_record(stats@, Seq::empty());
        assert(record_bytes(stats@) + Seq::<u8>::empty() =~= record_bytes(stats@));
    }
    match db_insert(db, key.as_slice(), bytes) {
        Ok(()) => Ok(()),
        Err(error) => Err(StatsError::Write(error)),
    }
}

/// What a store holds after one more page was counted for a domain.
pub open spec fn updated(
    entries: Map<Seq<u8>, Seq<u8>>,
    domain: Seq<char>,
    url: Seq<char>,
    size: nat,
) -> Map<Seq<u8>, Seq<u8>> {
    entries.insert(
        stats_key(domain),
        record_bytes(recorded(stored_record(entries, domain), url, size)),
    )
}

/// What a store holds after the first `upto` pages of a list were counted
/// for a domain, one after the other.
pub open spec fn updated_all(
    entries: Map<Seq<u8>, Seq<u8>>,
    domain: Seq<char>,
    pages: Seq<PageSize>,
    upto: nat,
) -> Map<Seq<u8>, Seq<u8>>
    decreases upto,
{
    if upto == 0 || upto > pages.len() {
        entries
    } else {
        updated(
            updated_all(entries, domain, pages, (upto - 1) as nat),
            domain,
            pages[upto - 1].url,
            pages[upto - 1].size,
        )
    }
}

/// The pages can be counted one after the other from the given
/// aggregates on: no count and no sum leaves the range of `u64`, and no
/// address is too long to be stored.
pub open spec fn can_record_all(start: DomainRecord, pages: Seq<PageSize>, upto: nat) -> bool {
    &&& storable(start)
    &&& forall|i: int|
        0 <= i < upto && i < pages.len() ==> can_record(
            recorded_all(start, pages, i as nat),
            (#[trigger] pages[i]).size,
        ) && encode_utf8(pages[i].url).len() <= u64::MAX
}

proof fn lemma_recorded_all_storable(start: DomainRecord, pages: Seq<PageSize>, upto: nat)
    requires
        upto <= pages.len(),
        can_record_all(start, pages, upto),
    ensures
        storable(recorded_all(start, pages, upto)),
    decreases upto,
{
    if upto > 0 {
        lemma_recorded_all_storable(start, pages, (upto - 1) as nat);
        let before = recorded_all(start, pages, (upto - 1) as nat);
        assert(can_record(before, pages[upto - 1].size));
    }
}

/// Counting pages for a domain one after the other keeps the stored
/// aggregates of the domain in step with the pages: after each update the
/// store holds, for that domain, the aggregates of all pages counted so
/// far, and for every other domain what it held before.
pub proof fn lemma_updates_track_pages(
    entries: Map<Seq<u8>, Seq<u8>>,
    domain: Seq<char>,
    pages: Seq<PageSize>,
    upto: nat,
    other: Seq<char>,
)
    requires
        upto <= pages.len(),
        can_record_all(stored_record(entries, domain), pages, upto),
        other != domain,
    ensures
        stored_record(updated_all(entries, domain, pages, upto), domain) == recorded_all(
            stored_record(entries, domain),
            pages,
            upto,
        ),
        stored_record(updated_all(entries, domain, pages, upto), other) == stored_record(
            entries,
            other,
        ),
    decreases upto,
{
    if upto > 0 {
        let start = stored_record(entries, domain);
        lemma_updates_track_pages(entries, domain, pages, (upto - 1) as nat, other);
        lemma_recorded_all_storable(start, pages, upto);
        let before = updated_all(entries, domain, pages, (upto - 1) as nat);
        let record = recorded_all(start, pages, upto);
        assert(record == recorded(stored_record(before, domain), pages[upto - 1].url, pages[upto
            - 1].size));
        lemma_decoded_record(record, Seq::empty());
        assert(record_bytes(record) + Seq::<u8>::empty() =~= record_bytes(record));
        lemma_update_leaves_others(before, domain, record_bytes(record), other);
    }
}

/// What a store holds after the first `upto` documents of a list were
/// counted, each for its domain, one after the other.
pub open spec fn ingested(
    entries: Map<Seq<u8>, Seq<u8>>,
    documents: Seq<DocumentView>,
    upto: nat,
) -> Map<Seq<u8>, Seq<u8>>
    decreases upto,
{
    if upto == 0 || upto > documents.len() {
        entries
    } else {
        updated(
            ingested(entries, documents, (upto - 1) as nat),
            documents[upto - 1].domain,
            documents[upto - 1].url,
            documents[upto - 1].size,
        )
    }
}

/// How many of the first `upto` documents of a list belong to a domain.
pub open spec fn documents_of(documents: Seq<DocumentView>, domain: Seq<char>, upto: nat) -> nat
    decreases upto,
{
    if upto == 0 || upto > documents.len() {
        0
    } else {
        documents_of(documents, domain, (upto - 1) as nat) + if documents[upto - 1].domain
            == domain {
            1nat
        } else {
            0nat
        }
    }
}

/// The first `upto` documents of a list can be counted one after the
/// other: no count and no sum leaves the range of `u64`, and no address is
/// too long to be stored.
pub open spec fn can_ingest(
    entries: Map<Seq<u8>, Seq<u8>>,
    documents: Seq<DocumentView>,
    upto: nat,
) -> bool {
    forall|i: int|
        0 <= i < upto && i < documents.len() ==> can_record(
            stored_record(ingested(entries, documents, i as nat), (#[trigger] documents[i]).domain),
            documents[i].size,
        ) && encode_utf8(documents[i].url).len() <= u64::MAX
}

proof fn lemma_stored_record_storable(entries: Map<Seq<u8>, Seq<u8>>, domain: Seq<char>)
    ensures
        storable(stored_record(entries, domain)),
{
    assert(encode_utf8(Seq::<char>::empty()).len() == 0);
    if entries.contains_key(stats_key(domain)) {
        let bytes = entries[stats_key(domain)];
        if decodable(bytes) {
            let record = choose|record: DomainRecord| decodes_to(bytes, record);
            assert(decodes_to(bytes, decoded(bytes)));
        }
    }
}

/// As long as every update succeeds, the page count of a domain is the
/// number of documents of that domain that were added: each document adds
/// one page to its own domain and none to another.
#[verifier::spinoff_prover]
pub proof fn lemma_page_count_is_document_count(
    entries: Map<Seq<u8>, Seq<u8>>,
    documents: Seq<DocumentView>,
    upto: nat,
    domain: Seq<char>,
)
    requires
        upto <= documents.len(),
        can_ingest(entries, documents, upto),
    ensures
        stored_record(ingested(entries, documents, upto), domain).page_count == stored_record(
            entries,
            domain,
        ).page_count + documents_of(documents, domain, upto),
    decreases upto,
{
    if upto > 0 {
        lemma_page_count_is_document_count(entries, documents, (upto - 1) as nat, domain);
        let before = ingested(entries, documents, (upto - 1) as nat);
        let document = documents[upto - 1];
        let record = recorded(stored_record(before, document.domain), document.url, document.size);
        if document.domain == domain {
            lemma_stored_record_storable(before, domain);
            assert(can_record(stored_record(before, domain), document.size));
            lemma_decoded_record(record, Seq::empty());
            assert(record_bytes(record) + Seq::<u8>::empty() =~= record_bytes(record));
        } else {
            lemma_update_leaves_others(before, document.domain, record_bytes(record), domain);
        }
    }
}

/// Counting pages for a domain of which the store holds nothing yet
/// keeps the true extremes: after the updates the stored smallest and
/// largest size bound the sizes of all pages counted, and each comes with
/// the address of the first page that reached it.
pub proof fn lemma_updates_track_extremes(
    entries: Map<Seq<u8>, Seq<u8>>,
    domain: Seq<char>,
    pages: Seq<PageSize>,
    upto: nat,
)
    requires
        upto <= pages.len(),
        !entries.contains_key(stats_key(domain)),
        can_record_all(empty_record(), pages, upto),
        forall|i: int| 0 <= i < pages.len() ==> (#[trigger] pages[i]).size <= u64::MAX,
    ensures
        ({
            let record = stored_record(updated_all(entries, domain, pages, upto), domain);
            &&& record == recorded_all(empty_record(), pages, upto)
            &&& forall|i: int| 0 <= i < upto ==> record.min_size <= (#[trigger] pages[i]).size
                <= record.max_size
            &&& if record.min_size == u64::MAX {
                record.min_url == Seq::<char>::empty()
            } else {
                is_first_smallest(pages, upto, record.min_size, record.min_url)
            }
            &&& if record.max_size == 0 {
                record.max_url == Seq::<char>::empty()
            } else {
                is_first_largest(pages, upto, record.max_size, record.max_url)
            }
        }),
{
    let other = domain.push('x');
    assert(other.len() != domain.len());
    lemma_updates_track_pages(entries, domain, pages, upto, other);
    lemma_record_tracks_extremes(pages, upto);
}

/// Updating one domain leaves the aggregates of every other domain as
/// they were.
pub proof fn lemma_update_leaves_others(
    entries: Map<Seq<u8>, Seq<u8>>,
    domain: Seq<char>,
    bytes: Seq<u8>,
    other: Seq<char>,
)
    requires
        other != domain,
    ensures
        stored_record(entries.insert(stats_key(domain), bytes), other) == stored_record(
            entries,
            other,
        ),
{
    if stats_key(other) == stats_key(domain) {
        lemma_stats_key_unique(other, domain);
    }
}

/// Every entry of a domain holds what can be read: its key ends with a
/// domain name, and its value holds aggregates.
pub open spec fn all_readable(entries: Map<Seq<u8>, Seq<u8>>) -> bool {
    forall|key: Seq<u8>|
        #![trigger entries.contains_key(key)]
        entries.contains_key(key) && key_prefix().is_prefix_of(key) ==> decodable(entries[key])
            && valid_utf8(key.skip(key_prefix().len() as int))
}

/// `stats` shows what a store holds: one item for each stored domain, with
/// that domain's aggregates as they are shown, in ascending order of the
/// domain names; and every entry of a domain can be read.
pub open spec fn is_stats_of(stats: Seq<DomainStats>, entries: Map<Seq<u8>, Seq<u8>>) -> bool {
    &&& all_readable(entries)
    &&& forall|i: int|
        0 <= i < stats.len() ==> {
            &&& entries.contains_key(stats_key((#[trigger] stats[i]).domain@))
            &&& stats[i]@ == displayed(
                stats[i].domain@,
                decoded(entries[stats_key(stats[i].domain@)]),
            )
        }
    &&& forall|i: int, j: int|
        0 <= i < j < stats.len() ==> bytes_less(
            encode_utf8((#[trigger] stats[i]).domain@),
            encode_utf8((#[trigger] stats[j]).domain@),
        )
    &&& forall|key: Seq<u8>|
        #![trigger entries.contains_key(key)]
        entries.contains_key(key) && key_prefix().is_prefix_of(key) ==> exists|i: int|
            0 <= i < stats.len() && stats_key((#[trigger] stats[i]).domain@) == key
}

proof fn lemma_bytes_less_without_prefix(prefix: Seq<u8>, a: Seq<u8>, b: Seq<u8>)
    requires
        bytes_less(prefix + a, prefix + b),
    ensures
        bytes_less(a, b),
    decreases prefix.len(),
{
    if prefix.len() > 0 {
        let rest = prefix.drop_first();
        assert((prefix + a).drop_first() =~= rest + a);
        assert((prefix + b).drop_first() =~= rest + b);
        lemma_bytes_less_without_prefix(rest, a, b);
    } else {
        assert(prefix + a =~= a);
        assert(prefix + b =~= b);
    }
}

/// The aggregates of every stored domain as they are shown, sorted by
/// domain name.
pub fn get_domain_stats(db: &sled::Db) -> (found: Result<Vec<DomainStats>, StatsError>)
    ensures
        match found {
            Ok(stats) => is_stats_of(stats@, store_entries(*db)),
            Err(StatsError::BadKey) => exists|key: Seq<u8>|
                #![trigger store_entries(*db).contains_key(key)]
                store_entries(*db).contains_key(key) && key_prefix().is_prefix_of(key)
                    && !valid_utf8(key.skip(key_prefix().len() as int)),
            Err(StatsError::Decode(_)) => exists|key: Seq<u8>|
                #![trigger store_entries(*db).contains_key(key)]
                store_entries(*db).contains_key(key) && key_prefix().is_prefix_of(key)
                    && !decodable(store_entries(*db)[key]),
            Err(StatsError::Read(_)) => true,
            Err(_) => false,
        },
{
    let prefix = STATS_KEY_PREFIX.as_bytes();
    let items = match db_scan_prefix(db, prefix) {
        Ok(items) => items,
        Err(error) => {
            return Err(StatsError::Read(error));
        },
    };
    let ghost entries = store_entries(*db);
    let mut stats: Vec<DomainStats> = Vec::new();
    let mut i: usize = 0;
    while i < items.len()
        invariant
            i <= items.len(),
            stats.len() == i,
            prefix@ == key_prefix(),
            entries == store_entries(*db),
            is_scan_of(items@, entries, key_prefix()),
            forall|k: int|
                0 <= k < i ==> stats_key((#[trigger] stats@[k]).domain@) == items@[k].0@ && stats@[k]@
                    == displayed(stats@[k].domain@, decoded(items@[k].1@)) && decodable(
                    items@[k].1@,
                ) && valid_utf8(items@[k].0@.skip(key_prefix().len() as int)),
        decreases items.len() - i,
    {
        let key = items[i].0.as_slice();
        let value = items[i].1.as_slice();
        assert(key_prefix().is_prefix_of(items@[i as int].0@));
        let name = slice_to_vec(slice_subrange(key, prefix.len(), key.len()));
        assert(key@ =~= key_prefix() + name@);
        assert(name@ =~= key@.skip(key_prefix().len() as int));
        let domain = match string_from_utf8(name) {
            Some(domain) => domain,
            None => {
                assert(entries.contains_key(key@));
                return Err(StatsError::BadKey);
            },
        };
        let raw = match decode_record(value) {
            Ok(raw) => raw,
            Err(error) => {
                assert(entries.contains_key(key@));
                return Err(StatsError::Decode(error));
            },
        };
        proof {
            crate::indexer::codec::lemma_decoding_unique(value@, decoded(value@), raw@);
            encode_utf8_valid_utf8(domain@);
        }
        stats.push(display_stats(domain, raw));
        i += 1;
    }
    proof {
        assert forall|a: int, b: int| 0 <= a < b < stats@.len() implies bytes_less(
            encode_utf8((#[trigger] stats@[a]).domain@),
            encode_utf8((#[trigger] stats@[b]).domain@),
        ) by {
            assert(bytes_less(items@[a].0@, items@[b].0@));
            lemma_bytes_less_without_prefix(
                key_prefix(),
                encode_utf8(stats@[a].domain@),
                encode_utf8(stats@[b].domain@),
            );
        }
        assert forall|key: Seq<u8>|
            #![trigger entries.contains_key(key)]
            entries.contains_key(key) && key_prefix().is_prefix_of(key) implies (exists|k: int|
            0 <= k < stats@.len() && stats_key((#[trigger] stats@[k]).domain@) == key)
            && decodable(entries[key]) && valid_utf8(key.skip(key_prefix().len() as int)) by {
            let k = choose|k: int| 0 <= k < items@.len() && (#[trigger] items@[k]).0@ == key;
            assert(stats_key(stats@[k].domain@) == key);
        }
    }
    Ok(stats)
}

} // verus!
