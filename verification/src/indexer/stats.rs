//! The aggregates of a domain: how they grow page by page, and how they
//! are shown.

use vstd::prelude::*;

verus! {

/// The running aggregates of one domain, as a mathematical record.
pub struct DomainRecord {
    pub page_count: nat,
    pub total_size: nat,
    pub min_size: nat,
    pub max_size: nat,
    pub min_url: Seq<char>,
    pub max_url: Seq<char>,
}

/// One recorded page: its address and the size of its text in bytes.
pub struct PageSize {
    pub url: Seq<char>,
    pub size: nat,
}

/// The running aggregates of one domain, as they are stored.
#[derive(Debug)]
pub struct RawDomainStats {
    pub page_count: u64,
    pub total_size: u64,
    pub min_size: u64,
    pub max_size: u64,
    pub min_url: String,
    pub max_url: String,
}

/// The aggregates of a domain of which no page was recorded: no pages, no
/// bytes, the smallest size at the top of its range, no addresses.
pub open spec fn empty_record() -> DomainRecord {
    DomainRecord {
        page_count: 0,
        total_size: 0,
        min_size: u64::MAX as nat,
        max_size: 0,
        min_url: Seq::empty(),
        max_url: Seq::empty(),
    }
}

/// The aggregates after one more page: one page and its bytes are added;
/// a size below the smallest so far sets the smallest size and its address,
/// a size above the largest so far sets the largest size and its address.
pub open spec fn recorded(record: DomainRecord, url: Seq<char>, size: nat) -> DomainRecord {
    DomainRecord {
        page_count: record.page_count + 1,
        total_size: record.total_size + size,
        min_size: if size < record.min_size {
            size
        } else {
            record.min_size
        },
        max_size: if size > record.max_size {
            size
        } else {
            record.max_size
        },
        min_url: if size < record.min_size {
            url
        } else {
            record.min_url
        },
        max_url: if size > record.max_size {
            url
        } else {
            record.max_url
        },
    }
}

/// Whether one more page of this size can be counted without leaving the
/// range of the stored numbers.
pub open spec fn can_record(record: DomainRecord, size: nat) -> bool {
    record.page_count + 1 <= u64::MAX && record.total_size + size <= u64::MAX
}

/// The aggregates after the first `upto` pages of a list, recorded in
/// order, starting from `start`.
pub open spec fn recorded_all(start: DomainRecord, pages: Seq<PageSize>, upto: nat) -> DomainRecord
    decreases upto,
{
    if upto == 0 || upto > pages.len() {
        start
    } else {
        recorded(
            recorded_all(start, pages, (upto - 1) as nat),
            pages[upto - 1].url,
            pages[upto - 1].size,
        )
    }
}

/// The sum of the sizes of the first `upto` pages of a list.
pub open spec fn size_sum(pages: Seq<PageSize>, upto: nat) -> nat
    decreases upto,
{
    if upto == 0 || upto > pages.len() {
        0
    } else {
        size_sum(pages, (upto - 1) as nat) + pages[upto - 1].size
    }
}

impl View for RawDomainStats {
    type V = DomainRecord;

    open spec fn view(&self) -> DomainRecord {
        DomainRecord {
            page_count: self.page_count as nat,
            total_size: self.total_size as nat,
            min_size: self.min_size as nat,
            max_size: self.max_size as nat,
            min_url: self.min_url@,
            max_url: self.max_url@,
        }
    }
}

impl Default for RawDomainStats {
    fn default() -> (stats: Self)
        ensures
            stats@ == empty_record(),
    {
        RawDomainStats {
            page_count: 0,
            total_size: 0,
            min_size: u64::MAX,
            max_size: 0,
            min_url: String::new(),
            max_url: String::new(),
        }
    }
}

impl RawDomainStats {
    /// Counts one more page. Where the page count or the total size would
    /// leave the range of `u64`, nothing is changed and `false` is returned.
    pub fn record(&mut self, url: &str, size: u64) -> (counted: bool)
        ensures
            counted == can_record(old(self)@, size as nat),
            counted ==> final(self)@ == recorded(old(self)@, url@, size as nat),
            !counted ==> *final(self) == *old(self),
    {
        if self.page_count == u64::MAX || size > u64::MAX - self.total_size {
            return false;
        }
        self.page_count += 1;
        self.total_size += size;
        if size < self.min_size {
            self.min_size = size;
            self.min_url = url.to_owned();
        }
        if size > self.max_size {
            self.max_size = size;
            self.max_url = url.to_owned();
        }
        true
    }
}

/// Recording pages one after the other counts each page once and adds up
/// the sizes exactly; every step adds one page and that page's size.
pub proof fn lemma_record_counts(start: DomainRecord, pages: Seq<PageSize>, upto: nat)
    requires
        upto <= pages.len(),
    ensures
        recorded_all(start, pages, upto).page_count == start.page_count + upto,
        recorded_all(start, pages, upto).total_size == start.total_size + size_sum(pages, upto),
        upto > 0 ==> recorded_all(start, pages, upto).page_count == recorded_all(
            start,
            pages,
            (upto - 1) as nat,
        ).page_count + 1,
        upto > 0 ==> recorded_all(start, pages, upto).total_size == recorded_all(
            start,
            pages,
            (upto - 1) as nat,
        ).total_size + pages[upto - 1].size,
    decreases upto,
{
    if upto > 0 {
        lemma_record_counts(start, pages, (upto - 1) as nat);
    }
}

/// The first `upto` pages of a list hold a page of this size and address
/// at a place before which every page is larger.
pub open spec fn is_first_smallest(pages: Seq<PageSize>, upto: nat, size: nat, url: Seq<char>) -> bool {
    exists|j: int|
        0 <= j < upto && j < pages.len() && (#[trigger] pages[j]).size == size && pages[j].url == url
            && forall|i: int| 0 <= i < j ==> (#[trigger] pages[i]).size > size
}

/// The first `upto` pages of a list hold a page of this size and address
/// at a place before which every page is smaller.
pub open spec fn is_first_largest(pages: Seq<PageSize>, upto: nat, size: nat, url: Seq<char>) -> bool {
    exists|j: int|
        0 <= j < upto && j < pages.len() && (#[trigger] pages[j]).size == size && pages[j].url == url
            && forall|i: int| 0 <= i < j ==> (#[trigger] pages[i]).size < size
}

/// After pages were recorded from nothing, the smallest and the largest
/// size stored are the true extremes of what was seen: no page is smaller
/// than the smallest or larger than the largest. Each extreme comes with
/// the address of the first page that reached it; a later page of the
/// same size does not replace the address. Where no page was smaller than
/// the top of the range, the smallest size is that top and its address is
/// empty; where no page was larger than zero, the largest size is zero
/// and its address is empty.
pub proof fn lemma_record_tracks_extremes(pages: Seq<PageSize>, upto: nat)
    requires
        upto <= pages.len(),
        forall|i: int| 0 <= i < pages.len() ==> (#[trigger] pages[i]).size <= u64::MAX,
    ensures
        forall|i: int|
            0 <= i < upto ==> recorded_all(empty_record(), pages, upto).min_size <= (
            #[trigger] pages[i]).size <= recorded_all(empty_record(), pages, upto).max_size,
        ({
            let record = recorded_all(empty_record(), pages, upto);
            if record.min_size == u64::MAX {
                record.min_url == Seq::<char>::empty()
            } else {
                is_first_smallest(pages, upto, record.min_size, record.min_url)
            }
        }),
        ({
            let record = recorded_all(empty_record(), pages, upto);
            if record.max_size == 0 {
                record.max_url == Seq::<char>::empty()
            } else {
                is_first_largest(pages, upto, record.max_size, record.max_url)
            }
        }),
    decreases upto,
{
    if upto > 0 {
        let before = recorded_all(empty_record(), pages, (upto - 1) as nat);
        let after = recorded_all(empty_record(), pages, upto);
        lemma_record_tracks_extremes(pages, (upto - 1) as nat);
        let last = pages[upto - 1];
        assert(after == recorded(before, last.url, last.size));
        if after.min_size != u64::MAX {
            if last.size < before.min_size {
                let j = upto - 1;
                assert(pages[j].size == after.min_size && pages[j].url == after.min_url);
                assert forall|i: int| 0 <= i < j implies (#[trigger] pages[i]).size
                    > after.min_size by {
                    assert(before.min_size <= pages[i].size);
                }
                assert(is_first_smallest(pages, upto, after.min_size, after.min_url));
            } else {
                let j = choose|j: int|
                    0 <= j < upto - 1 && j < pages.len() && (#[trigger] pages[j]).size
                        == before.min_size && pages[j].url == before.min_url && forall|i: int|
                        0 <= i < j ==> (#[trigger] pages[i]).size > before.min_size;
                assert(pages[j].size == after.min_size && pages[j].url == after.min_url);
                assert(is_first_smallest(pages, upto, after.min_size, after.min_url));
            }
        }
        if after.max_size != 0 {
            if last.size > before.max_size {
                let j = upto - 1;
                assert(pages[j].size == after.max_size && pages[j].url == after.max_url);
                assert forall|i: int| 0 <= i < j implies (#[trigger] pages[i]).size
                    < after.max_size by {
                    assert(pages[i].size <= before.max_size);
                }
                assert(is_first_largest(pages, upto, after.max_size, after.max_url));
            } else {
                let j = choose|j: int|
                    0 <= j < upto - 1 && j < pages.len() && (#[trigger] pages[j]).size
                        == before.max_size && pages[j].url == before.max_url && forall|i: int|
                        0 <= i < j ==> (#[trigger] pages[i]).size < before.max_size;
                assert(pages[j].size == after.max_size && pages[j].url == after.max_url);
                assert(is_first_largest(pages, upto, after.max_size, after.max_url));
            }
        }
    }
}

/// The text that `humansize::format_size` gives for a number of bytes
/// with the options `humansize::DECIMAL`: a value with at most two
/// decimals and a unit in steps of a thousand, such as `1 MB`.
pub uninterp spec fn human_size(bytes: u64) -> Seq<char>;

/// Renders a number of bytes for reading, by `humansize::format_size` with
/// the options `humansize::DECIMAL`.
#[verifier::external_body]
pub(crate) fn format_size(bytes: u64) -> (text: String)
    ensures
        text@ == human_size(bytes),
{
    humansize::format_size(bytes, humansize::DECIMAL)
}

/// Domain stats with human-readable values.
#[derive(Debug)]
pub struct DomainStats {
    pub domain: String,
    pub page_count: u64,
    pub total_size: String,
    pub min_page_size: String,
    pub max_page_size: String,
    pub min_page_url: String,
    pub max_page_url: String,
}

/// Domain stats with human-readable values, as a mathematical record.
pub struct DomainStatsView {
    pub domain: Seq<char>,
    pub page_count: nat,
    pub total_size: Seq<char>,
    pub min_page_size: Seq<char>,
    pub max_page_size: Seq<char>,
    pub min_page_url: Seq<char>,
    pub max_page_url: Seq<char>,
}

impl View for DomainStats {
    type V = DomainStatsView;

    open spec fn view(&self) -> DomainStatsView {
        DomainStatsView {
            domain: self.domain@,
            page_count: self.page_count as nat,
            total_size: self.total_size@,
            min_page_size: self.min_page_size@,
            max_page_size: self.max_page_size@,
            min_page_url: self.min_page_url@,
            max_page_url: self.max_page_url@,
        }
    }
}

/// The aggregates of a domain as they are shown: the page count as it is,
/// the three sizes rendered for reading, the two addresses as they are.
pub open spec fn displayed(domain: Seq<char>, record: DomainRecord) -> DomainStatsView {
    DomainStatsView {
        domain,
        page_count: record.page_count,
        total_size: human_size(record.total_size as u64),
        min_page_size: human_size(record.min_size as u64),
        max_page_size: human_size(record.max_size as u64),
        min_page_url: record.min_url,
        max_page_url: record.max_url,
    }
}

/// The aggregates of a domain as they are shown.
pub fn display_stats(domain: String, raw: RawDomainStats) -> (stats: DomainStats)
    ensures
        stats@ == displayed(domain@, raw@),
{
    DomainStats {
        domain,
        page_count: raw.page_count,
        total_size: format_size(raw.total_size),
        min_page_size: format_size(raw.min_size),
        max_page_size: format_size(raw.max_size),
        min_page_url: raw.min_url,
        max_page_url: raw.max_url,
    }
}

/// The number of bytes that `bytesize::ByteSize::from_str` reads from a
/// text such as `1.5 MB`; `None` where it reads none.
pub uninterp spec fn parsed_size(text: Seq<char>) -> Option<u64>;

/// Reads a number of bytes from a text, by `bytesize::ByteSize::from_str`
/// and `bytesize::ByteSize::as_u64`.
#[verifier::external_body]
pub(crate) fn parse_size(text: &str) -> (bytes: Option<u64>)
    ensures
        bytes == parsed_size(text@),
{
    text.parse::<bytesize::ByteSize>().ok().map(|size| size.as_u64())
}

/// The totals over all domains, as they are shown.
#[derive(Debug)]
pub struct StatsTotals {
    pub total_pages: u64,
    pub total_size: String,
}

/// A number, or the top of the range of `u64` where it lies beyond.
pub open spec fn capped(n: nat) -> u64 {
    if n > u64::MAX {
        u64::MAX
    } else {
        n as u64
    }
}

/// The number of bytes that a shown size stands for; none where it cannot
/// be read.
pub open spec fn shown_bytes(text: Seq<char>) -> nat {
    match parsed_size(text) {
        Some(bytes) => bytes as nat,
        None => 0,
    }
}

/// The pages of the first `upto` domains of a list.
pub open spec fn page_sum(stats: Seq<DomainStats>, upto: nat) -> nat
    decreases upto,
{
    if upto == 0 || upto > stats.len() {
        0
    } else {
        page_sum(stats, (upto - 1) as nat) + stats[upto - 1].page_count as nat
    }
}

/// The bytes that the shown total sizes of the first `upto` domains of a
/// list stand for.
pub open spec fn shown_size_sum(stats: Seq<DomainStats>, upto: nat) -> nat
    decreases upto,
{
    if upto == 0 || upto > stats.len() {
        0
    } else {
        shown_size_sum(stats, (upto - 1) as nat) + shown_bytes(stats[upto - 1].total_size@)
    }
}

/// The sum of two numbers, or the top of the range where it lies beyond.
fn add_capped(a: u64, b: u64) -> (sum: u64)
    ensures
        sum == capped((a + b) as nat),
{
    if a > u64::MAX - b {
        u64::MAX
    } else {
        a + b
    }
}

/// The totals over all domains: the pages of all domains, and the sum of
/// their total sizes, read back from the sizes as they are shown and
/// rendered for reading again. A sum beyond the range of `u64` is taken as
/// the top of the range.
pub fn stats_totals(stats: &Vec<DomainStats>) -> (totals: StatsTotals)
    ensures
        totals.total_pages == capped(page_sum(stats@, stats@.len())),
        totals.total_size@ == human_size(capped(shown_size_sum(stats@, stats@.len()))),
{
    let mut total_pages: u64 = 0;
    let mut total_size: u64 = 0;
    let mut i: usize = 0;
    while i < stats.len()
        invariant
            i <= stats.len(),
            total_pages == capped(page_sum(stats@, i as nat)),
            total_size == capped(shown_size_sum(stats@, i as nat)),
        decreases stats.len() - i,
    {
        total_pages = add_capped(total_pages, stats[i].page_count);
        let bytes = match parse_size(stats[i].total_size.as_str()) {
            Some(bytes) => bytes,
            None => 0,
        };
        total_size = add_capped(total_size, bytes);
        i += 1;
    }
    StatsTotals { total_pages, total_size: format_size(total_size) }
}

} // verus!
