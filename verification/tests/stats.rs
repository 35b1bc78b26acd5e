use mini_search_engine::indexer::codec::decode_or_default;
use mini_search_engine::indexer::stats::{display_stats, stats_totals, DomainStats, RawDomainStats};
use mini_search_engine::indexer::store::{
    get_domain_stats, stats_key_of, update_domain_stats, StatsError,
};

fn temporary_db() -> sled::Db {
    sled::Config::new().temporary(true).open().unwrap()
}

#[test]
fn default_stats_start_from_nothing() {
    let stats = RawDomainStats::default();
    assert_eq!(stats.page_count, 0);
    assert_eq!(stats.total_size, 0);
    assert_eq!(stats.min_size, u64::MAX);
    assert_eq!(stats.max_size, 0);
    assert_eq!(stats.min_url, "");
    assert_eq!(stats.max_url, "");
}

#[test]
fn record_counts_pages_and_tracks_extremes() {
    let mut stats = RawDomainStats::default();
    assert!(stats.record("https://a/1", 50));
    assert_eq!(stats.page_count, 1);
    assert_eq!(stats.total_size, 50);
    assert_eq!(stats.min_size, 50);
    assert_eq!(stats.min_url, "https://a/1");
    assert_eq!(stats.max_size, 50);
    assert_eq!(stats.max_url, "https://a/1");

    assert!(stats.record("https://a/2", 20));
    assert!(stats.record("https://a/3", 70));
    assert!(stats.record("https://a/4", 20));
    assert!(stats.record("https://a/5", 70));
    assert_eq!(stats.page_count, 5);
    assert_eq!(stats.total_size, 230);
    assert_eq!(stats.min_size, 20);
    assert_eq!(stats.min_url, "https://a/2");
    assert_eq!(stats.max_size, 70);
    assert_eq!(stats.max_url, "https://a/3");
}

#[test]
fn record_of_an_empty_page_sets_only_the_smallest() {
    let mut stats = RawDomainStats::default();
    assert!(stats.record("https://a/empty", 0));
    assert_eq!(stats.page_count, 1);
    assert_eq!(stats.min_size, 0);
    assert_eq!(stats.min_url, "https://a/empty");
    assert_eq!(stats.max_size, 0);
    assert_eq!(stats.max_url, "");
}

#[test]
fn record_refuses_what_does_not_fit() {
    let mut stats = RawDomainStats::default();
    assert!(stats.record("https://a/1", u64::MAX - 1));
    assert!(!stats.record("https://a/2", 2));
    assert_eq!(stats.page_count, 1);
    assert_eq!(stats.total_size, u64::MAX - 1);
    assert_eq!(stats.max_url, "https://a/1");
    assert!(stats.record("https://a/3", 1));
    assert_eq!(stats.total_size, u64::MAX);

    let mut full = RawDomainStats::default();
    full.page_count = u64::MAX;
    assert!(!full.record("https://a/4", 0));
    assert_eq!(full.page_count, u64::MAX);
}

#[test]
fn stats_key_is_the_prefix_and_the_domain() {
    assert_eq!(stats_key_of("example.org"), b"domain:example.org".to_vec());
    assert_eq!(stats_key_of(""), b"domain:".to_vec());
    assert_eq!(stats_key_of("b\u{fc}cher.de"), "domain:b\u{fc}cher.de".as_bytes().to_vec());
}

#[test]
fn update_writes_the_record_in_the_stored_form() {
    let mut db = temporary_db();
    update_domain_stats(&mut db, "example.org", "https://example.org/a", 12).unwrap();
    let stored = db.get(b"domain:example.org").unwrap().unwrap();
    let mut expected: Vec<u8> = Vec::new();
    expected.extend_from_slice(&1u64.to_le_bytes());
    expected.extend_from_slice(&12u64.to_le_bytes());
    expected.extend_from_slice(&12u64.to_le_bytes());
    expected.extend_from_slice(&12u64.to_le_bytes());
    expected.extend_from_slice(&21u64.to_le_bytes());
    expected.extend_from_slice(b"https://example.org/a");
    expected.extend_from_slice(&21u64.to_le_bytes());
    expected.extend_from_slice(b"https://example.org/a");
    assert_eq!(stored.to_vec(), expected);

    let read = decode_or_default(&stored);
    assert_eq!(read.page_count, 1);
    assert_eq!(read.total_size, 12);
    assert_eq!(read.min_url, "https://example.org/a");
}

#[test]
fn decode_reads_a_record_and_ignores_what_follows() {
    let mut bytes: Vec<u8> = Vec::new();
    for number in [3u64, 600, 100, 300] {
        bytes.extend_from_slice(&number.to_le_bytes());
    }
    bytes.extend_from_slice(&1u64.to_le_bytes());
    bytes.extend_from_slice(b"s");
    bytes.extend_from_slice(&2u64.to_le_bytes());
    bytes.extend_from_slice("\u{e9}".as_bytes());
    bytes.extend_from_slice(b"trailing");
    let stats = decode_or_default(&bytes);
    assert_eq!(stats.page_count, 3);
    assert_eq!(stats.total_size, 600);
    assert_eq!(stats.min_size, 100);
    assert_eq!(stats.max_size, 300);
    assert_eq!(stats.min_url, "s");
    assert_eq!(stats.max_url, "\u{e9}");
}

#[test]
fn decode_of_bytes_without_a_record_gives_the_default() {
    for bytes in [Vec::new(), vec![1u8, 2, 3], vec![0xffu8; 47]] {
        let stats = decode_or_default(&bytes);
        assert_eq!(stats.page_count, 0);
        assert_eq!(stats.min_size, u64::MAX);
        assert_eq!(stats.max_url, "");
    }
    // A string that is not UTF-8.
    let mut bytes: Vec<u8> = vec![0u8; 32];
    bytes.extend_from_slice(&1u64.to_le_bytes());
    bytes.push(0xff);
    bytes.extend_from_slice(&0u64.to_le_bytes());
    assert_eq!(decode_or_default(&bytes).min_size, u64::MAX);
}

#[test]
fn stats_grow_by_one_page_per_record() {
    let mut db = temporary_db();
    let sizes: [u64; 5] = [40, 10, 90, 10, 25];
    let mut total = 0;
    for (i, size) in sizes.iter().enumerate() {
        let url = format!("https://a.example/{i}");
        update_domain_stats(&mut db, "a.example", &url, *size).unwrap();
        total += size;
        let stored = db.get(b"domain:a.example").unwrap().unwrap();
        let stats = decode_or_default(&stored);
        assert_eq!(stats.page_count, i as u64 + 1);
        assert_eq!(stats.total_size, total);
        assert_eq!(stats.min_size, *sizes[..=i].iter().min().unwrap());
        assert_eq!(stats.max_size, *sizes[..=i].iter().max().unwrap());
    }
    let stats = decode_or_default(&db.get(b"domain:a.example").unwrap().unwrap());
    assert_eq!(stats.min_url, "https://a.example/1");
    assert_eq!(stats.max_url, "https://a.example/2");
}

#[test]
fn update_of_one_domain_leaves_the_others() {
    let mut db = temporary_db();
    update_domain_stats(&mut db, "a.example", "https://a.example/", 5).unwrap();
    let before = db.get(b"domain:a.example").unwrap().unwrap();
    update_domain_stats(&mut db, "b.example", "https://b.example/", 7).unwrap();
    update_domain_stats(&mut db, "a.exampl", "https://a.exampl/", 9).unwrap();
    assert_eq!(db.get(b"domain:a.example").unwrap().unwrap(), before);
    assert_eq!(db.len(), 3);
}

#[test]
fn update_reports_overflow_and_changes_nothing() {
    let mut db = temporary_db();
    update_domain_stats(&mut db, "a.example", "https://a.example/big", u64::MAX).unwrap();
    let before = db.get(b"domain:a.example").unwrap().unwrap();
    let done = update_domain_stats(&mut db, "a.example", "https://a.example/one", 1);
    assert!(matches!(done, Err(StatsError::Overflow)));
    assert_eq!(db.get(b"domain:a.example").unwrap().unwrap(), before);
    // A page without text still fits.
    update_domain_stats(&mut db, "a.example", "https://a.example/none", 0).unwrap();
}

#[test]
fn update_starts_afresh_over_bytes_that_hold_no_record() {
    let mut db = temporary_db();
    db.insert(b"domain:a.example", vec![1u8, 2, 3]).unwrap();
    update_domain_stats(&mut db, "a.example", "https://a.example/", 4).unwrap();
    let stats = decode_or_default(&db.get(b"domain:a.example").unwrap().unwrap());
    assert_eq!(stats.page_count, 1);
    assert_eq!(stats.total_size, 4);
}

#[test]
fn domain_stats_are_sorted_and_readable() {
    let mut db = temporary_db();
    update_domain_stats(&mut db, "zeta.example", "https://zeta.example/", 1_500_000).unwrap();
    update_domain_stats(&mut db, "alpha.example", "https://alpha.example/1", 999).unwrap();
    update_domain_stats(&mut db, "alpha.example", "https://alpha.example/2", 1_000).unwrap();
    update_domain_stats(&mut db, "Beta.example", "https://Beta.example/", 0).unwrap();
    db.insert(b"other:key", vec![0u8]).unwrap();
    db.insert(b"domain", vec![0u8]).unwrap();

    let stats = get_domain_stats(&db).unwrap();
    let domains: Vec<&str> = stats.iter().map(|s| s.domain.as_str()).collect();
    assert_eq!(domains, vec!["Beta.example", "alpha.example", "zeta.example"]);

    assert_eq!(stats[1].page_count, 2);
    assert_eq!(stats[1].total_size, "2.00 kB");
    assert_eq!(stats[1].min_page_size, "999 B");
    assert_eq!(stats[1].max_page_size, "1 kB");
    assert_eq!(stats[1].min_page_url, "https://alpha.example/1");
    assert_eq!(stats[1].max_page_url, "https://alpha.example/2");
    assert_eq!(stats[2].total_size, "1.50 MB");
    assert_eq!(stats[0].total_size, "0 B");
    assert_eq!(stats[0].max_page_url, "");
}

#[test]
fn a_tie_keeps_the_address_of_the_first_page() {
    let mut stats = RawDomainStats::default();
    for (url, size) in [("a", 5u64), ("b", 9), ("c", 5), ("d", 9), ("e", 7)] {
        assert!(stats.record(url, size));
    }
    assert_eq!((stats.min_size, stats.min_url.as_str()), (5, "a"));
    assert_eq!((stats.max_size, stats.max_url.as_str()), (9, "b"));

    // A lone page at the top of the range keeps the empty address.
    let mut lone = RawDomainStats::default();
    assert!(lone.record("top", u64::MAX));
    assert_eq!((lone.min_size, lone.min_url.as_str()), (u64::MAX, ""));
    assert_eq!((lone.max_size, lone.max_url.as_str()), (u64::MAX, "top"));
}

#[test]
fn domain_stats_of_an_empty_store_are_empty() {
    let db = temporary_db();
    assert!(get_domain_stats(&db).unwrap().is_empty());
}

#[test]
fn domain_stats_report_a_key_that_is_no_text() {
    let mut db = temporary_db();
    update_domain_stats(&mut db, "a.example", "https://a.example/", 1).unwrap();
    db.insert(b"domain:\xff\xfe", vec![0u8; 48]).unwrap();
    assert!(matches!(get_domain_stats(&db), Err(StatsError::BadKey)));
}

#[test]
fn domain_stats_report_a_value_that_holds_no_record() {
    let mut db = temporary_db();
    update_domain_stats(&mut db, "a.example", "https://a.example/", 1).unwrap();
    db.insert(b"domain:b.example", vec![1u8, 2, 3]).unwrap();
    assert!(matches!(get_domain_stats(&db), Err(StatsError::Decode(_))));
}

#[test]
fn display_renders_the_sizes() {
    let raw = RawDomainStats {
        page_count: 7,
        total_size: 1_000_000,
        min_size: u64::MAX,
        max_size: 1_234,
        min_url: "https://a/min".to_string(),
        max_url: "https://a/max".to_string(),
    };
    let shown = display_stats("a".to_string(), raw);
    assert_eq!(shown.domain, "a");
    assert_eq!(shown.page_count, 7);
    assert_eq!(shown.total_size, "1 MB");
    assert_eq!(shown.min_page_size, "18.45 EB");
    assert_eq!(shown.max_page_size, "1.23 kB");
    assert_eq!(shown.min_page_url, "https://a/min");
    assert_eq!(shown.max_page_url, "https://a/max");
}

fn shown(domain: &str, page_count: u64, total_size: &str) -> DomainStats {
    DomainStats {
        domain: domain.to_string(),
        page_count,
        total_size: total_size.to_string(),
        min_page_size: String::new(),
        max_page_size: String::new(),
        min_page_url: String::new(),
        max_page_url: String::new(),
    }
}

#[test]
fn totals_add_up_pages_and_shown_sizes() {
    let stats = vec![shown("a", 3, "1.50 MB"), shown("b", 4, "500 kB"), shown("c", 0, "12 B")];
    let totals = stats_totals(&stats);
    assert_eq!(totals.total_pages, 7);
    assert_eq!(totals.total_size, "2.00 MB");

    let totals = stats_totals(&Vec::new());
    assert_eq!(totals.total_pages, 0);
    assert_eq!(totals.total_size, "0 B");
}

#[test]
fn totals_take_a_size_that_cannot_be_read_as_nothing() {
    let stats = vec![shown("a", 1, "many"), shown("b", 1, "2 kB"), shown("c", 1, "")];
    let totals = stats_totals(&stats);
    assert_eq!(totals.total_pages, 3);
    assert_eq!(totals.total_size, "2 kB");
}

#[test]
fn totals_stop_at_the_top_of_the_range() {
    let stats = vec![shown("a", u64::MAX, "1 B"), shown("b", 5, "1 B")];
    let totals = stats_totals(&stats);
    assert_eq!(totals.total_pages, u64::MAX);
    assert_eq!(totals.total_size, "2 B");
}

#[test]
fn totals_of_a_store() {
    let mut db = temporary_db();
    update_domain_stats(&mut db, "a.example", "https://a.example/1", 700).unwrap();
    update_domain_stats(&mut db, "a.example", "https://a.example/2", 800).unwrap();
    update_domain_stats(&mut db, "b.example", "https://b.example/1", 250).unwrap();
    let totals = stats_totals(&get_domain_stats(&db).unwrap());
    assert_eq!(totals.total_pages, 3);
    assert_eq!(totals.total_size, "1.75 kB");
}
