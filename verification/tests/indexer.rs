use mini_search_engine::config::IndexerConfig;
use mini_search_engine::crawler::{CrawlAction, CrawlPlan};
use mini_search_engine::indexer::{
    search_limit, search_results, CommitOutcome, FetchedPage, IndexError, IndexedDocument, Indexer, SearchError,
    SearchPage, SearchResult, MAX_QUERY_LENGTH,
};
use std::time::{Duration, Instant};
use tantivy::schema::{Schema, STORED};

fn indexer_over(schema: Schema, fields: &[&str]) -> Indexer {
    let index = tantivy::Index::create_in_ram(schema);
    let db = sled::Config::new().temporary(true).open().unwrap();
    indexer_on(index, db, fields)
}

fn indexer_on(index: tantivy::Index, db: sled::Db, fields: &[&str]) -> Indexer {
    let schema = index.schema();
    let fields = fields.iter().map(|name| schema.get_field(name).unwrap()).collect();
    let parser = tantivy::query::QueryParser::for_index(&index, fields);
    let config = IndexerConfig {
        new_index: true,
        index_dir: String::new(),
        db_dir: String::new(),
        commit_interval_ms: 1000,
        tech_term_boost: "1.5".to_string(),
    };
    Indexer::new(index, parser, db, &config).unwrap()
}

fn indexer() -> Indexer {
    indexer_over(Indexer::create_schema(), &["title", "body", "description"])
}

fn page(domain: &str, url: &str, html: &str) -> SearchPage {
    SearchPage {
        page: FetchedPage { url: url.to_string(), html: html.to_string() },
        domain: domain.to_string(),
    }
}

/// Searches until the reader has taken up the last commit.
fn search_committed(indexer: &Indexer, query: &str, limit: usize) -> Vec<SearchResult> {
    let start = Instant::now();
    loop {
        let results = indexer.search(query, limit).unwrap();
        if !results.is_empty() || start.elapsed() > Duration::from_secs(10) {
            return results;
        }
        std::hint::spin_loop();
    }
}

#[test]
fn a_page_is_found_after_ingestion_and_commit() {
    let mut indexer = indexer();
    let html = "<title>Hello</title><body>Hello <script>x</script>World</body>";
    indexer.add_page(&page("example.org", "https://example.org/", html)).unwrap();
    assert!(indexer.is_dirty());
    // Not searchable before the commit.
    assert!(indexer.search("hello", 1).unwrap().is_empty());

    assert!(matches!(indexer.commit_if_dirty(), CommitOutcome::Committed));
    assert!(!indexer.is_dirty());

    let results = search_committed(&indexer, "hello", 1);
    assert_eq!(results.len(), 1);
    assert_eq!(results[0].title, "Hello");
    assert_eq!(results[0].url, "https://example.org/");
    assert_eq!(results[0].snippet, "<b>Hello</b> World");

    let stats = indexer.get_domain_stats().unwrap();
    assert_eq!(stats.len(), 1);
    assert_eq!(stats[0].domain, "example.org");
    assert_eq!(stats[0].page_count, 1);
    assert_eq!(stats[0].total_size, "12 B");
    assert_eq!(stats[0].min_page_url, "https://example.org/");
}

#[test]
fn search_gives_at_most_the_limit() {
    let mut indexer = indexer();
    for i in 0..5 {
        let html = format!("<title>Page {i}</title><body>rust and more rust {i}</body>");
        indexer.add_page(&page("a.example", &format!("https://a.example/{i}"), &html)).unwrap();
    }
    indexer.commit().unwrap();
    assert_eq!(search_committed(&indexer, "rust", 3).len(), 3);
    assert_eq!(search_committed(&indexer, "rust", 10).len(), 5);
    assert!(indexer.search("rust", 0).unwrap().is_empty());
    assert!(indexer.search("absent", 10).unwrap().is_empty());
    // A limit beyond what one search collects is taken as that.
    assert_eq!(indexer.search("rust", usize::MAX).unwrap().len(), 5);
    assert_eq!(mini_search_engine::indexer::MAX_SEARCH_RESULTS, 1_000_000);
}

#[test]
fn search_boosts_and_parses_leniently() {
    let mut indexer = indexer();
    indexer
        .add_page(&page("a.example", "https://a.example/", "<title>Rust</title><body>rust; fast</body>"))
        .unwrap();
    indexer.commit().unwrap();
    let results = search_committed(&indexer, "RUST;fast", 5);
    assert_eq!(results.len(), 1);
    assert_eq!(results[0].title, "Rust");
    // Fragments that cannot be parsed are dropped, not reported.
    assert!(indexer.search("rust AND (", 5).is_ok());
    assert!(indexer.search("nofield:rust \"open", 5).is_ok());
    assert!(indexer.search("", 5).unwrap().is_empty());
}

#[test]
fn a_query_that_is_too_long_is_refused() {
    let indexer = indexer();
    let long_query = "x".repeat(300);
    let error = indexer.search(&long_query, 10).unwrap_err();
    assert!(matches!(error, SearchError::QueryTooLong));
    assert_eq!(error.message(), "Query too long - maximum length is 256 characters");
    assert!(error.message().contains("Query too long"));
    // Refused whatever the limit.
    assert!(matches!(indexer.search(&long_query, 0), Err(SearchError::QueryTooLong)));
}

#[test]
fn the_longest_query_is_accepted() {
    let indexer = indexer();
    assert_eq!(MAX_QUERY_LENGTH, 256);
    assert!(indexer.search(&"x".repeat(256), 10).is_ok());
    assert!(matches!(indexer.search(&"x".repeat(257), 10), Err(SearchError::QueryTooLong)));
    // The length is counted in characters.
    assert!(indexer.search(&"\u{e9}".repeat(256), 10).is_ok());
    assert!(matches!(
        indexer.search(&"\u{e9}".repeat(257), 10),
        Err(SearchError::QueryTooLong)
    ));
}

#[test]
fn commit_of_a_clean_gateway_does_nothing() {
    let mut indexer = indexer();
    assert!(!indexer.is_dirty());
    assert!(matches!(indexer.commit_if_dirty(), CommitOutcome::Clean));
    assert!(!indexer.is_dirty());
    indexer.commit().unwrap();
    assert!(!indexer.is_dirty());
}

#[test]
fn add_document_marks_dirty_and_counts_the_page() {
    let mut indexer = indexer();
    let text = mini_search_engine::indexer::extract_page("<title>T</title><body>four</body>");
    let document = IndexedDocument::new(text, "https://a.example/x", "a.example");
    assert_eq!(document.title(), "T");
    assert_eq!(document.description(), "");
    assert_eq!(document.body(), "four ");
    assert_eq!(document.url(), "https://a.example/x");
    assert_eq!(document.domain(), "a.example");
    assert_eq!(document.size(), 5);
    indexer.add_document(&document).unwrap();
    indexer.add_document(&document).unwrap();
    assert!(indexer.is_dirty());
    let stats = indexer.get_domain_stats().unwrap();
    assert_eq!(stats[0].page_count, 2);
    assert_eq!(stats[0].total_size, "10 B");
}

#[test]
fn from_page_keeps_address_and_domain() {
    let document = IndexedDocument::from_page(&page(
        "a.example",
        "https://a.example/p",
        "<meta name=\"description\" content=\"about\"><body>caf\u{e9}</body>",
    ));
    assert_eq!(document.url(), "https://a.example/p");
    assert_eq!(document.domain(), "a.example");
    assert_eq!(document.description(), "about");
    assert_eq!(document.body(), "caf\u{e9} ");
    assert_eq!(document.size(), 6);
}

#[test]
fn a_refused_document_changes_nothing() {
    // An index without the fields of a document.
    let mut builder = Schema::builder();
    builder.add_text_field("other", STORED);
    let mut indexer = indexer_over(builder.build(), &["other"]);
    let done = indexer.add_page(&page("a.example", "https://a.example/", "<body>x</body>"));
    assert!(matches!(done, Err(IndexError::Engine(_))));
    assert!(!indexer.is_dirty());
    assert!(indexer.get_domain_stats().unwrap().is_empty());
    assert!(matches!(indexer.search("x", 1), Err(SearchError::Engine(_))));
}

#[test]
fn pages_of_different_domains_are_counted_apart() {
    let mut indexer = indexer();
    let big = "y".repeat(10);
    indexer.add_page(&page("a.example", "https://a.example/1", &format!("<body>{big}</body>"))).unwrap();
    indexer.commit().unwrap();
    assert!(!indexer.is_dirty());
    // Pages of different domains are counted apart.
    indexer.add_page(&page("b.example", "https://b.example/1", "<body>z</body>")).unwrap();
    assert!(indexer.is_dirty());
    let stats = indexer.get_domain_stats().unwrap();
    assert_eq!(stats.len(), 2);
    assert_eq!(stats[0].domain, "a.example");
    assert_eq!(stats[0].total_size, "11 B");
    assert_eq!(stats[1].domain, "b.example");
    assert_eq!(stats[1].total_size, "2 B");
}

#[test]
fn only_a_query_that_is_too_long_is_told_in_full() {
    assert_eq!(
        SearchError::QueryTooLong.user_message(),
        "Query too long - maximum length is 256 characters"
    );
    assert_eq!(SearchError::MissingField.user_message(), "An error occurred while searching");
    let mut builder = Schema::builder();
    builder.add_text_field("other", STORED);
    let indexer = indexer_over(builder.build(), &["other"]);
    let error = indexer.search("x", 1).unwrap_err();
    assert_eq!(error.user_message(), "An error occurred while searching");
    assert!(error.message().contains("body"));
}

#[test]
fn a_crawl_that_fails_does_not_keep_another_domain_from_the_index() {
    let mut indexer = indexer();
    let mut plan = CrawlPlan::new(2, 16);
    assert_eq!(plan.next_action(), CrawlAction::Start(0));
    assert_eq!(plan.next_action(), CrawlAction::Start(1));
    // Domain A fails for good; domain B yields a page.
    plan.crawl_ended(true);
    indexer
        .add_page(&page("b.example", "https://b.example/", "<title>B</title><body>found</body>"))
        .unwrap();
    assert_eq!(plan.next_action(), CrawlAction::AwaitOne);
    plan.crawl_ended(false);
    assert_eq!(plan.next_action(), CrawlAction::Finished);
    assert_eq!(plan.failed(), 1);

    indexer.commit().unwrap();
    let results = search_committed(&indexer, "found", 5);
    assert_eq!(results.len(), 1);
    assert_eq!(results[0].url, "https://b.example/");
}

#[test]
fn the_schema_has_the_fields_of_a_document() {
    let schema = Indexer::create_schema();
    let names: Vec<&str> = schema.fields().map(|(_, entry)| entry.name()).collect();
    assert_eq!(names, vec!["title", "description", "body", "url", "domain", "size"]);
    for (_, entry) in schema.fields() {
        assert!(entry.is_stored());
        assert_eq!(entry.is_indexed(), ["title", "description", "body"].contains(&entry.name()));
        assert_eq!(entry.is_fast(), ["title", "description", "domain", "size"].contains(&entry.name()));
    }
    assert!(schema.get_field("missing").is_err());
    // A field's number is the place of its name.
    for (place, name) in names.iter().enumerate() {
        assert_eq!(schema.get_field(name).unwrap().field_id() as usize, place);
    }
}

#[test]
fn a_match_without_a_title_is_reported() {
    let schema = Indexer::create_schema();
    let index = tantivy::Index::create_in_ram(schema.clone());
    {
        let mut writer: tantivy::IndexWriter = index.writer(15_000_000).unwrap();
        let mut document = tantivy::TantivyDocument::default();
        document.add_text(schema.get_field("body").unwrap(), "untitled words");
        document.add_text(schema.get_field("url").unwrap(), "https://a.example/");
        writer.add_document(document).unwrap();
        writer.commit().unwrap();
    }
    let db = sled::Config::new().temporary(true).open().unwrap();
    let indexer = indexer_on(index, db, &["title", "body", "description"]);
    let error = indexer.search("untitled", 5).unwrap_err();
    assert!(matches!(error, SearchError::MissingField));
    assert_eq!(error.message(), "A stored document lacks its title or its address");
    assert_eq!(error.user_message(), "An error occurred while searching");
}

#[test]
fn a_count_that_does_not_fit_is_reported_and_the_gateway_is_dirty() {
    let index = tantivy::Index::create_in_ram(Indexer::create_schema());
    let db = sled::Config::new().temporary(true).open().unwrap();
    let mut full: Vec<u8> = Vec::new();
    for number in [u64::MAX, 10, 10, 10, 0, 0] {
        full.extend_from_slice(&number.to_le_bytes());
    }
    db.insert(b"domain:a.example", full.clone()).unwrap();
    let mut indexer = indexer_on(index, db, &["title", "body", "description"]);

    let done = indexer.add_page(&page("a.example", "https://a.example/", "<body>x</body>"));
    match done {
        Err(IndexError::Stats(error)) => {
            assert!(matches!(error, mini_search_engine::indexer::StatsError::Overflow));
            assert_eq!(
                error.message(),
                "The page count or the total size of the domain is too large"
            );
        }
        other => panic!("unexpected: {other:?}"),
    }
    // The document is in the index all the same.
    assert!(indexer.is_dirty());
    let stats = indexer.get_domain_stats().unwrap();
    assert_eq!(stats[0].page_count, u64::MAX);
    indexer.commit().unwrap();
    assert_eq!(search_committed(&indexer, "x", 5).len(), 1);
}

#[test]
fn a_full_queue_makes_the_producer_wait_and_loses_no_page() {
    let capacity = 8;
    let pages: usize = 100;
    let runtime = tokio::runtime::Builder::new_multi_thread().enable_all().build().unwrap();
    let counted = runtime.block_on(async move {
        let (tx, mut rx) = tokio::sync::mpsc::channel::<SearchPage>(capacity);
        // Saturate the queue before anything is taken from it.
        for i in 0..capacity {
            tx.try_send(page("a.example", &format!("https://a.example/{i}"), "<body>p</body>"))
                .unwrap();
        }
        // The queue is full: a page offered now is handed back, not dropped.
        let offered = page("a.example", "https://a.example/held", "<body>p</body>");
        let held = match tx.try_send(offered) {
            Err(tokio::sync::mpsc::error::TrySendError::Full(held)) => held,
            _ => panic!("the queue took a page beyond its capacity"),
        };
        assert_eq!(held.page.url, "https://a.example/held");

        let producer = tokio::spawn(async move {
            tx.send(held).await.unwrap();
            for i in capacity + 1..pages {
                let url = format!("https://a.example/{i}");
                tx.send(page("a.example", &url, "<body>p</body>")).await.unwrap();
            }
        });
        let mut indexer = indexer();
        while let Some(page) = rx.recv().await {
            indexer.add_page(&page).unwrap();
        }
        producer.await.unwrap();
        indexer.get_domain_stats().unwrap()[0].page_count
    });
    assert_eq!(counted, pages as u64);
    assert_eq!(mini_search_engine::indexer::INGEST_QUEUE_CAPACITY, 1000);
}

#[test]
fn the_search_handle_searches_while_the_gateway_writes() {
    let mut indexer = indexer();
    let handle = indexer.search_handle();
    indexer.add_page(&page("a.example", "https://a.example/1", "<body>first</body>")).unwrap();
    indexer.commit().unwrap();

    let runtime = tokio::runtime::Builder::new_multi_thread().enable_all().build().unwrap();
    let searching = runtime.spawn_blocking(move || {
        let start = Instant::now();
        loop {
            let results = handle.search("first", 5).unwrap();
            if !results.is_empty() || start.elapsed() > Duration::from_secs(10) {
                assert!(matches!(
                    handle.search(&"x".repeat(300), 5),
                    Err(SearchError::QueryTooLong)
                ));
                return results;
            }
            std::hint::spin_loop();
        }
    });
    // The writer goes on meanwhile.
    for i in 2..20 {
        let url = format!("https://a.example/{i}");
        indexer.add_page(&page("a.example", &url, "<body>later</body>")).unwrap();
    }
    indexer.commit().unwrap();
    let results = runtime.block_on(searching).unwrap();
    assert_eq!(results.len(), 1);
    assert_eq!(results[0].url, "https://a.example/1");
}

#[test]
fn search_results_keep_order_and_values() {
    let found = vec![
        (Some("T1".to_string()), Some("https://a/1".to_string()), "<b>one</b>".to_string()),
        (Some("".to_string()), Some("https://a/2".to_string()), "".to_string()),
    ];
    let results = search_results(&found).unwrap();
    assert_eq!(results.len(), 2);
    assert_eq!(results[0].title, "T1");
    assert_eq!(results[0].url, "https://a/1");
    assert_eq!(results[0].snippet, "<b>one</b>");
    assert_eq!(results[1].title, "");
    assert_eq!(results[1].url, "https://a/2");
    assert_eq!(results[1].snippet, "");
    assert!(search_results(&Vec::new()).unwrap().is_empty());
}

#[test]
fn search_results_fail_where_a_title_or_an_address_is_missing() {
    let complete = (Some("T".to_string()), Some("u".to_string()), "s".to_string());
    let no_title = (None, Some("u".to_string()), "s".to_string());
    let no_url = (Some("T".to_string()), None, "s".to_string());
    assert!(matches!(
        search_results(&vec![complete.clone(), no_title]),
        Err(SearchError::MissingField)
    ));
    assert!(matches!(
        search_results(&vec![no_url, complete]),
        Err(SearchError::MissingField)
    ));
}

#[test]
fn search_gives_the_best_match_first_with_its_stored_values() {
    let mut indexer = indexer();
    indexer
        .add_page(&page("a.example", "https://a.example/once", "<title>Once</title><body>zebra and other words here</body>"))
        .unwrap();
    indexer
        .add_page(&page("a.example", "https://a.example/often", "<title>Often</title><body>zebra zebra zebra</body>"))
        .unwrap();
    indexer.commit().unwrap();
    let start = Instant::now();
    let mut results = indexer.search("zebra", 5).unwrap();
    while results.len() < 2 && start.elapsed() < Duration::from_secs(10) {
        results = indexer.search("zebra", 5).unwrap();
    }
    assert_eq!(results.len(), 2);
    assert_eq!(results[0].title, "Often");
    assert_eq!(results[0].url, "https://a.example/often");
    assert_eq!(results[1].title, "Once");
    assert_eq!(results[1].url, "https://a.example/once");
    let best = indexer.search("zebra", 1).unwrap();
    assert_eq!(best.len(), 1);
    assert_eq!(best[0].title, "Often");
}

#[test]
fn a_page_without_anything_gives_an_empty_document() {
    let document = IndexedDocument::from_page(&page("a.example", "https://a.example/", ""));
    assert_eq!(document.title(), "");
    assert_eq!(document.description(), "");
    assert_eq!(document.body(), "");
    assert_eq!(document.size(), 0);
    let mut indexer = indexer();
    indexer.add_page(&page("a.example", "https://a.example/", "<meta name=\"description\">")).unwrap();
    let stats = indexer.get_domain_stats().unwrap();
    assert_eq!(stats[0].page_count, 1);
    assert_eq!(stats[0].total_size, "0 B");
}

#[test]
fn an_opened_gateway_searches_title_body_and_description() {
    let index = tantivy::Index::create_in_ram(Indexer::create_schema());
    let db = sled::Config::new().temporary(true).open().unwrap();
    let config = IndexerConfig {
        new_index: true,
        index_dir: String::new(),
        db_dir: String::new(),
        commit_interval_ms: 1000,
        tech_term_boost: "1.5".to_string(),
    };
    let mut indexer = Indexer::open(index, db, &config).unwrap();
    let html = "<title>Alpha</title><meta name=\"description\" content=\"Beta\"><body>Gamma</body>";
    indexer.add_page(&page("a.example", "https://a.example/", html)).unwrap();
    indexer.commit().unwrap();
    for word in ["alpha", "beta", "gamma"] {
        let results = search_committed(&indexer, word, 3);
        assert_eq!(results.len(), 1);
        assert_eq!(results[0].title, "Alpha");
        assert_eq!(results[0].url, "https://a.example/");
    }
    // The address and the domain are stored, not searched.
    assert!(indexer.search("example", 3).unwrap().is_empty());
}

#[test]
fn a_parser_is_made_only_for_an_index_with_the_searched_fields() {
    let index = tantivy::Index::create_in_ram(Indexer::create_schema());
    assert!(Indexer::create_query_parser(&index).is_ok());
    let mut builder = Schema::builder();
    builder.add_text_field("title", STORED);
    builder.add_text_field("body", STORED);
    let other = tantivy::Index::create_in_ram(builder.build());
    assert!(matches!(Indexer::create_query_parser(&other), Err(IndexError::Engine(_))));
    let db = sled::Config::new().temporary(true).open().unwrap();
    let config = IndexerConfig {
        new_index: true,
        index_dir: String::new(),
        db_dir: String::new(),
        commit_interval_ms: 1000,
        tech_term_boost: "1".to_string(),
    };
    assert!(Indexer::open(other, db, &config).is_err());
}

#[test]
fn the_search_limit_is_capped() {
    assert_eq!(search_limit(0), 0);
    assert_eq!(search_limit(10), 10);
    assert_eq!(search_limit(1_000_000), 1_000_000);
    assert_eq!(search_limit(1_000_001), 1_000_000);
    assert_eq!(search_limit(usize::MAX), 1_000_000);
}

#[test]
fn fetched_page_gives_its_parts() {
    let fetched = FetchedPage { url: "https://a/".to_string(), html: "<p>".to_string() };
    assert_eq!(fetched.get_url(), "https://a/");
    assert_eq!(fetched.get_html(), "<p>");
}
