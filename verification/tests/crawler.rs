use mini_search_engine::config::{Config, TEST_DIR};
use mini_search_engine::crawler::{
    domains_of, progress_due, CrawlAction, CrawlPlan, TaskPool, MAX_CONCURRENT_DOMAINS,
    MAX_CONCURRENT_PAGES, PAGE_STREAM_BUFFER,
};

#[test]
fn domains_are_read_one_per_line() {
    assert_eq!(domains_of("a.example\nb.example\n"), vec!["a.example", "b.example"]);
    assert_eq!(domains_of("a.example\nb.example"), vec!["a.example", "b.example"]);
    assert_eq!(domains_of("a.example\r\nb.example\r\n"), vec!["a.example", "b.example"]);
    assert_eq!(domains_of("a.example\n\nb.example"), vec!["a.example", "", "b.example"]);
    assert_eq!(domains_of("\n"), vec![""]);
    assert_eq!(domains_of("a\r"), vec!["a\r"]);
    assert_eq!(domains_of("a\r\r\nb"), vec!["a\r", "b"]);
    assert_eq!(domains_of("\r\n\r\n"), vec!["", ""]);
    assert!(domains_of("").is_empty());
}

#[test]
fn domains_are_read_as_the_lines_of_the_text() {
    for text in ["", "a", "a\n", "a\nb", "a\r\nb\r\n", "\n\n", "a\rb\n", "x\r", "\r\n", " a \n\tb"] {
        let expected: Vec<String> = text.lines().map(|line| line.to_string()).collect();
        assert_eq!(domains_of(text), expected);
    }
}

#[test]
fn progress_is_due_at_every_multiple_of_the_interval() {
    assert!(progress_due(500, 500));
    assert!(progress_due(1000, 500));
    assert!(!progress_due(499, 500));
    assert!(!progress_due(1, 500));
    assert!(progress_due(1, 1));
    assert!(progress_due(7, 1));
    assert!(!progress_due(7, 0));
    assert!(!progress_due(0, 0));
}

#[test]
fn the_bounds_of_the_crawl() {
    assert_eq!(MAX_CONCURRENT_DOMAINS, 16);
    assert_eq!(MAX_CONCURRENT_PAGES, 16);
    assert_eq!(PAGE_STREAM_BUFFER, 16);
}

#[test]
fn a_pool_asks_to_wait_beyond_its_limit() {
    let mut pool = TaskPool::new(2);
    assert!(!pool.must_wait());
    assert!(pool.started());
    assert!(pool.started());
    assert!(!pool.must_wait());
    assert!(pool.started());
    assert_eq!(pool.in_flight(), 3);
    assert!(pool.must_wait());
    // No start is counted while a wait is due.
    assert!(!pool.started());
    assert_eq!(pool.in_flight(), 3);
    assert!(pool.ended());
    assert!(!pool.must_wait());
    assert!(pool.ended());
    assert!(pool.ended());
    assert!(!pool.ended());
    assert_eq!(pool.in_flight(), 0);
}

#[test]
fn a_plan_starts_every_domain_in_order() {
    let mut plan = CrawlPlan::new(40, MAX_CONCURRENT_DOMAINS);
    let mut started = Vec::new();
    let mut running = 0;
    let mut most = 0;
    loop {
        match plan.next_action() {
            CrawlAction::Start(place) => {
                started.push(place);
                running += 1;
            }
            CrawlAction::AwaitOne => {
                // Every third crawl fails.
                plan.crawl_ended(started.len() % 3 == 0);
                running -= 1;
            }
            CrawlAction::Finished => break,
        }
        most = most.max(running);
    }
    assert_eq!(started, (0..40).collect::<Vec<usize>>());
    assert_eq!(running, 0);
    assert_eq!(most, MAX_CONCURRENT_DOMAINS + 1);
    assert!(plan.failed() > 0);
}

#[test]
fn a_plan_without_domains_is_finished() {
    let mut plan = CrawlPlan::new(0, 16);
    assert_eq!(plan.next_action(), CrawlAction::Finished);
    plan.crawl_ended(true);
    assert_eq!(plan.failed(), 0);
    assert_eq!(plan.next_action(), CrawlAction::Finished);
}

#[test]
fn a_plan_with_a_limit_of_zero_runs_one_crawl_at_a_time() {
    let mut plan = CrawlPlan::new(2, 0);
    assert_eq!(plan.next_action(), CrawlAction::Start(0));
    assert_eq!(plan.next_action(), CrawlAction::AwaitOne);
    plan.crawl_ended(false);
    assert_eq!(plan.next_action(), CrawlAction::Start(1));
    assert_eq!(plan.next_action(), CrawlAction::AwaitOne);
    plan.crawl_ended(false);
    assert_eq!(plan.next_action(), CrawlAction::Finished);
}

#[test]
fn the_settings_of_a_trial_run() {
    let config = Config::load_test("search");
    assert_eq!(config.server.name, "test_server");
    assert_eq!(config.server.results_per_query, 10);
    assert_eq!(config.crawler.domains_file, format!("{TEST_DIR}/test_domains"));
    assert_eq!(config.crawler.log_interval_per_domain, 1);
    assert_eq!(config.crawler.max_pages_per_domain, 1);
    assert!(config.indexer.new_index);
    assert_eq!(config.indexer.index_dir, format!("{TEST_DIR}/index_search"));
    assert_eq!(config.indexer.db_dir, format!("{TEST_DIR}/db_search.db"));
    assert_eq!(config.indexer.commit_interval_ms, 1000);
    assert_eq!(config.indexer.tech_term_boost, format!("{}", 1.0f32));

    let copy = config.indexer.duplicate();
    assert_eq!(copy.index_dir, config.indexer.index_dir);
    assert_eq!(copy.tech_term_boost, "1");
    assert_eq!(config.server.duplicate().name, "test_server");
    assert_eq!(config.crawler.duplicate().domains_file, config.crawler.domains_file);
}
