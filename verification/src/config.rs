//! The settings of the server, the crawler and the indexer.

use vstd::prelude::*;
use vstd::string::StringExecFns;

verus! {

/// All settings.
#[derive(Debug)]
pub struct Config {
    pub server: ServerConfig,
    pub crawler: CrawlerConfig,
    pub indexer: IndexerConfig,
}

/// Server settings
#[derive(Debug)]
pub struct ServerConfig {
    pub name: String,
    pub results_per_query: usize,
}

/// Crawler settings
#[derive(Debug)]
pub struct CrawlerConfig {
    pub domains_file: String,
    pub log_interval_per_domain: u32,
    pub max_pages_per_domain: u32,
}

/// Indexer settings. The boost of technology terms is held as the text
/// that is written behind `^` in a query, such as `1.5`.
#[derive(Debug)]
pub struct IndexerConfig {
    pub new_index: bool,
    pub index_dir: String,
    pub db_dir: String,
    pub commit_interval_ms: u64,
    pub tech_term_boost: String,
}

/// The directory that holds what trial runs read and write.
pub const TEST_DIR: &'static str = "test_data";

impl Config {
    /// The settings of a trial run: one page per domain, a fresh index,
    /// and an index and a store of their own, named after the run, below
    /// `TEST_DIR`.
    pub fn load_test(test_name: &str) -> (config: Config)
        ensures
            config.server.name@ == "test_server"@,
            config.server.results_per_query == 10,
            config.crawler.domains_file@ == TEST_DIR@ + "/test_domains"@,
            config.crawler.log_interval_per_domain == 1,
            config.crawler.max_pages_per_domain == 1,
            config.indexer.new_index,
            config.indexer.index_dir@ == TEST_DIR@ + "/index_"@ + test_name@,
            config.indexer.db_dir@ == TEST_DIR@ + "/db_"@ + test_name@ + ".db"@,
            config.indexer.commit_interval_ms == 1000,
            config.indexer.tech_term_boost@ == "1"@,
    {
        let mut domains_file = TEST_DIR.to_owned();
        domains_file.append("/test_domains");
        let mut index_dir = TEST_DIR.to_owned();
        index_dir.append("/index_");
        index_dir.append(test_name);
        let mut db_dir = TEST_DIR.to_owned();
        db_dir.append("/db_");
        db_dir.append(test_name);
        db_dir.append(".db");
        Config {
            server: ServerConfig { name: "test_server".to_owned(), results_per_query: 10 },
            crawler: CrawlerConfig {
                domains_file,
                log_interval_per_domain: 1,
                max_pages_per_domain: 1,
            },
            indexer: IndexerConfig {
                new_index: true,
                index_dir,
                db_dir,
                commit_interval_ms: 1000,
                tech_term_boost: "1".to_owned(),
            },
        }
    }
}

impl ServerConfig {
    /// A copy of the settings.
    pub fn duplicate(&self) -> (copy: ServerConfig)
        ensures
            copy == *self,
    {
        ServerConfig { name: self.name.clone(), results_per_query: self.results_per_query }
    }
}

impl CrawlerConfig {
    /// A copy of the settings.
    pub fn duplicate(&self) -> (copy: CrawlerConfig)
        ensures
            copy == *self,
    {
        CrawlerConfig {
            domains_file: self.domains_file.clone(),
            log_interval_per_domain: self.log_interval_per_domain,
            max_pages_per_domain: self.max_pages_per_domain,
        }
    }
}

impl IndexerConfig {
    /// A copy of the settings.
    pub fn duplicate(&self) -> (copy: IndexerConfig)
        ensures
            copy == *self,
    {
        IndexerConfig {
            new_index: self.new_index,
            index_dir: self.index_dir.clone(),
            db_dir: self.db_dir.clone(),
            commit_interval_ms: self.commit_interval_ms,
            tech_term_boost: self.tech_term_boost.clone(),
        }
    }
}

} // verus!
