//! The gateway to the full-text index and to the per-domain statistics.
//! It adds documents, commits them, and answers queries.

pub mod codec;
pub mod document;
pub mod engine;
pub mod markup;
pub mod page;
pub mod query;
pub mod stats;
pub mod store;
pub mod tech_terms;

pub use document::{DocumentView, FetchedPage, IndexedDocument, SearchPage};
pub use engine::MAX_SEARCH_RESULTS;
pub use markup::extract_text;
pub use page::extract_page;
pub use query::{boost_tech_terms, split_query_terms};
pub use stats::DomainStats;
pub use store::StatsError;

use crate::config::IndexerConfig;
use codec::decodable;
use document::document_of;
use engine::field_place;
use engine::{
    add_text_field, add_u64_field, build_schema, builder_fields, document_text, fetch_document,
    generator_place, has_document_fields, index_fields, index_parser, index_schema,
    indexed_stored_text, open_reader, open_writer, parser_fields, reader_fields,
    reader_searcher, schema_builder, schema_field, schema_fields, schema_settings,
    snapshot_addresses, snapshot_fields, snapshot_text, snippet_generator, snippet_html,
    stored_fast_number_options, stored_fast_text_options, stored_text, stored_text_options,
    top_addresses, top_matches, with_fast_lookup, writer_add, writer_commit, DocumentAddress,
    DocumentFields, FastLookup, FieldSetting, NumberSetting, TextIndexing, TextSetting,
    WriterHandle,
};
use query::{construct_query_text, query_text};
use page::text_of;
use stats::{can_record, recorded};
use store::{
    is_stats_of, key_prefix, store_entries, stored_record, update_domain_stats, updated,
};
use std::sync::Arc;
use vstd::prelude::*;
use vstd::string::StrSliceExecFns;
use vstd::utf8::valid_utf8;

verus! {

/// Longest query, in characters, that a search accepts.
pub const MAX_QUERY_LENGTH: usize = 256;

/// How many fetched pages may wait to be added to the index; a producer
/// that finds the queue full waits, and no page is dropped.
pub const INGEST_QUEUE_CAPACITY: usize = 1000;

/// Memory that the writer of the index may use, in bytes.
pub const WRITER_MEMORY_BUDGET: usize = 50_000_000;

/// The result of a web search.
#[derive(Debug)]
pub struct SearchResult {
    pub title: String,
    pub url: String,
    /// A relevant snippet from the page.
    pub snippet: String,
}

/// Why a document could not be added or a commit could not be made.
#[derive(Debug)]
pub enum IndexError {
    /// The index engine failed.
    Engine(tantivy::TantivyError),
    /// The document is in the index, but the aggregates of its domain
    /// could not be updated.
    Stats(StatsError),
}

/// Why a search gave no results.
#[derive(Debug)]
pub enum SearchError {
    /// The query is longer than `MAX_QUERY_LENGTH` characters.
    QueryTooLong,
    /// The index engine failed.
    Engine(tantivy::TantivyError),
    /// A document that matched holds no title or no address.
    MissingField,
}

/// What a wake-up of the commit scheduler did.
#[derive(Debug)]
pub enum CommitOutcome {
    /// Nothing was added since the last commit: nothing to do.
    Clean,
    /// What was added is committed.
    Committed,
    /// The commit failed; it is tried again at the next wake-up.
    Failed(tantivy::TantivyError),
}

/// The read side of the gateway: it answers queries from what was
/// committed. It can be shared, and its searches need not wait for the
/// writer.
pub struct SearchHandle {
    schema: tantivy::schema::Schema,
    reader: tantivy::IndexReader,
    query_parser: tantivy::query::QueryParser,
    tech_term_boost: String,
}

/// The count that the gateway keeps of its writes: whether it is dirty,
/// the documents that the index engine has taken, and how many of them a
/// commit has covered. It is dirty just when documents wait for a commit.
pub struct WriteLog {
    is_dirty: bool,
    added: Ghost<Seq<DocumentView>>,
    committed: Ghost<nat>,
}

/// The gateway to the full-text index and to the aggregates of the
/// domains. It owns the one writer of the index.
pub struct Indexer {
    #[allow(dead_code)]
    index: tantivy::Index,
    index_writer: WriterHandle,
    searching: Arc<SearchHandle>,
    stats_db: sled::Db,
    log: WriteLog,
    config: IndexerConfig,
}

/// Another owner of a shared value, by `Arc::clone`.
#[verifier::external_body]
pub(crate) fn share<T>(shared: &Arc<T>) -> (copy: Arc<T>)
    ensures
        copy == *shared,
{
    Arc::clone(shared)
}

impl WriteLog {
    /// Whether documents were added that no commit has covered.
    pub closed spec fn dirty(&self) -> bool {
        self.is_dirty
    }

    /// The documents that the index engine has taken, in their order.
    pub closed spec fn added(&self) -> Seq<DocumentView> {
        self.added@
    }

    /// How many of the added documents a commit has covered.
    pub closed spec fn committed(&self) -> nat {
        self.committed@
    }

    #[verifier::type_invariant]
    spec fn in_order(&self) -> bool {
        &&& self.committed@ <= self.added@.len()
        &&& self.is_dirty <==> self.committed@ < self.added@.len()
    }

    /// The count of a gateway that has written nothing.
    fn new() -> (log: WriteLog)
        ensures
            !log.dirty(),
            log.added().len() == 0,
            log.committed() == 0,
    {
        WriteLog { is_dirty: false, added: Ghost(Seq::empty()), committed: Ghost(0) }
    }

    /// Whether documents were added that no commit has covered: whether
    /// fewer documents are covered than were added.
    fn is_dirty(&self) -> (dirty: bool)
        ensures
            dirty == self.dirty(),
            self.committed() <= self.added().len(),
            dirty <==> self.committed() < self.added().len(),
    {
        proof {
            use_type_invariant(self);
        }
        self.is_dirty
    }

    /// Takes note that the index engine has taken a document.
    fn note_added(&mut self, document: Ghost<DocumentView>)
        ensures
            final(self).dirty(),
            final(self).added() == old(self).added().push(document@),
            final(self).committed() == old(self).committed(),
            final(self).committed() < final(self).added().len(),
    {
        proof {
            use_type_invariant(&*self);
        }
        *self = WriteLog {
            is_dirty: true,
            added: Ghost(self.added@.push(document@)),
            committed: Ghost(self.committed@),
        };
    }

    /// Takes note that a commit has covered all that was added.
    fn note_committed(&mut self)
        ensures
            !final(self).dirty(),
            final(self).added() == old(self).added(),
            final(self).committed() == final(self).added().len(),
    {
        *self = WriteLog {
            is_dirty: false,
            added: Ghost(self.added@),
            committed: Ghost(self.added@.len()),
        };
    }
}

/// A search result from what a matching document holds: its title, its
/// address, and the snippet made for it. A document without a title or
/// without an address gives an error.
pub fn search_result(title: Option<String>, url: Option<String>, snippet: String) -> (made: Result<
    SearchResult,
    SearchError,
>)
    ensures
        match (title, url) {
            (Some(title), Some(url)) => made matches Ok(result) && result.title == title
                && result.url == url && result.snippet == snippet,
            _ => made matches Err(SearchError::MissingField),
        },
{
    match (title, url) {
        (Some(title), Some(url)) => Ok(SearchResult { title, url, snippet }),
        _ => Err(SearchError::MissingField),
    }
}

impl SearchError {
    /// What went wrong, for the log.
    pub fn message(&self) -> (text: String)
        ensures
            self is QueryTooLong ==> text@ == "Query too long - maximum length is 256 characters"@,
            self is MissingField ==> text@ == "A stored document lacks its title or its address"@,
    {
        match self {
            SearchError::QueryTooLong => "Query too long - maximum length is 256 characters".to_owned(),
            SearchError::Engine(error) => error.to_string(),
            SearchError::MissingField => "A stored document lacks its title or its address".to_owned(),
        }
    }

    /// What the one who searched is told: that the query is too long, in
    /// full, and of any other failure only that the search failed.
    pub fn user_message(&self) -> (text: String)
        ensures
            text@ == if self is QueryTooLong {
                "Query too long - maximum length is 256 characters"@
            } else {
                "An error occurred while searching"@
            },
    {
        match self {
            SearchError::QueryTooLong => self.message(),
            _ => "An error occurred while searching".to_owned(),
        }
    }
}

impl IndexError {
    /// What went wrong, for the log: what the index engine says of its
    /// failure, or what went wrong with the aggregates.
    pub fn message(&self) -> (text: String)
        ensures
            self matches IndexError::Stats(StatsError::Overflow) ==> text@
                == "The page count or the total size of the domain is too large"@,
            self matches IndexError::Stats(StatsError::BadKey) ==> text@
                == "A stored key holds no domain name"@,
    {
        match self {
            IndexError::Engine(error) => error.to_string(),
            IndexError::Stats(error) => error.message(),
        }
    }
}

/// Whether what was gathered of a matching document holds a title and an
/// address.
pub open spec fn is_complete(gathered: (Option<String>, Option<String>, String)) -> bool {
    gathered.0 is Some && gathered.1 is Some
}

/// The search results from what was gathered of the matching documents,
/// best first: of each its title, its address, and the snippet made for
/// it. There is one result for each document, in the same order; where a
/// document lacks its title or its address, the search fails.
pub fn search_results(found: &Vec<(Option<String>, Option<String>, String)>) -> (made: Result<
    Vec<SearchResult>,
    SearchError,
>)
    ensures
        match made {
            Ok(results) => {
                &&& results.len() == found.len()
                &&& forall|i: int|
                    0 <= i < found.len() ==> {
                        &&& is_complete(#[trigger] found[i])
                        &&& results[i].title == found[i].0->0
                        &&& results[i].url == found[i].1->0
                        &&& results[i].snippet == found[i].2
                    }
            },
            Err(error) => error is MissingField && exists|i: int|
                0 <= i < found.len() && !is_complete(#[trigger] found[i]),
        },
{
    let mut results: Vec<SearchResult> = Vec::new();
    let mut i: usize = 0;
    while i < found.len()
        invariant
            i <= found.len(),
            results.len() == i,
            forall|k: int|
                0 <= k < i ==> {
                    &&& is_complete(#[trigger] found[k])
                    &&& results[k].title == found[k].0->0
                    &&& results[k].url == found[k].1->0
                    &&& results[k].snippet == found[k].2
                },
        decreases found.len() - i,
    {
        let title = match &found[i].0 {
            Some(title) => Some(title.clone()),
            None => None,
        };
        let url = match &found[i].1 {
            Some(url) => Some(url.clone()),
            None => None,
        };
        match search_result(title, url, found[i].2.clone()) {
            Ok(result) => results.push(result),
            Err(error) => {
                assert(!is_complete(found[i as int]));
                return Err(error);
            },
        }
        i += 1;
    }
    Ok(results)
}

/// The names of the fields of a document of the index, in their order.
pub open spec fn document_field_names() -> Seq<Seq<char>> {
    seq!["title"@, "description"@, "body"@, "url"@, "domain"@, "size"@]
}

/// The tokenizer of the texts that are searched.
pub const TEXT_TOKENIZER: &'static str = "en_stem";

/// A text that is stored and searched, cut by the tokenizer of the index.
pub open spec fn searched_text(
    record: tantivy::schema::IndexRecordOption,
    fast: FastLookup,
) -> FieldSetting {
    FieldSetting::Text(
        TextSetting {
            indexing: Some(TextIndexing { tokenizer: TEXT_TOKENIZER@, record }),
            stored: true,
            fast,
        },
    )
}

/// A text that is stored as it is and not searched.
pub open spec fn kept_text(fast: FastLookup) -> FieldSetting {
    FieldSetting::Text(TextSetting { indexing: None, stored: true, fast })
}

/// What is set of the fields of a document of the index, in their order:
/// title and description are searched with term frequencies and have fast
/// lookup by the tokenizer; the body is searched with frequencies and
/// positions; the address is only stored; the domain is stored with fast
/// lookup; the size is a stored number with fast lookup.
pub open spec fn document_field_settings() -> Seq<FieldSetting> {
    seq![
        searched_text(
            tantivy::schema::IndexRecordOption::WithFreqs,
            FastLookup::WithTokenizer(TEXT_TOKENIZER@),
        ),
        searched_text(
            tantivy::schema::IndexRecordOption::WithFreqs,
            FastLookup::WithTokenizer(TEXT_TOKENIZER@),
        ),
        searched_text(tantivy::schema::IndexRecordOption::WithFreqsAndPositions, FastLookup::Off),
        kept_text(FastLookup::Off),
        kept_text(FastLookup::On),
        FieldSetting::Number(NumberSetting { indexed: false, stored: true, fast: true }),
    ]
}

/// A name that differs from every name of a list is not among them.
proof fn lemma_new_name(names: Seq<Seq<char>>, name: Seq<char>)
    requires
        forall|i: int| 0 <= i < names.len() ==> #[trigger] names[i] != name,
    ensures
        !names.contains(name),
{
}

/// The names of the fields of a document differ from each other, and each
/// can be the name of a field.
proof fn lemma_document_field_names()
    ensures
        "title"@.len() == 5 && "title"@[0] == 't',
        "description"@.len() == 11 && "description"@[0] == 'd',
        "body"@.len() == 4 && "body"@[0] == 'b',
        "url"@.len() == 3 && "url"@[0] == 'u',
        "domain"@.len() == 6 && "domain"@[0] == 'd',
        "size"@.len() == 4 && "size"@[0] == 's',
{
    reveal_strlit("title");
    reveal_strlit("description");
    reveal_strlit("body");
    reveal_strlit("url");
    reveal_strlit("domain");
    reveal_strlit("size");
}

/// The name of the field that holds the title of a document.
pub const TITLE_FIELD: &'static str = "title";

/// The name of the field that holds the description of a document.
pub const DESCRIPTION_FIELD: &'static str = "description";

/// The name of the field that holds the body of a document.
pub const BODY_FIELD: &'static str = "body";

/// The name of the field that holds the address of a document.
pub const URL_FIELD: &'static str = "url";

/// How many matches a search for `num_docs` results asks the engine for.
pub open spec fn limit_of(num_docs: usize) -> usize {
    if num_docs > MAX_SEARCH_RESULTS {
        MAX_SEARCH_RESULTS
    } else {
        num_docs
    }
}

/// How many matches a search for `num_docs` results asks the engine for:
/// as many, but never more than `MAX_SEARCH_RESULTS`.
pub fn search_limit(num_docs: usize) -> (limit: usize)
    ensures
        limit == limit_of(num_docs),
{
    if num_docs > MAX_SEARCH_RESULTS {
        MAX_SEARCH_RESULTS
    } else {
        num_docs
    }
}

/// `text` is what a document holds under the field of this name, among
/// fields with these names.
pub open spec fn is_text_named(
    names: Seq<Seq<char>>,
    document: tantivy::TantivyDocument,
    name: Seq<char>,
    text: Option<Seq<char>>,
) -> bool {
    exists|place: nat|
        place < names.len() && names[place as int] == name && #[trigger] document_text(
            document,
            place,
        ) == text
}

/// `text` is what a snapshot holds for the document at a place under the
/// field of this name.
pub open spec fn is_stored_text(
    searcher: tantivy::Searcher,
    address: (u32, u32),
    name: Seq<char>,
    text: Option<Seq<char>>,
) -> bool {
    exists|place: nat|
        place < snapshot_fields(searcher).len() && snapshot_fields(searcher)[place as int] == name
            && #[trigger] snapshot_text(searcher, address, place) == text
}

/// The stored title and the stored address of a fetched document, each
/// looked up by the name of its field in the schema, and the snippet that
/// a generator makes of the document. Where the schema has no field for
/// the title or for the address, the engine's error is returned.
pub fn stored_values(
    schema: &tantivy::schema::Schema,
    document: &tantivy::TantivyDocument,
    generator: &tantivy::snippet::SnippetGenerator,
) -> (values: Result<(Option<String>, Option<String>, String), tantivy::TantivyError>)
    ensures
        values is Ok <==> schema_fields(*schema).contains(TITLE_FIELD@) && schema_fields(
            *schema,
        ).contains(URL_FIELD@),
        values matches Ok(found) ==> {
            &&& is_text_named(schema_fields(*schema), *document, TITLE_FIELD@, text_of(found.0))
            &&& is_text_named(schema_fields(*schema), *document, URL_FIELD@, text_of(found.1))
        },
{
    let title_field = schema_field(schema, TITLE_FIELD)?;
    let url_field = schema_field(schema, URL_FIELD)?;
    let title = stored_text(document, title_field);
    let url = stored_text(document, url_field);
    let snippet = snippet_html(generator, document);
    proof {
        assert(document_text(*document, field_place(title_field)) == text_of(title));
        assert(document_text(*document, field_place(url_field)) == text_of(url));
    }
    Ok((title, url, snippet))
}

/// `results` answers a query text on a snapshot: there is one result for
/// each of the best matches of the text, at most `limit` of them, in the
/// engine's order, and each result holds the title and the address that
/// the snapshot holds for its match.
pub open spec fn is_answer(
    results: Seq<SearchResult>,
    searcher: tantivy::Searcher,
    parser: tantivy::query::QueryParser,
    text: Seq<char>,
    limit: nat,
) -> bool {
    let matches = top_matches(searcher, parser, text, limit);
    &&& results.len() == matches.len()
    &&& forall|i: int|
        0 <= i < results.len() ==> {
            &&& is_stored_text(searcher, matches[i], TITLE_FIELD@, Some((#[trigger] results[i]).title@))
            &&& is_stored_text(searcher, matches[i], URL_FIELD@, Some(results[i].url@))
        }
}

impl SearchHandle {
    /// The parser, the reader and the schema are of one index.
    #[verifier::type_invariant]
    spec fn paired(&self) -> bool {
        &&& parser_fields(self.query_parser) == reader_fields(self.reader)
        &&& schema_fields(self.schema) == reader_fields(self.reader)
    }

    /// The boost of technology terms, as it is written behind `^`.
    pub closed spec fn boost(&self) -> Seq<char> {
        self.tech_term_boost@
    }

    /// The names of the fields of the index's schema, in their order.
    pub closed spec fn field_names(&self) -> Seq<Seq<char>> {
        schema_fields(self.schema)
    }

    /// The parser of the queries.
    pub closed spec fn parser(&self) -> tantivy::query::QueryParser {
        self.query_parser
    }

    /// The snapshots that searches run on are taken of the index that
    /// this handle reads.
    pub closed spec fn reads(&self, searcher: tantivy::Searcher) -> bool {
        snapshot_fields(searcher) == reader_fields(self.reader)
    }

    /// The generator of snippets of the body for a query text.
    fn body_snippets(&self, searcher: &tantivy::Searcher, text: &str) -> (generator: Result<
        tantivy::snippet::SnippetGenerator,
        tantivy::TantivyError,
    >)
        requires
            self.reads(*searcher),
        ensures
            generator matches Ok(made) ==> generator_place(made) < snapshot_fields(*searcher).len()
                && snapshot_fields(*searcher)[generator_place(made) as int] == BODY_FIELD@,
    {
        proof {
            use_type_invariant(self);
        }
        snippet_generator(searcher, &self.query_parser, text, BODY_FIELD)
    }

    /// Gathers of each of the matches at these places of a snapshot its
    /// stored title, its stored address and a snippet of its body for the
    /// query text, in the order of the places.
    fn gather(
        &self,
        searcher: &tantivy::Searcher,
        addresses: &Vec<DocumentAddress>,
        text: &str,
    ) -> (found: Result<Vec<(Option<String>, Option<String>, String)>, SearchError>)
        requires
            self.reads(*searcher),
            forall|k: int|
                0 <= k < addresses.len() ==> snapshot_addresses(*searcher).contains(
                    ((#[trigger] addresses[k]).segment, addresses[k].document),
                ),
        ensures
            found matches Ok(gathered) ==> {
                &&& gathered.len() == addresses.len()
                &&& forall|i: int|
                    0 <= i < gathered.len() ==> {
                        &&& is_stored_text(
                            *searcher,
                            (addresses[i].segment, addresses[i].document),
                            TITLE_FIELD@,
                            text_of((#[trigger] gathered[i]).0),
                        )
                        &&& is_stored_text(
                            *searcher,
                            (addresses[i].segment, addresses[i].document),
                            URL_FIELD@,
                            text_of(gathered[i].1),
                        )
                    }
            },
            found matches Err(error) ==> error is Engine,
    {
        proof {
            use_type_invariant(self);
        }
        let mut gathered: Vec<(Option<String>, Option<String>, String)> = Vec::new();
        let mut i: usize = 0;
        while i < addresses.len()
            invariant
                i <= addresses.len(),
                gathered.len() == i,
                self.reads(*searcher),
                schema_fields(self.schema) == snapshot_fields(*searcher),
                forall|k: int|
                    0 <= k < addresses.len() ==> snapshot_addresses(*searcher).contains(
                        ((#[trigger] addresses[k]).segment, addresses[k].document),
                    ),
                forall|k: int|
                    0 <= k < i ==> {
                        &&& is_stored_text(
                            *searcher,
                            (addresses[k].segment, addresses[k].document),
                            TITLE_FIELD@,
                            text_of((#[trigger] gathered[k]).0),
                        )
                        &&& is_stored_text(
                            *searcher,
                            (addresses[k].segment, addresses[k].document),
                            URL_FIELD@,
                            text_of(gathered[k].1),
                        )
                    },
            decreases addresses.len() - i,
        {
            let address = addresses[i];
            let document = match fetch_document(searcher, address) {
                Ok(document) => document,
                Err(error) => {
                    return Err(SearchError::Engine(error));
                },
            };
            let generator = match self.body_snippets(searcher, text) {
                Ok(generator) => generator,
                Err(error) => {
                    return Err(SearchError::Engine(error));
                },
            };
            let values = match stored_values(&self.schema, &document, &generator) {
                Ok(values) => values,
                Err(error) => {
                    return Err(SearchError::Engine(error));
                },
            };
            proof {
                let names = schema_fields(self.schema);
                let place = (address.segment, address.document);
                let title = choose|at: nat|
                    at < names.len() && names[at as int] == TITLE_FIELD@ && #[trigger] document_text(
                        document,
                        at,
                    ) == text_of(values.0);
                assert(snapshot_text(*searcher, place, title) == text_of(values.0));
                let url = choose|at: nat|
                    at < names.len() && names[at as int] == URL_FIELD@ && #[trigger] document_text(
                        document,
                        at,
                    ) == text_of(values.1);
                assert(snapshot_text(*searcher, place, url) == text_of(values.1));
            }
            gathered.push(values);
            i += 1;
        }
        Ok(gathered)
    }

    /// Searches what was committed for a query and gives up to `num_docs`
    /// results, and never more than `MAX_SEARCH_RESULTS`. A query of more
    /// than `MAX_QUERY_LENGTH` characters is refused before the index is
    /// touched, and no other query is. A search on an index without a
    /// body field fails. Else the engine is asked, on a
    /// snapshot of the index, for the best matches of `query_text` of the
    /// query and the boost, `limit_of(num_docs)` at most; the results are
    /// these matches in the engine's order, each with the stored title
    /// and address of its document and a snippet of its body. A match
    /// without title or address gives `MissingField`.
    pub fn search(&self, query_str: &str, num_docs: usize) -> (found: Result<
        Vec<SearchResult>,
        SearchError,
    >)
        ensures
            found matches Err(SearchError::QueryTooLong) <==> query_str@.len() > MAX_QUERY_LENGTH,
            found matches Ok(results) ==> results.len() <= num_docs && results.len()
                <= MAX_SEARCH_RESULTS,
            query_str@.len() <= MAX_QUERY_LENGTH && num_docs == 0 ==> (found matches Ok(results)
                && results.len() == 0),
            num_docs > 0 && !self.field_names().contains(BODY_FIELD@) ==> found is Err,
            num_docs > 0 ==> (found matches Ok(results) ==> exists|searcher: tantivy::Searcher|
                self.reads(searcher) && #[trigger] is_answer(
                    results@,
                    searcher,
                    self.parser(),
                    query_text(query_str@, self.boost()),
                    limit_of(num_docs) as nat,
                )),
    {
        if query_str.unicode_len() > MAX_QUERY_LENGTH {
            return Err(SearchError::QueryTooLong);
        }
        if num_docs == 0 {
            return Ok(Vec::new());
        }
        proof {
            use_type_invariant(self);
        }
        let limit = search_limit(num_docs);
        // An index without a body gives no snippets: the search is refused.
        match schema_field(&self.schema, BODY_FIELD) {
            Ok(_) => {},
            Err(error) => {
                return Err(SearchError::Engine(error));
            },
        }
        let text = construct_query_text(query_str, self.tech_term_boost.as_str());
        let searcher = reader_searcher(&self.reader);
        let addresses = match top_addresses(&searcher, &self.query_parser, text.as_str(), limit) {
            Ok(addresses) => addresses,
            Err(error) => {
                return Err(SearchError::Engine(error));
            },
        };
        let gathered = match self.gather(&searcher, &addresses, text.as_str()) {
            Ok(gathered) => gathered,
            Err(error) => {
                return Err(error);
            },
        };
        match search_results(&gathered) {
            Ok(results) => {
                proof {
                    let matches = top_matches(searcher, self.query_parser, text@, limit as nat);
                    assert(matches.len() == addresses.len());
                    assert forall|i: int| 0 <= i < results.len() implies is_stored_text(
                        searcher,
                        matches[i],
                        TITLE_FIELD@,
                        Some((#[trigger] results[i]).title@),
                    ) && is_stored_text(searcher, matches[i], URL_FIELD@, Some(results[i].url@)) by {
                        assert(matches[i] == (addresses[i].segment, addresses[i].document));
                        assert(is_complete(gathered[i]));
                        assert(text_of(gathered[i].0) == Some(results[i].title@));
                        assert(text_of(gathered[i].1) == Some(results[i].url@));
                    }
                    assert(is_answer(
                        results@,
                        searcher,
                        self.parser(),
                        query_text(query_str@, self.boost()),
                        limit_of(num_docs) as nat,
                    ));
                    assert(self.reads(searcher));
                }
                Ok(results)
            },
            Err(error) => Err(error),
        }
    }
}

/// What adding a document does to a gateway. Where the index engine
/// refuses the document, nothing is changed. Else the document is added
/// and the gateway is dirty; and the document is counted for its domain
/// with its address and its size, unless the error says that it could
/// not be.
pub open spec fn is_addition(
    before: Indexer,
    after: Indexer,
    document: DocumentView,
    done: Result<(), IndexError>,
) -> bool {
    let record = stored_record(before.stats(), document.domain);
    &&& after.settings() == before.settings()
    &&& after.searching() == before.searching()
    &&& after.committed() == before.committed()
    &&& after.committed() <= after.added().len()
    &&& after.dirty() <==> after.committed() < after.added().len()
    &&& match done {
        Ok(()) => {
            &&& after.dirty()
            &&& after.added() == before.added().push(document)
            &&& can_record(record, document.size)
            &&& after.stats() == updated(
                before.stats(),
                document.domain,
                document.url,
                document.size,
            )
            &&& stored_record(after.stats(), document.domain) == recorded(
                record,
                document.url,
                document.size,
            )
        },
        Err(IndexError::Engine(_)) => {
            &&& after.dirty() == before.dirty()
            &&& after.added() == before.added()
            &&& after.stats() == before.stats()
        },
        Err(IndexError::Stats(error)) => {
            &&& after.dirty()
            &&& after.added() == before.added().push(document)
            &&& error is Overflow ==> after.stats() == before.stats() && !can_record(
                record,
                document.size,
            )
            &&& error is Encode || error is Read ==> after.stats() == before.stats()
            &&& !(error is Decode) && !(error is BadKey)
        },
    }
}

impl Indexer {
    /// The schema of the index: title, description and body are stored
    /// and searched as stemmed English text, the body with the positions
    /// of its words, title and description with fast lookup; address and
    /// domain are stored as they are, the domain with fast lookup; the
    /// size is a stored number with fast lookup.
    #[verifier::spinoff_prover]
    pub fn create_schema() -> (schema: tantivy::schema::Schema)
        ensures
            schema_fields(schema) == document_field_names(),
            schema_settings(schema) == document_field_settings(),
    {
        proof {
            lemma_document_field_names();
        }
        let mut schema_builder = schema_builder();
        assert(builder_fields(schema_builder) =~= Seq::<Seq<char>>::empty());

        let text_options_fast = with_fast_lookup(
            indexed_stored_text(TEXT_TOKENIZER, tantivy::schema::IndexRecordOption::WithFreqs),
            TEXT_TOKENIZER,
        );
        let text_options_body = indexed_stored_text(
            TEXT_TOKENIZER,
            tantivy::schema::IndexRecordOption::WithFreqsAndPositions,
        );

        add_text_field(&mut schema_builder, "title", text_options_fast);
        let ghost names = seq!["title"@];
        assert(builder_fields(schema_builder) =~= names);
        proof {
            lemma_new_name(names, "description"@);
        }
        let text_options_fast = with_fast_lookup(
            indexed_stored_text(TEXT_TOKENIZER, tantivy::schema::IndexRecordOption::WithFreqs),
            TEXT_TOKENIZER,
        );
        add_text_field(&mut schema_builder, "description", text_options_fast);
        let ghost names = seq!["title"@, "description"@];
        assert(builder_fields(schema_builder) =~= names);
        proof {
            lemma_new_name(names, "body"@);
        }
        add_text_field(&mut schema_builder, "body", text_options_body);
        let ghost names = seq!["title"@, "description"@, "body"@];
        assert(builder_fields(schema_builder) =~= names);
        proof {
            lemma_new_name(names, "url"@);
        }
        add_text_field(&mut schema_builder, "url", stored_text_options());
        let ghost names = seq!["title"@, "description"@, "body"@, "url"@];
        assert(builder_fields(schema_builder) =~= names);
        proof {
            lemma_new_name(names, "domain"@);
        }
        add_text_field(&mut schema_builder, "domain", stored_fast_text_options());
        let ghost names = seq!["title"@, "description"@, "body"@, "url"@, "domain"@];
        assert(builder_fields(schema_builder) =~= names);
        proof {
            lemma_new_name(names, "size"@);
        }
        add_u64_field(&mut schema_builder, "size", stored_fast_number_options());

        let schema = build_schema(schema_builder);
        assert(schema_fields(schema) =~= document_field_names());
        assert(schema_settings(schema) =~= document_field_settings());
        schema
    }

    /// Whether documents were added that no commit has covered.
    pub closed spec fn dirty(&self) -> bool {
        self.log.dirty()
    }

    /// What the store of the aggregates holds.
    pub closed spec fn stats(&self) -> Map<Seq<u8>, Seq<u8>> {
        store_entries(self.stats_db)
    }

    /// The settings that the gateway was made with.
    pub closed spec fn settings(&self) -> IndexerConfig {
        self.config
    }

    /// The boost of technology terms, as it is written behind `^`.
    pub open spec fn boost(&self) -> Seq<char> {
        self.settings().tech_term_boost@
    }

    /// The read side of the gateway.
    pub closed spec fn searching(&self) -> SearchHandle {
        *self.searching
    }

    /// The documents that the index engine has taken from this gateway, in
    /// their order.
    pub closed spec fn added(&self) -> Seq<DocumentView> {
        self.log.added()
    }

    /// How many of the added documents a commit of this gateway has
    /// covered.
    pub closed spec fn committed(&self) -> nat {
        self.log.committed()
    }

    /// The added documents that a commit has covered.
    pub open spec fn covered(&self) -> Seq<DocumentView> {
        self.added().take(self.committed() as int)
    }

    /// The added documents that wait for a commit.
    pub open spec fn pending(&self) -> Seq<DocumentView> {
        self.added().skip(self.committed() as int)
    }

    /// The query parser of an index: it searches title, body and
    /// description where a query names no field. The caller may set the
    /// weights of the fields before it hands the parser to `new`.
    pub fn create_query_parser(index: &tantivy::Index) -> (made: Result<
        tantivy::query::QueryParser,
        IndexError,
    >)
        ensures
            made matches Ok(parser) ==> parser_fields(parser) == index_fields(*index),
            made is Ok <==> index_fields(*index).contains(TITLE_FIELD@) && index_fields(
                *index,
            ).contains(BODY_FIELD@) && index_fields(*index).contains(DESCRIPTION_FIELD@),
            made matches Err(error) ==> error is Engine,
    {
        let schema = index_schema(index);
        let title_field = match schema_field(&schema, TITLE_FIELD) {
            Ok(field) => field,
            Err(error) => {
                return Err(IndexError::Engine(error));
            },
        };
        let body_field = match schema_field(&schema, BODY_FIELD) {
            Ok(field) => field,
            Err(error) => {
                return Err(IndexError::Engine(error));
            },
        };
        let description_field = match schema_field(&schema, DESCRIPTION_FIELD) {
            Ok(field) => field,
            Err(error) => {
                return Err(IndexError::Engine(error));
            },
        };
        let mut default_fields: Vec<tantivy::schema::Field> = Vec::new();
        default_fields.push(title_field);
        default_fields.push(body_field);
        default_fields.push(description_field);
        Ok(index_parser(index, default_fields))
    }

    /// The gateway to an index and a store that are open, with the query
    /// parser of the index as `create_query_parser` makes it.
    pub fn open(index: tantivy::Index, stats_db: sled::Db, config: &IndexerConfig) -> (made: Result<
        Indexer,
        IndexError,
    >)
        ensures
            made matches Ok(indexer) ==> {
                &&& !indexer.dirty()
                &&& indexer.added().len() == 0
                &&& indexer.committed() == 0
                &&& indexer.stats() == store_entries(stats_db)
                &&& indexer.settings() == *config
                &&& indexer.searching().boost() == config.tech_term_boost@
            },
            made matches Err(error) ==> error is Engine,
    {
        match Indexer::create_query_parser(&index) {
            Ok(query_parser) => Indexer::new(index, query_parser, stats_db, config),
            Err(error) => Err(error),
        }
    }

    /// The gateway to an index and a store that are open. The index is
    /// given a reader that takes up every commit and its one writer; the
    /// gateway starts clean. The query parser must have been made for
    /// this index, as `create_query_parser` makes it: the engine does not
    /// check a parser's fields against the index that is searched. The
    /// store must have no other writer.
    pub fn new(
        index: tantivy::Index,
        query_parser: tantivy::query::QueryParser,
        stats_db: sled::Db,
        config: &IndexerConfig,
    ) -> (made: Result<Indexer, IndexError>)
        requires
            parser_fields(query_parser) == index_fields(index),
        ensures
            made matches Ok(indexer) ==> {
                &&& !indexer.dirty()
                &&& indexer.added().len() == 0
                &&& indexer.committed() == 0
                &&& indexer.stats() == store_entries(stats_db)
                &&& indexer.settings() == *config
                &&& indexer.searching().boost() == config.tech_term_boost@
            },
            made matches Err(error) ==> error is Engine,
    {
        let schema = index_schema(&index);
        let reader = match open_reader(&index, tantivy::ReloadPolicy::OnCommitWithDelay) {
            Ok(reader) => reader,
            Err(error) => {
                return Err(IndexError::Engine(error));
            },
        };
        let index_writer = match open_writer(&index, WRITER_MEMORY_BUDGET) {
            Ok(writer) => writer,
            Err(error) => {
                return Err(IndexError::Engine(error));
            },
        };
        let searching = Arc::new(
            SearchHandle {
                schema,
                reader,
                query_parser,
                tech_term_boost: config.tech_term_boost.clone(),
            },
        );
        Ok(
            Indexer {
                index,
                index_writer,
                searching,
                stats_db,
                log: WriteLog::new(),
                config: config.duplicate(),
            },
        )
    }

    /// Whether documents were added that no commit has covered; that is,
    /// whether documents wait for a commit.
    pub fn is_dirty(&self) -> (dirty: bool)
        ensures
            dirty == self.dirty(),
            self.committed() <= self.added().len(),
            dirty <==> self.pending().len() > 0,
    {
        self.log.is_dirty()
    }

    /// The settings that the gateway was made with.
    pub fn config(&self) -> (config: &IndexerConfig)
        ensures
            *config == self.settings(),
    {
        &self.config
    }

    /// The fields of the schema that a document fills, each looked up by
    /// its name. They are found just when the schema has them all.
    fn document_fields(&self) -> (fields: Result<DocumentFields, tantivy::TantivyError>)
        ensures
            fields is Ok <==> has_document_fields(self.searching().field_names()),
            fields matches Ok(found) ==> found.are_named_in(self.searching().field_names()),
    {
        let schema = &self.searching.schema;
        let title = schema_field(schema, "title")?;
        let description = schema_field(schema, "description")?;
        let body = schema_field(schema, "body")?;
        let url = schema_field(schema, "url")?;
        let domain = schema_field(schema, "domain")?;
        let size = schema_field(schema, "size")?;
        Ok(DocumentFields { title, description, body, url, domain, size })
    }

    /// Adds a document to the index and counts it for its domain. The
    /// document is searchable after the next commit. Where the index
    /// engine refuses the document, nothing is changed. Else the gateway
    /// is dirty, and where the aggregates of the domain cannot be updated
    /// the error says so.
    pub fn add_document(&mut self, document: &IndexedDocument) -> (done: Result<(), IndexError>)
        ensures
            is_addition(*old(self), *final(self), document@, done),
    {
        proof {
            use_type_invariant(&self.log);
        }
        let fields = match self.document_fields() {
            Ok(fields) => fields,
            Err(error) => {
                return Err(IndexError::Engine(error));
            },
        };
        match writer_add(&self.index_writer, &fields, document) {
            Ok(()) => {},
            Err(error) => {
                return Err(IndexError::Engine(error));
            },
        }
        self.log.note_added(Ghost(document@));
        match update_domain_stats(
            &mut self.stats_db,
            document.domain(),
            document.url(),
            document.size(),
        ) {
            Ok(()) => Ok(()),
            Err(error) => Err(IndexError::Stats(error)),
        }
    }

    /// Extracts the text of a fetched page and adds it as a document: the
    /// document of the page's markup, address and domain. It does to the
    /// gateway what adding that document does.
    pub fn add_page(&mut self, page: &SearchPage) -> (done: Result<(), IndexError>)
        ensures
            is_addition(
                *old(self),
                *final(self),
                document_of(page.page.html@, page.page.url@, page.domain@),
                done,
            ),
    {
        let document = IndexedDocument::from_page(page);
        self.add_document(&document)
    }

    /// Makes what was added searchable. On success the gateway is clean
    /// and all that was added is covered; on failure it is as dirty as
    /// before, so that a later commit tries again. The aggregates of the
    /// domains are not touched.
    pub fn commit(&mut self) -> (done: Result<(), IndexError>)
        ensures
            final(self).added() == old(self).added(),
            final(self).stats() == old(self).stats(),
            final(self).settings() == old(self).settings(),
            final(self).searching() == old(self).searching(),
            done is Ok ==> !final(self).dirty() && final(self).committed() == final(self).added().len(),
            done is Err ==> final(self).dirty() == old(self).dirty() && final(self).committed()
                == old(self).committed(),
            done matches Err(error) ==> error is Engine,
    {
        match writer_commit(&mut self.index_writer) {
            Ok(()) => {
                self.log.note_committed();
                Ok(())
            },
            Err(error) => Err(IndexError::Engine(error)),
        }
    }

    /// One wake-up of the commit scheduler: a clean gateway is left
    /// alone; a dirty one is committed, and stays dirty where the commit
    /// fails.
    pub fn commit_if_dirty(&mut self) -> (outcome: CommitOutcome)
        ensures
            final(self).added() == old(self).added(),
            final(self).stats() == old(self).stats(),
            final(self).settings() == old(self).settings(),
            final(self).searching() == old(self).searching(),
            outcome is Clean <==> !old(self).dirty(),
            outcome is Failed <==> final(self).dirty(),
            outcome is Committed ==> old(self).dirty() && !final(self).dirty(),
            outcome is Failed ==> final(self).committed() == old(self).committed(),
            !(outcome is Failed) ==> final(self).committed() == final(self).added().len(),
    {
        if !self.log.is_dirty() {
            return CommitOutcome::Clean;
        }
        match self.commit() {
            Ok(()) => CommitOutcome::Committed,
            Err(IndexError::Engine(error)) => CommitOutcome::Failed(error),
            Err(IndexError::Stats(_)) => CommitOutcome::Committed,
        }
    }

    /// Searches what was committed for a query, as the read side does.
    pub fn search(&self, query_str: &str, num_docs: usize) -> (found: Result<
        Vec<SearchResult>,
        SearchError,
    >)
        ensures
            found matches Err(SearchError::QueryTooLong) <==> query_str@.len() > MAX_QUERY_LENGTH,
            found matches Ok(results) ==> results.len() <= num_docs && results.len()
                <= MAX_SEARCH_RESULTS,
            query_str@.len() <= MAX_QUERY_LENGTH && num_docs == 0 ==> (found matches Ok(results)
                && results.len() == 0),
            num_docs > 0 && !self.searching().field_names().contains(BODY_FIELD@) ==> found
                is Err,
            num_docs > 0 ==> (found matches Ok(results) ==> exists|searcher: tantivy::Searcher|
                self.searching().reads(searcher) && #[trigger] is_answer(
                    results@,
                    searcher,
                    self.searching().parser(),
                    query_text(query_str@, self.searching().boost()),
                    limit_of(num_docs) as nat,
                )),
    {
        let found = self.searching.search(query_str, num_docs);
        proof {
            if num_docs > 0 {
                if found is Ok {
                    let results = found->Ok_0;
                    let handle = self.searching();
                    let searcher = choose|searcher: tantivy::Searcher|
                        handle.reads(searcher) && #[trigger] is_answer(
                            results@,
                            searcher,
                            handle.parser(),
                            query_text(query_str@, handle.boost()),
                            limit_of(num_docs) as nat,
                        );
                    assert(self.searching().reads(searcher));
                }
            }
        }
        found
    }

    /// The read side of the gateway, to be shared with those who search.
    pub fn search_handle(&self) -> (handle: Arc<SearchHandle>)
        ensures
            *handle == self.searching(),
    {
        share(&self.searching)
    }

    /// The aggregates of every domain as they are shown, sorted by domain
    /// name. Where an entry of a domain cannot be read, the error says so.
    pub fn get_domain_stats(&self) -> (found: Result<Vec<DomainStats>, StatsError>)
        ensures
            match found {
                Ok(stats) => is_stats_of(stats@, self.stats()),
                Err(StatsError::BadKey) => exists|key: Seq<u8>|
                    #![trigger self.stats().contains_key(key)]
                    self.stats().contains_key(key) && key_prefix().is_prefix_of(key) && !valid_utf8(
                        key.skip(key_prefix().len() as int),
                    ),
                Err(StatsError::Decode(_)) => exists|key: Seq<u8>|
                    #![trigger self.stats().contains_key(key)]
                    self.stats().contains_key(key) && key_prefix().is_prefix_of(key) && !decodable(
                        self.stats()[key],
                    ),
                Err(StatsError::Read(_)) => true,
                Err(_) => false,
            },
    {
        let found = store::get_domain_stats(&self.stats_db);
        proof {
            let entries = store_entries(self.stats_db);
            match found {
                Err(StatsError::BadKey) => {
                    let key = choose|key: Seq<u8>|
                        #![trigger entries.contains_key(key)]
                        entries.contains_key(key) && key_prefix().is_prefix_of(key) && !valid_utf8(
                            key.skip(key_prefix().len() as int),
                        );
                    assert(self.stats().contains_key(key));
                },
                Err(StatsError::Decode(_)) => {
                    let key = choose|key: Seq<u8>|
                        #![trigger entries.contains_key(key)]
                        entries.contains_key(key) && key_prefix().is_prefix_of(key) && !decodable(
                            entries[key],
                        );
                    assert(self.stats().contains_key(key));
                },
                _ => {},
            }
        }
        found
    }
}

} // verus!
