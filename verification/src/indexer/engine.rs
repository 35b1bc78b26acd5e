//! The calls into the `tantivy` crate, each with what is taken for
//! granted of it.

use vstd::prelude::*;

use crate::indexer::document::IndexedDocument;

verus! {

/// An index of the `tantivy` crate.
#[verifier::external_type_specification]
#[verifier::external_body]
pub struct ExIndex(tantivy::Index);

/// The handle of the `tantivy` crate that reads an index.
#[verifier::external_type_specification]
#[verifier::external_body]
pub struct ExIndexReader(tantivy::IndexReader);

/// When a reader of the `tantivy` crate takes up what was committed.
#[verifier::external_type_specification]
pub struct ExReloadPolicy(tantivy::ReloadPolicy);

/// A snapshot of an index of the `tantivy` crate.
#[verifier::external_type_specification]
#[verifier::external_body]
pub struct ExSearcher(tantivy::Searcher);

/// The query parser of the `tantivy` crate.
#[verifier::external_type_specification]
#[verifier::external_body]
pub struct ExQueryParser(tantivy::query::QueryParser);

/// The schema of an index of the `tantivy` crate.
#[verifier::external_type_specification]
#[verifier::external_body]
pub struct ExSchema(tantivy::schema::Schema);

/// The builder of a schema of the `tantivy` crate.
#[verifier::external_type_specification]
#[verifier::external_body]
pub struct ExSchemaBuilder(tantivy::schema::SchemaBuilder);

/// The options of a text field of the `tantivy` crate.
#[verifier::external_type_specification]
#[verifier::external_body]
pub struct ExTextOptions(tantivy::schema::TextOptions);

/// The options of a number field of the `tantivy` crate.
#[verifier::external_type_specification]
#[verifier::external_body]
pub struct ExNumericOptions(tantivy::schema::NumericOptions);

/// How much of the occurrences of a term the `tantivy` crate records.
#[verifier::external_type_specification]
pub struct ExIndexRecordOption(tantivy::schema::IndexRecordOption);

/// A field of a schema of the `tantivy` crate.
#[verifier::external_type_specification]
#[verifier::external_body]
pub struct ExField(tantivy::schema::Field);

/// A document of the `tantivy` crate.
#[verifier::external_type_specification]
#[verifier::external_body]
pub struct ExTantivyDocument(tantivy::TantivyDocument);

/// The snippet generator of the `tantivy` crate.
#[verifier::external_type_specification]
#[verifier::external_body]
pub struct ExSnippetGenerator(tantivy::snippet::SnippetGenerator);

/// An error of the `tantivy` crate.
#[verifier::external_type_specification]
#[verifier::external_body]
pub struct ExTantivyError(tantivy::TantivyError);

/// The handle of the `tantivy` crate that writes to an index, a
/// `tantivy::IndexWriter`.
#[verifier::external_body]
pub struct WriterHandle {
    writer: tantivy::IndexWriter,
}

/// The fields of the schema that a document fills.
pub struct DocumentFields {
    pub title: tantivy::schema::Field,
    pub description: tantivy::schema::Field,
    pub body: tantivy::schema::Field,
    pub url: tantivy::schema::Field,
    pub domain: tantivy::schema::Field,
    pub size: tantivy::schema::Field,
}

/// The names of the fields that a builder holds, in the order in which
/// they were added.
pub uninterp spec fn builder_fields(builder: tantivy::schema::SchemaBuilder) -> Seq<Seq<char>>;

/// The names of the fields of a schema, in their order.
pub uninterp spec fn schema_fields(schema: tantivy::schema::Schema) -> Seq<Seq<char>>;

/// How a text field has fast lookup.
pub enum FastLookup {
    /// It has none.
    Off,
    /// It has fast lookup of the text as it is.
    On,
    /// It has fast lookup of the text as this tokenizer cuts it.
    WithTokenizer(Seq<char>),
}

/// How the texts of a field are indexed: the tokenizer that cuts them, and
/// how much of each occurrence of a term is recorded.
pub struct TextIndexing {
    pub tokenizer: Seq<char>,
    pub record: tantivy::schema::IndexRecordOption,
}

/// What is set of a text field.
pub struct TextSetting {
    pub indexing: Option<TextIndexing>,
    pub stored: bool,
    pub fast: FastLookup,
}

/// What is set of a number field.
pub struct NumberSetting {
    pub indexed: bool,
    pub stored: bool,
    pub fast: bool,
}

/// What is set of a field.
pub enum FieldSetting {
    Text(TextSetting),
    Number(NumberSetting),
}

/// What options of a text field set: whether and how it is indexed,
/// whether it is stored, and how it has fast lookup.
pub uninterp spec fn text_setting(options: tantivy::schema::TextOptions) -> TextSetting;

/// What options of a number field set: whether it is indexed, stored, and
/// has fast lookup.
pub uninterp spec fn number_setting(options: tantivy::schema::NumericOptions) -> NumberSetting;

/// What is set of the fields that a builder holds, in the order in which
/// they were added.
pub uninterp spec fn builder_settings(builder: tantivy::schema::SchemaBuilder) -> Seq<
    FieldSetting,
>;

/// What is set of the fields of a schema, in their order.
pub uninterp spec fn schema_settings(schema: tantivy::schema::Schema) -> Seq<FieldSetting>;

/// The place of a field in its schema, counted from zero: the number that
/// `tantivy::schema::Field::field_id` gives.
pub uninterp spec fn field_place(field: tantivy::schema::Field) -> nat;

/// `field` is the field of this name among the fields with these names.
pub open spec fn is_field_named(
    names: Seq<Seq<char>>,
    field: tantivy::schema::Field,
    name: Seq<char>,
) -> bool {
    field_place(field) < names.len() && names[field_place(field) as int] == name
}

/// Among the names are those of all the fields that a document fills.
pub open spec fn has_document_fields(names: Seq<Seq<char>>) -> bool {
    &&& names.contains("title"@)
    &&& names.contains("description"@)
    &&& names.contains("body"@)
    &&& names.contains("url"@)
    &&& names.contains("domain"@)
    &&& names.contains("size"@)
}

impl DocumentFields {
    /// Each of the fields is the field of its name among the fields with
    /// these names.
    pub open spec fn are_named_in(self, names: Seq<Seq<char>>) -> bool {
        &&& is_field_named(names, self.title, "title"@)
        &&& is_field_named(names, self.description, "description"@)
        &&& is_field_named(names, self.body, "body"@)
        &&& is_field_named(names, self.url, "url"@)
        &&& is_field_named(names, self.domain, "domain"@)
        &&& is_field_named(names, self.size, "size"@)
    }
}

/// The names that a field can have: not empty, and not starting with `-`.
pub open spec fn is_field_name(name: Seq<char>) -> bool {
    name.len() > 0 && name[0] != '-'
}

/// A builder without fields, by `tantivy::schema::Schema::builder`.
#[verifier::external_body]
pub(crate) fn schema_builder() -> (builder: tantivy::schema::SchemaBuilder)
    ensures
        builder_fields(builder) == Seq::<Seq<char>>::empty(),
        builder_settings(builder) == Seq::<FieldSetting>::empty(),
{
    tantivy::schema::Schema::builder()
}

/// The options of a text field that is stored and is indexed with the
/// given tokenizer and record option, by the setters of
/// `tantivy::schema::TextFieldIndexing` and `tantivy::schema::TextOptions`.
#[verifier::external_body]
pub(crate) fn indexed_stored_text(
    tokenizer: &str,
    record: tantivy::schema::IndexRecordOption,
) -> (options: tantivy::schema::TextOptions)
    ensures
        text_setting(options) == (TextSetting {
            indexing: Some(TextIndexing { tokenizer: tokenizer@, record }),
            stored: true,
            fast: FastLookup::Off,
        }),
{
    let indexing = tantivy::schema::TextFieldIndexing::default().set_tokenizer(
        tokenizer,
    ).set_index_option(record);
    tantivy::schema::TextOptions::default().set_indexing_options(indexing).set_stored()
}

/// The same options with fast lookup under the given tokenizer, by
/// `tantivy::schema::TextOptions::set_fast`.
#[verifier::external_body]
pub(crate) fn with_fast_lookup(options: tantivy::schema::TextOptions, tokenizer: &str) -> (fast:
    tantivy::schema::TextOptions)
    ensures
        text_setting(fast) == (TextSetting {
            indexing: text_setting(options).indexing,
            stored: text_setting(options).stored,
            fast: FastLookup::WithTokenizer(tokenizer@),
        }),
{
    options.set_fast(Some(tokenizer))
}

/// The options of a text field that is only stored, from
/// `tantivy::schema::STORED`.
#[verifier::external_body]
pub(crate) fn stored_text_options() -> (options: tantivy::schema::TextOptions)
    ensures
        text_setting(options) == (TextSetting {
            indexing: None,
            stored: true,
            fast: FastLookup::Off,
        }),
{
    tantivy::schema::STORED.into()
}

/// The options of a text field that is stored and has fast lookup, from
/// `tantivy::schema::STORED` and `tantivy::schema::FAST`.
#[verifier::external_body]
pub(crate) fn stored_fast_text_options() -> (options: tantivy::schema::TextOptions)
    ensures
        text_setting(options) == (TextSetting {
            indexing: None,
            stored: true,
            fast: FastLookup::On,
        }),
{
    (tantivy::schema::STORED | tantivy::schema::FAST).into()
}

/// The options of a number field that is stored and has fast lookup, from
/// `tantivy::schema::STORED` and `tantivy::schema::FAST`.
#[verifier::external_body]
pub(crate) fn stored_fast_number_options() -> (options: tantivy::schema::NumericOptions)
    ensures
        number_setting(options) == (NumberSetting { indexed: false, stored: true, fast: true }),
{
    (tantivy::schema::STORED | tantivy::schema::FAST).into()
}

/// Adds a text field, by `tantivy::schema::SchemaBuilder::add_text_field`,
/// which takes a name that can be a field's and that no field of the
/// builder has yet.
#[verifier::external_body]
pub(crate) fn add_text_field(
    builder: &mut tantivy::schema::SchemaBuilder,
    name: &str,
    options: tantivy::schema::TextOptions,
)
    requires
        is_field_name(name@),
        !builder_fields(*old(builder)).contains(name@),
    ensures
        builder_fields(*final(builder)) == builder_fields(*old(builder)).push(name@),
        builder_settings(*final(builder)) == builder_settings(*old(builder)).push(
            FieldSetting::Text(text_setting(options)),
        ),
{
    builder.add_text_field(name, options);
}

/// Adds a field of unsigned numbers, by
/// `tantivy::schema::SchemaBuilder::add_u64_field`, which takes a name
/// that can be a field's and that no field of the builder has yet.
#[verifier::external_body]
pub(crate) fn add_u64_field(
    builder: &mut tantivy::schema::SchemaBuilder,
    name: &str,
    options: tantivy::schema::NumericOptions,
)
    requires
        is_field_name(name@),
        !builder_fields(*old(builder)).contains(name@),
    ensures
        builder_fields(*final(builder)) == builder_fields(*old(builder)).push(name@),
        builder_settings(*final(builder)) == builder_settings(*old(builder)).push(
            FieldSetting::Number(number_setting(options)),
        ),
{
    builder.add_u64_field(name, options);
}

/// The schema of the fields of a builder, by
/// `tantivy::schema::SchemaBuilder::build`.
#[verifier::external_body]
pub(crate) fn build_schema(builder: tantivy::schema::SchemaBuilder) -> (schema:
    tantivy::schema::Schema)
    ensures
        schema_fields(schema) == builder_fields(builder),
        schema_settings(schema) == builder_settings(builder),
{
    builder.build()
}

/// The names of the fields of the schema of an index, in their order.
pub uninterp spec fn index_fields(index: tantivy::Index) -> Seq<Seq<char>>;

/// The names of the fields of the schema that a query parser was made
/// for, in their order. The queries that it parses speak of these fields.
pub uninterp spec fn parser_fields(parser: tantivy::query::QueryParser) -> Seq<Seq<char>>;

/// The names of the fields of the schema of the index that a reader
/// reads, in their order.
pub uninterp spec fn reader_fields(reader: tantivy::IndexReader) -> Seq<Seq<char>>;

/// The names of the fields of the schema of the index that a snapshot was
/// taken of, in their order.
pub uninterp spec fn snapshot_fields(searcher: tantivy::Searcher) -> Seq<Seq<char>>;

/// The schema of an index, by `tantivy::Index::schema`.
#[verifier::external_body]
pub(crate) fn index_schema(index: &tantivy::Index) -> (schema: tantivy::schema::Schema)
    ensures
        schema_fields(schema) == index_fields(*index),
{
    index.schema()
}

/// Makes a query parser for an index, by
/// `tantivy::query::QueryParser::for_index`, which gives the parser the
/// schema of the index. The fields that are searched where a query names
/// none must be fields of that schema.
#[verifier::external_body]
pub(crate) fn index_parser(index: &tantivy::Index, default_fields: Vec<tantivy::schema::Field>) -> (parser:
    tantivy::query::QueryParser)
    requires
        forall|i: int|
            0 <= i < default_fields.len() ==> field_place(#[trigger] default_fields[i])
                < index_fields(*index).len(),
    ensures
        parser_fields(parser) == index_fields(*index),
{
    tantivy::query::QueryParser::for_index(index, default_fields)
}

/// Looks a field up by its name, by `tantivy::schema::Schema::get_field`,
/// which finds just the fields that the schema has. The field found is
/// the one of that name: a schema numbers its fields in their order, from
/// zero, as `tantivy::schema::SchemaBuilder::add_field` does.
#[verifier::external_body]
pub(crate) fn schema_field(schema: &tantivy::schema::Schema, name: &str) -> (field: Result<
    tantivy::schema::Field,
    tantivy::TantivyError,
>)
    ensures
        field is Ok <==> schema_fields(*schema).contains(name@),
        field matches Ok(found) ==> field_place(found) < schema_fields(*schema).len()
            && schema_fields(*schema)[field_place(found) as int] == name@,
{
    schema.get_field(name)
}

/// Opens the writer of an index with a memory budget in bytes, by
/// `tantivy::Index::writer`.
#[verifier::external_body]
pub(crate) fn open_writer(index: &tantivy::Index, memory_budget: usize) -> (writer: Result<
    WriterHandle,
    tantivy::TantivyError,
>) {
    index.writer(memory_budget).map(|writer| WriterHandle { writer })
}

/// Opens a reader of an index, by `tantivy::Index::reader_builder` and
/// `tantivy::IndexReaderBuilder::try_into`.
#[verifier::external_body]
pub(crate) fn open_reader(index: &tantivy::Index, policy: tantivy::ReloadPolicy) -> (reader: Result<
    tantivy::IndexReader,
    tantivy::TantivyError,
>)
    ensures
        reader matches Ok(opened) ==> reader_fields(opened) == index_fields(*index),
{
    index.reader_builder().reload_policy(policy).try_into()
}

/// Hands a document to the writer, by `tantivy::IndexWriter::add_document`:
/// each text of the document under its field, by
/// `tantivy::TantivyDocument::add_text`, and the size by `add_u64`.
#[verifier::external_body]
pub(crate) fn writer_add(
    writer: &WriterHandle,
    fields: &DocumentFields,
    document: &IndexedDocument,
) -> (done: Result<(), tantivy::TantivyError>) {
    let mut stored = tantivy::TantivyDocument::default();
    stored.add_text(fields.title, document.title());
    stored.add_text(fields.description, document.description());
    stored.add_text(fields.body, document.body());
    stored.add_text(fields.url, document.url());
    stored.add_text(fields.domain, document.domain());
    stored.add_u64(fields.size, document.size());
    writer.writer.add_document(stored).map(|_| ())
}

/// Commits what was handed to the writer, by
/// `tantivy::IndexWriter::commit`.
#[verifier::external_body]
pub(crate) fn writer_commit(writer: &mut WriterHandle) -> (done: Result<
    (),
    tantivy::TantivyError,
>) {
    writer.writer.commit().map(|_| ())
}

/// The snapshot that searches run on, by `tantivy::IndexReader::searcher`.
#[verifier::external_body]
pub(crate) fn reader_searcher(reader: &tantivy::IndexReader) -> (searcher: tantivy::Searcher)
    ensures
        snapshot_fields(searcher) == reader_fields(*reader),
{
    reader.searcher()
}

/// The most matches that one search collects. The collector sets room
/// aside for twice its limit before it searches.
pub const MAX_SEARCH_RESULTS: usize = 1_000_000;

/// The place of a document in a snapshot: its segment, and its number in
/// the segment.
#[derive(Clone, Copy, Debug)]
pub struct DocumentAddress {
    pub segment: u32,
    pub document: u32,
}

/// The places of the documents that a snapshot holds.
pub uninterp spec fn snapshot_addresses(searcher: tantivy::Searcher) -> Set<(u32, u32)>;

/// The places of the best matches of a query text in a snapshot, best
/// first and at most `limit` of them, as the parser reads the text.
pub uninterp spec fn top_matches(
    searcher: tantivy::Searcher,
    parser: tantivy::query::QueryParser,
    query: Seq<char>,
    limit: nat,
) -> Seq<(u32, u32)>;

/// The first value that a snapshot holds for the document at a place under
/// the field at a place of the schema, where that value is a text.
pub uninterp spec fn snapshot_text(
    searcher: tantivy::Searcher,
    address: (u32, u32),
    place: nat,
) -> Option<Seq<char>>;

/// The first value that a document holds under the field at a place of
/// the schema, where that value is a text.
pub uninterp spec fn document_text(document: tantivy::TantivyDocument, place: nat) -> Option<
    Seq<char>,
>;

/// The place, in the schema, of the field that a snippet generator takes
/// its snippets from.
pub uninterp spec fn generator_place(generator: tantivy::snippet::SnippetGenerator) -> nat;

/// The places that a list of addresses holds.
pub open spec fn places_of(addresses: Seq<DocumentAddress>) -> Seq<(u32, u32)> {
    Seq::new(addresses.len(), |i: int| (addresses[i].segment, addresses[i].document))
}

/// Runs a query text: parses it by
/// `tantivy::query::QueryParser::parse_query_lenient`, which drops what it
/// cannot parse, and collects the places of the best matches by
/// `tantivy::Searcher::search` with
/// `tantivy::collector::TopDocs::with_limit`, which keeps at most `limit`
/// of them, best first, does not take a limit of zero and sets room aside
/// for twice the limit. The places are of documents of the snapshot. The
/// parser must have been made for the schema of the snapshot: the engine
/// looks the fields of the parsed query up in that schema unchecked.
#[verifier::external_body]
pub(crate) fn top_addresses(
    searcher: &tantivy::Searcher,
    parser: &tantivy::query::QueryParser,
    query: &str,
    limit: usize,
) -> (found: Result<Vec<DocumentAddress>, tantivy::TantivyError>)
    requires
        0 < limit <= MAX_SEARCH_RESULTS,
        parser_fields(*parser) == snapshot_fields(*searcher),
    ensures
        found matches Ok(addresses) ==> places_of(addresses@) == top_matches(
            *searcher,
            *parser,
            query@,
            limit as nat,
        ),
        found matches Ok(addresses) ==> addresses.len() <= limit && forall|i: int|
            0 <= i < addresses.len() ==> snapshot_addresses(*searcher).contains(
                ((#[trigger] addresses[i]).segment, addresses[i].document),
            ),
{
    let (query, _) = parser.parse_query_lenient(query);
    let top = searcher.search(&query, &tantivy::collector::TopDocs::with_limit(limit))?;
    Ok(
        top.into_iter().map(
            |(_, address)| DocumentAddress { segment: address.segment_ord, document: address.doc_id },
        ).collect(),
    )
}

/// Fetches a document of the snapshot by its place, by
/// `tantivy::Searcher::doc`. The document holds what the snapshot holds
/// at that place.
#[verifier::external_body]
pub(crate) fn fetch_document(searcher: &tantivy::Searcher, address: DocumentAddress) -> (document:
    Result<tantivy::TantivyDocument, tantivy::TantivyError>)
    requires
        snapshot_addresses(*searcher).contains((address.segment, address.document)),
    ensures
        document matches Ok(fetched) ==> forall|place: nat| #[trigger]
            document_text(fetched, place) == snapshot_text(
                *searcher,
                (address.segment, address.document),
                place,
            ),
{
    searcher.doc(tantivy::DocAddress::new(address.segment, address.document))
}

/// Makes the generator of snippets of one field for a query text. The
/// field is looked up by its name in the schema of the snapshot, by
/// `tantivy::schema::Schema::get_field`; the query is parsed by
/// `tantivy::query::QueryParser::parse_query_lenient`; the generator is
/// made by `tantivy::snippet::SnippetGenerator::create`. The parser must
/// have been made for the schema of the snapshot.
#[verifier::external_body]
pub(crate) fn snippet_generator(
    searcher: &tantivy::Searcher,
    parser: &tantivy::query::QueryParser,
    query: &str,
    field_name: &str,
) -> (generator: Result<tantivy::snippet::SnippetGenerator, tantivy::TantivyError>)
    requires
        parser_fields(*parser) == snapshot_fields(*searcher),
    ensures
        generator matches Ok(made) ==> generator_place(made) < snapshot_fields(*searcher).len()
            && snapshot_fields(*searcher)[generator_place(made) as int] == field_name@,
{
    let field = searcher.schema().get_field(field_name)?;
    let (query, _) = parser.parse_query_lenient(query);
    tantivy::snippet::SnippetGenerator::create(searcher, &*query, field)
}

/// The snippet of a document as HTML, by
/// `tantivy::snippet::SnippetGenerator::snippet_from_doc` and
/// `tantivy::snippet::Snippet::to_html`.
#[verifier::external_body]
pub(crate) fn snippet_html(
    generator: &tantivy::snippet::SnippetGenerator,
    document: &tantivy::TantivyDocument,
) -> (html: String) {
    generator.snippet_from_doc(document).to_html()
}

/// The first text that a document holds for a field, by
/// `tantivy::TantivyDocument::get_first`; `None` where it holds none or
/// holds another kind of value first.
#[verifier::external_body]
pub(crate) fn stored_text(document: &tantivy::TantivyDocument, field: tantivy::schema::Field) -> (text:
    Option<String>)
    ensures
        match text {
            Some(found) => document_text(*document, field_place(field)) == Some(found@),
            None => document_text(*document, field_place(field)) is None,
        },
{
    let value = tantivy::schema::Value::as_str(&document.get_first(field)?)?;
    Some(value.to_string())
}

} // verus!
