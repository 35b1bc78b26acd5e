//! Fetched pages and the documents of the index.

use vstd::prelude::*;

use crate::indexer::page::{
    body_of, byte_length, description_of, extract_page, found_body, found_description,
    found_title, title_of, PageText,
};
use crate::text::byte_len;

verus! {

/// A page as it was fetched: its address and its markup.
pub struct FetchedPage {
    pub url: String,
    pub html: String,
}

impl FetchedPage {
    /// The address of the page.
    pub fn get_url(&self) -> (url: &str)
        ensures
            url@ == self.url@,
    {
        self.url.as_str()
    }

    /// The markup of the page.
    pub fn get_html(&self) -> (html: &str)
        ensures
            html@ == self.html@,
    {
        self.html.as_str()
    }
}

/// A fetched page with the domain that it was fetched for.
pub struct SearchPage {
    pub page: FetchedPage,
    pub domain: String,
}

/// A document of the index, as a mathematical record.
pub struct DocumentView {
    pub title: Seq<char>,
    pub description: Seq<char>,
    pub body: Seq<char>,
    pub url: Seq<char>,
    pub domain: Seq<char>,
    pub size: nat,
}

/// The document of a page with this markup, address and domain: the
/// texts that are extracted from the markup, and the length of the body
/// text in bytes as its size.
pub open spec fn document_of(markup: Seq<char>, url: Seq<char>, domain: Seq<char>) -> DocumentView {
    DocumentView {
        title: title_of(found_title(markup)),
        description: description_of(found_description(markup)),
        body: body_of(found_body(markup)),
        url,
        domain,
        size: byte_length(body_of(found_body(markup))),
    }
}

/// A document of the index. Its size is the length of its body in bytes.
pub struct IndexedDocument {
    title: String,
    description: String,
    body: String,
    url: String,
    domain: String,
    size: u64,
}

impl View for IndexedDocument {
    type V = DocumentView;

    closed spec fn view(&self) -> DocumentView {
        DocumentView {
            title: self.title@,
            description: self.description@,
            body: self.body@,
            url: self.url@,
            domain: self.domain@,
            size: self.size as nat,
        }
    }
}

impl IndexedDocument {
    #[verifier::type_invariant]
    spec fn size_is_body_length(&self) -> bool {
        self.size == byte_length(self.body@)
    }

    /// The document of a page with the given text, address and domain. Its
    /// size is counted anew from the body.
    pub fn new(text: PageText, url: &str, domain: &str) -> (document: IndexedDocument)
        ensures
            document@ == (DocumentView {
                title: text.title@,
                description: text.description@,
                body: text.body@,
                url: url@,
                domain: domain@,
                size: byte_length(text.body@),
            }),
    {
        let size = byte_len(text.body.as_str()) as u64;
        IndexedDocument {
            title: text.title,
            description: text.description,
            body: text.body,
            url: url.to_owned(),
            domain: domain.to_owned(),
            size,
        }
    }

    /// The document of a fetched page: the text extracted from its markup,
    /// under its address and domain.
    pub fn from_page(page: &SearchPage) -> (document: IndexedDocument)
        ensures
            document@ == document_of(page.page.html@, page.page.url@, page.domain@),
    {
        let text = extract_page(page.page.get_html());
        IndexedDocument::new(text, page.page.get_url(), page.domain.as_str())
    }

    /// The title of the page.
    pub fn title(&self) -> (title: &str)
        ensures
            title@ == self@.title,
    {
        self.title.as_str()
    }

    /// The description of the page.
    pub fn description(&self) -> (description: &str)
        ensures
            description@ == self@.description,
    {
        self.description.as_str()
    }

    /// The body text of the page.
    pub fn body(&self) -> (body: &str)
        ensures
            body@ == self@.body,
    {
        self.body.as_str()
    }

    /// The address of the page.
    pub fn url(&self) -> (url: &str)
        ensures
            url@ == self@.url,
    {
        self.url.as_str()
    }

    /// The domain of the page.
    pub fn domain(&self) -> (domain: &str)
        ensures
            domain@ == self@.domain,
    {
        self.domain.as_str()
    }

    /// The length of the body text in bytes.
    pub fn size(&self) -> (size: u64)
        ensures
            size == self@.size,
            size == byte_length(self@.body),
    {
        proof {
            use_type_invariant(self);
        }
        self.size
    }
}

} // verus!
