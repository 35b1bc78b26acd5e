//! The searchable text of a page, and the calls into the `scraper` crate
//! that parse its markup.

use vstd::prelude::*;

use crate::indexer::markup::{element_text, extract_text, MarkupElement, MarkupNode, Tree};
use vstd::string::StringSliceAdditionalSpecFns;
use vstd::utf8::encode_utf8;

verus! {

/// The searchable text of a page.
pub struct PageText {
    pub title: String,
    pub description: String,
    pub body: String,
    pub size: u64,
}

/// The length of a text in bytes, as UTF-8.
pub open spec fn byte_length(text: Seq<char>) -> nat {
    encode_utf8(text).len()
}

/// The title of a page: the markup inside its first title element, where
/// it has one, else nothing.
pub open spec fn title_of(found: Option<Seq<char>>) -> Seq<char> {
    match found {
        Some(markup) => markup,
        None => Seq::empty(),
    }
}

/// The description of a page: the `content` attribute of its first
/// description element, where it has both, else nothing. The outer option
/// is the element, the inner one its attribute.
pub open spec fn description_of(found: Option<Option<Seq<char>>>) -> Seq<char> {
    match found {
        Some(Some(content)) => content,
        _ => Seq::empty(),
    }
}

/// The body text of a page: the text under its body element, where it has
/// one, else nothing. The option holds the children of the body element.
pub open spec fn body_of(found: Option<Seq<Tree>>) -> Seq<char> {
    match found {
        Some(children) => element_text(children),
        None => Seq::empty(),
    }
}

/// The children of an element that may be missing.
pub open spec fn child_trees_of(found: Option<&MarkupElement>) -> Option<Seq<Tree>> {
    match found {
        Some(element) => Some(element.child_trees()),
        None => None,
    }
}

/// The children of an element that may be missing.
pub open spec fn trees_of(found: Option<MarkupElement>) -> Option<Seq<Tree>> {
    match found {
        Some(element) => Some(element.child_trees()),
        None => None,
    }
}

/// The text of a string that may be missing.
pub open spec fn text_of(found: Option<String>) -> Option<Seq<char>> {
    match found {
        Some(text) => Some(text@),
        None => None,
    }
}

/// The text of an attribute that may be missing, of an element that may be
/// missing.
pub open spec fn attr_text_of(found: Option<Option<String>>) -> Option<Option<Seq<char>>> {
    match found {
        Some(value) => Some(text_of(value)),
        None => None,
    }
}

/// `page` is the searchable text of a page in which this was found: the
/// markup inside its first title element, the `content` attribute of its
/// first description element, and the children of its body element.
pub open spec fn is_page_text_of(
    page: PageText,
    title: Option<Seq<char>>,
    description: Option<Option<Seq<char>>>,
    body: Option<Seq<Tree>>,
) -> bool {
    &&& page.title@ == title_of(title)
    &&& page.description@ == description_of(description)
    &&& page.body@ == body_of(body)
    &&& page.size == byte_length(page.body@)
}

/// The selector of the element that holds the title of a page.
pub const TITLE_SELECTOR: &'static str = "title";

/// The selector of the element that holds the description of a page.
pub const DESCRIPTION_SELECTOR: &'static str = "meta[name=\"description\"]";

/// The attribute of that element which holds the description.
pub const DESCRIPTION_ATTRIBUTE: &'static str = "content";

/// The selector of the element that holds the body of a page.
pub const BODY_SELECTOR: &'static str = "body";

/// The markup inside the first element of a page that a selector matches,
/// as `scraper::ElementRef::inner_html` writes it; `None` where no element
/// of the page matches or the selector is not valid.
pub uninterp spec fn found_markup(markup: Seq<char>, selector: Seq<char>) -> Option<Seq<char>>;

/// The value of an attribute of the first element of a page that a
/// selector matches, as `scraper::node::Element::attr` gives it. The outer
/// option is `None` where no element matches or the selector is not
/// valid, the inner one where the element has no such attribute.
pub uninterp spec fn found_attribute(
    markup: Seq<char>,
    selector: Seq<char>,
    attribute: Seq<char>,
) -> Option<Option<Seq<char>>>;

/// The children of the first element of a page that a selector matches,
/// each with all that is below it; `None` where no element matches or the
/// selector is not valid.
pub uninterp spec fn found_children(markup: Seq<char>, selector: Seq<char>) -> Option<Seq<Tree>>;

/// The markup inside the first title element of a page.
pub open spec fn found_title(markup: Seq<char>) -> Option<Seq<char>> {
    found_markup(markup, TITLE_SELECTOR@)
}

/// The `content` attribute of the first description element of a page.
pub open spec fn found_description(markup: Seq<char>) -> Option<Option<Seq<char>>> {
    found_attribute(markup, DESCRIPTION_SELECTOR@, DESCRIPTION_ATTRIBUTE@)
}

/// The children of the body element of a page.
pub open spec fn found_body(markup: Seq<char>) -> Option<Seq<Tree>> {
    found_children(markup, BODY_SELECTOR@)
}

/// `page` is the searchable text of the page with this markup.
pub open spec fn is_extraction_of(page: PageText, markup: Seq<char>) -> bool {
    is_page_text_of(page, found_title(markup), found_description(markup), found_body(markup))
}

/// Extraction gives one answer: two texts extracted from the same markup
/// are the same, title, description, body and size.
pub proof fn lemma_extraction_is_determined(a: PageText, b: PageText, markup: Seq<char>)
    requires
        is_extraction_of(a, markup),
        is_extraction_of(b, markup),
    ensures
        a.title@ == b.title@,
        a.description@ == b.description@,
        a.body@ == b.body@,
        a.size == b.size,
{
    assert(a.title@ == title_of(found_title(markup)));
    assert(a.body@ == body_of(found_body(markup)));
    assert(a.size == byte_length(b.body@));
}

/// Markup in which the parser finds no title, no description and no body
/// gives empty texts and the size 0.
pub proof fn lemma_nothing_found_is_empty(page: PageText, markup: Seq<char>)
    requires
        is_extraction_of(page, markup),
        found_title(markup) is None,
        found_description(markup) is None || found_description(markup) == Some(
            None::<Seq<char>>,
        ),
        found_body(markup) is None || found_body(markup) == Some(Seq::<Tree>::empty()),
    ensures
        page.title@.len() == 0,
        page.description@.len() == 0,
        page.body@.len() == 0,
        page.size == 0,
{
    assert(encode_utf8(Seq::<char>::empty()).len() == 0);
}

/// Puts together the searchable text of a page from what was found in it:
/// the markup inside its first title element, the `content` attribute of
/// its first description element, and its body element. What is missing
/// counts as empty text; the size is the length of the body text in bytes.
pub fn page_text(
    title: Option<String>,
    description: Option<Option<String>>,
    body: Option<&MarkupElement>,
) -> (page: PageText)
    ensures
        is_page_text_of(page, text_of(title), attr_text_of(description), child_trees_of(body)),
{
    let title = match title {
        Some(markup) => markup,
        None => String::new(),
    };
    let description = match description {
        Some(Some(content)) => content,
        _ => String::new(),
    };
    let body = match body {
        Some(element) => extract_text(element),
        None => String::new(),
    };
    let size = body.as_str().as_bytes().len() as u64;
    PageText { title, description, body, size }
}

/// Extracts the searchable text of a page from its markup: the markup
/// inside its first title element, the `content` attribute of its first
/// description element, and the text under its body element. Markup that
/// is malformed or lacks an element gives empty text for it; nothing
/// fails. The size is the length of the body text in bytes.
pub fn extract_page(markup: &str) -> (page: PageText)
    ensures
        is_extraction_of(page, markup@),
{
    let (title, description, body) = find_in_markup(
        markup,
        TITLE_SELECTOR,
        DESCRIPTION_SELECTOR,
        DESCRIPTION_ATTRIBUTE,
        BODY_SELECTOR,
    );
    match body {
        Some(element) => page_text(title, description, Some(&element)),
        None => page_text(title, description, None),
    }
}

/// A reference to an element of a parsed document of the `scraper` crate.
#[verifier::external_type_specification]
#[verifier::external_body]
pub struct ExElementRef<'a>(scraper::ElementRef<'a>);

/// Parses markup by `scraper::Html::parse_document`, which accepts any
/// text, and finds three things in the document, each in the first
/// element that a selector matches, by `scraper::Selector::parse` and
/// `scraper::Html::select`: the markup inside it, by
/// `scraper::ElementRef::inner_html`; the value of an attribute, by
/// `scraper::node::Element::attr`; and the element with all below it.
/// Attributes are kept in the order of the markup, so that the same
/// markup gives the same findings.
#[verifier::external_body]
pub(crate) fn find_in_markup(
    markup: &str,
    inner: &str,
    with_attribute: &str,
    attribute: &str,
    tree: &str,
) -> (found: (Option<String>, Option<Option<String>>, Option<MarkupElement>))
    ensures
        text_of(found.0) == found_markup(markup@, inner@),
        attr_text_of(found.1) == found_attribute(markup@, with_attribute@, attribute@),
        trees_of(found.2) == found_children(markup@, tree@),
{
    let document = scraper::Html::parse_document(markup);
    let first = |selector: &str| {
        scraper::Selector::parse(selector).ok().and_then(|selector| document.select(&selector).next())
    };
    (
        first(inner).map(|element| element.inner_html()),
        first(with_attribute).map(|element| element.value().attr(attribute).map(str::to_string)),
        first(tree).map(|element| element_tree(&element)),
    )
}

/// An element of a `scraper` document with all that is below it, node for
/// node: the tag name by `scraper::node::Element::name`, the children by
/// `ego_tree::NodeRef::children`, each child by its variant of
/// `scraper::Node`.
#[verifier::external_body]
pub(crate) fn element_tree(element: &scraper::ElementRef) -> (tree: MarkupElement) {
    let children = element.children().map(|child| match scraper::ElementRef::wrap(child) {
        Some(inner) => MarkupNode::Element(element_tree(&inner)),
        None => match child.value() {
            scraper::Node::Text(text) => MarkupNode::Text(text.to_string()),
            _ => MarkupNode::Other,
        },
    }).collect();
    MarkupElement { name: element.value().name().to_string(), children }
}

} // verus!
