use mini_search_engine::indexer::markup::{extract_text, MarkupElement, MarkupNode};
use mini_search_engine::indexer::page::{extract_page, page_text};

fn element(name: &str, children: Vec<MarkupNode>) -> MarkupElement {
    MarkupElement { name: name.to_string(), children }
}

fn text(run: &str) -> MarkupNode {
    MarkupNode::Text(run.to_string())
}

#[test]
fn mod_test_extract_text() {
    // Test case 1: Simple text without script
    let html = r#"<body>Hello world</body>"#;
    assert_eq!(extract_page(html).body, "Hello world ");

    // Test case 2: Text with script at root level
    let html = r#"<body>Hello <script>alert('hidden');</script>world</body>"#;
    assert_eq!(extract_page(html).body, "Hello world ");

    // Test case 3: Text with nested script
    let html =
        r#"<body>Hello <div>nested <script>alert('hidden');</script>text</div> world</body>"#;
    assert_eq!(extract_page(html).body, "Hello nested text world ");

    // Test case 4: Multiple scripts and nested elements
    let html = r#"<body>
            <h1>Title</h1>
            <script>var x = 1;</script>
            <div>
                Content
                <p>Paragraph <script>console.log('hidden');</script> text</p>
            </div>
            <script>var y = 2;</script>
        </body>"#;
    assert_eq!(extract_page(html).body, "Title Content Paragraph text ");
}

#[test]
fn indexer_test_extract_text() {
    // Test case 1: Simple text without script
    let html = r#"<body>Hello world</body>"#;
    assert_eq!(extract_page(html).body, "Hello world ");

    // Test case 2: Text with script at root level
    let html = r#"<body>Hello <script>alert('hidden');</script>world</body>"#;
    assert_eq!(extract_page(html).body, "Hello world ");

    // Test case 3: Text with nested script
    let html =
        r#"<body>Hello <div>nested <script>alert('hidden');</script>text</div> world</body>"#;
    assert_eq!(extract_page(html).body, "Hello nested text world ");

    // Test case 4: Multiple scripts and nested elements
    let html = r#"<body>
            <h1>Title</h1>
            <script>var x = 1;</script>
            <div>
                Content
                <p>Paragraph <script>console.log('hidden');</script> text</p>
            </div>
            <script>var y = 2;</script>
        </body>"#;
    assert_eq!(extract_page(html).body, "Title Content Paragraph text ");
}

#[test]
fn extract_text_walks_a_tree_depth_first() {
    let body = element(
        "body",
        vec![
            text("  Hello "),
            element_node("div", vec![text("nested"), element_node("b", vec![text("deep")])]),
            MarkupNode::Other,
            text("\n\t "),
            text("world"),
        ],
    );
    assert_eq!(extract_text(&body), "Hello nested deep world ");
}

fn element_node(name: &str, children: Vec<MarkupNode>) -> MarkupNode {
    MarkupNode::Element(element(name, children))
}

#[test]
fn extract_text_leaves_out_scripts_at_any_depth() {
    let with_scripts = element(
        "body",
        vec![
            element_node("script", vec![text("a()")]),
            element_node(
                "div",
                vec![
                    text("kept"),
                    element_node(
                        "p",
                        vec![element_node("script", vec![element_node("i", vec![text("b()")])])],
                    ),
                ],
            ),
            text("too"),
            element_node("script", vec![text("c()")]),
        ],
    );
    let other_scripts = element(
        "body",
        vec![
            element_node("script", vec![]),
            element_node(
                "div",
                vec![text("kept"), element_node("p", vec![element_node("script", vec![text("zzz")])])],
            ),
            text("too"),
            element_node("script", vec![text("other")]),
        ],
    );
    assert_eq!(extract_text(&with_scripts), "kept too ");
    assert_eq!(extract_text(&other_scripts), "kept too ");
}

#[test]
fn extract_text_of_a_script_element_itself_reads_its_children() {
    let script = element("script", vec![text("x")]);
    assert_eq!(extract_text(&script), "x ");
}

#[test]
fn extract_text_trims_unicode_white_space() {
    let body = element("body", vec![text("\u{a0}\u{2003}caf\u{e9} au lait\u{3000}\n")]);
    assert_eq!(extract_text(&body), "caf\u{e9} au lait ");
    let empty = element("body", vec![text(""), text(" "), text("\u{2028}")]);
    assert_eq!(extract_text(&empty), "");
}

#[test]
fn extract_page_reads_title_description_and_body() {
    let html = "<html><head><title>Hello</title>\
                <meta name=\"description\" content=\"A greeting\">\
                </head><body>Hello <script>x</script>World</body></html>";
    let page = extract_page(html);
    assert_eq!(page.title, "Hello");
    assert_eq!(page.description, "A greeting");
    assert_eq!(page.body, "Hello World ");
    assert_eq!(page.size, 12);
}

#[test]
fn extract_page_is_the_same_on_the_same_markup() {
    let html = "<title>T</title><meta name=\"description\" content=\"d\"><body>a <b>b</b></body>";
    let first = extract_page(html);
    let second = extract_page(html);
    assert_eq!(first.title, second.title);
    assert_eq!(first.description, second.description);
    assert_eq!(first.body, second.body);
    assert_eq!(first.size, second.size);
    assert_eq!(first.body, "a b ");
}

#[test]
fn extract_page_degrades_to_empty_text() {
    let page = extract_page("");
    assert_eq!(page.title, "");
    assert_eq!(page.description, "");
    assert_eq!(page.body, "");
    assert_eq!(page.size, 0);

    let page = extract_page("<meta name=\"description\"><p>unclosed <b>markup");
    assert_eq!(page.description, "");
    assert_eq!(page.body, "unclosed markup ");
    assert_eq!(page.size, 16);
}

#[test]
fn extract_page_counts_the_size_in_bytes() {
    let page = extract_page("<body>caf\u{e9}</body>");
    assert_eq!(page.body, "caf\u{e9} ");
    assert_eq!(page.size, 6);
}

#[test]
fn page_text_takes_what_was_found() {
    let body = element("body", vec![text("one"), text("two")]);
    let page = page_text(Some("T".to_string()), Some(Some("D".to_string())), Some(&body));
    assert_eq!(page.title, "T");
    assert_eq!(page.description, "D");
    assert_eq!(page.body, "one two ");
    assert_eq!(page.size, 8);

    let page = page_text(None, Some(None), None);
    assert_eq!(page.title, "");
    assert_eq!(page.description, "");
    assert_eq!(page.body, "");
    assert_eq!(page.size, 0);
}

#[test]
fn extract_page_writes_attributes_in_the_order_of_the_markup() {
    let html = "<body><svg><title><b id=\"x\" class=\"y\" lang=\"z\" dir=\"w\">t</b></title></svg></body>";
    for _ in 0..20 {
        let page = extract_page(html);
        assert_eq!(page.title, "<b id=\"x\" class=\"y\" lang=\"z\" dir=\"w\">t</b>");
        assert_eq!(page.body, "t ");
    }
}

#[test]
fn extract_page_escapes_the_title() {
    let page = extract_page("<title>a &amp; b &lt; c</title>");
    assert_eq!(page.title, "a &amp; b &lt; c");
}
