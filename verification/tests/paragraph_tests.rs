use trss::html::{parse_document, HtmlNode};
use trss::paragraph::{parse_html, Frame, ParagraphData, StyledSpan};
use trss::paragraph_list::{measure_text_lines, DrawSlice, ParagraphList};
use trss::style::{bold_style, plain_style};
use trss::view_feed::{TestHtml, SAMPLE_HTML};

fn line_texts(p: &ParagraphData) -> Vec<String> {
    p.text
        .iter()
        .map(|l| l.iter().map(|s| s.content.as_str()).collect::<String>())
        .collect()
}

fn plain_line(s: &str) -> Vec<StyledSpan> {
    vec![StyledSpan::new(String::from(s), plain_style())]
}

#[test]
fn document_tree_of_fragment() {
    let d = parse_document("<p>Hi <b>there</b></p>x").unwrap();
    assert!(d.is_well_formed());
    assert_eq!(d.roots.len(), 2);
    match &d.nodes[d.roots[0]] {
        HtmlNode::Tag { name, children } => {
            assert_eq!(name, "p");
            assert_eq!(children.len(), 2);
        }
        _ => panic!("expected a tag"),
    }
    match &d.nodes[d.roots[1]] {
        HtmlNode::Raw(t) => assert_eq!(t, "x"),
        _ => panic!("expected text"),
    }
    let inner: String = d.inner_text(d.roots[0]).into_iter().collect();
    assert_eq!(inner, "Hi there");
}

#[test]
fn paragraph_with_styled_words() {
    let ps = parse_html(String::from("<p>Hello <b>world</b></p>")).unwrap();
    assert_eq!(ps.len(), 1);
    assert_eq!(ps[0].text.len(), 1);
    let line = &ps[0].text[0];
    assert_eq!(line.len(), 2);
    assert_eq!(line[0].content, "Hello ");
    assert_eq!(line[0].style, plain_style());
    assert_eq!(line[1].content, "world");
    assert_eq!(line[1].style, bold_style());
    assert!(ps[0].block.is_none());
}

#[test]
fn paragraph_breaks_lines_at_newlines() {
    let ps = parse_html(String::from("<div>one\ntwo\n\nthree</div>")).unwrap();
    assert_eq!(line_texts(&ps[0]), vec!["one", "two", "", "three"]);
}

#[test]
fn sample_lists_are_numbered_and_bulleted() {
    let ps = parse_html(String::from(SAMPLE_HTML)).unwrap();
    assert_eq!(ps.len(), 5);
    assert_eq!(line_texts(&ps[0]), vec![""]);
    assert_eq!(
        line_texts(&ps[1]),
        vec!["1. First", "2. Second", "3. Third", "4. Fourth", "5. Fifth"]
    );
    assert_eq!(line_texts(&ps[2]), vec![""]);
    assert_eq!(
        line_texts(&ps[3]),
        vec![
            "\u{29bf}  First",
            "\u{29bf}  Second",
            "\u{29bf}  Third",
            "\u{29bf}  Fourth",
            "\u{29bf}  Fifth"
        ]
    );
    assert_eq!(ps[1].text[4][1].style, bold_style());
}

#[test]
fn html_screen_shows_the_sample() {
    let t = TestHtml::new().unwrap();
    assert_eq!(t.list.paragraphs.len(), 5);
    assert_eq!(t.list.scroll(), 0);
}

#[test]
fn code_block_takes_its_file_name() {
    let ps = parse_html(String::from("<code>~filenamemain.rs\nfn main() {}\nlet x;</code>")).unwrap();
    assert_eq!(ps.len(), 1);
    match &ps[0].block {
        Some(Frame::Code { title }) => assert_eq!(title, " main.rs "),
        _ => panic!("expected a code frame"),
    }
    assert_eq!(line_texts(&ps[0]), vec!["fn main() {}", "let x;"]);
}

#[test]
fn code_block_without_file_name() {
    let ps = parse_html(String::from("<code>a\nb</code>")).unwrap();
    match &ps[0].block {
        Some(Frame::Code { title }) => assert_eq!(title, " code "),
        _ => panic!("expected a code frame"),
    }
}

#[test]
fn quote_and_rule_are_framed() {
    let ps = parse_html(String::from("<blockquote>a &amp; b</blockquote><hr>")).unwrap();
    assert_eq!(ps.len(), 2);
    assert!(matches!(ps[0].block, Some(Frame::Quote)));
    assert_eq!(line_texts(&ps[0]), vec!["a & b"]);
    assert!(matches!(ps[1].block, Some(Frame::Rule)));
}

#[test]
fn text_at_top_is_trimmed_and_decoded() {
    let ps = parse_html(String::from("  caf&eacute; &lt;ok&gt;  ")).unwrap();
    assert_eq!(line_texts(&ps[0]), vec!["caf&eacute; <ok>"]);
}

#[test]
fn unsupported_tag_is_refused() {
    assert!(parse_html(String::from("<table><tr><td>x</td></tr></table>")).is_none());
    assert!(parse_html(String::from("<pre><table></table></pre>")).is_none());
}

#[test]
fn container_tags_pass_their_children_on() {
    let ps = parse_html(String::from("<pre><p>a</p><p>b</p></pre>")).unwrap();
    assert_eq!(ps.len(), 2);
    assert_eq!(line_texts(&ps[1]), vec!["b"]);
}

#[test]
fn rows_of_wrapped_lines() {
    let text = vec![plain_line("hello world"), plain_line(""), plain_line("abc")];
    assert_eq!(measure_text_lines(&text, 5), 3 + 1 + 1);
    assert_eq!(measure_text_lines(&text, 0), 0);
}

#[test]
fn list_scrolls_and_saturates() {
    let mut l = ParagraphList::new(Vec::new());
    l.scroll_up();
    assert_eq!(l.scroll(), 0);
    l.scroll_down();
    l.scroll_down();
    assert_eq!(l.scroll(), 2);
    l.scroll_up();
    assert_eq!(l.scroll(), 1);
    l.scroll_bottom();
    assert_eq!(l.scroll(), 1);
    l.reset_scroll();
    assert_eq!(l.scroll(), 0);
}

#[test]
fn list_records_heights() {
    let mut l = ParagraphList::new(Vec::new());
    l.set_paragraphs(vec![
        ParagraphData::new(vec![plain_line("a"), plain_line("b")], None),
        ParagraphData::new(Vec::new(), Some(Frame::Rule)),
    ]);
    assert_eq!(l.heights(), vec![2, 1]);
    l.clear();
    assert!(l.paragraphs.is_empty());
}

#[test]
fn draw_plan_fills_the_area() {
    let mut l = ParagraphList::new(vec![
        ParagraphData::new(vec![plain_line("hello world")], None),
        ParagraphData::new(
            vec![plain_line("ab"), plain_line("cd")],
            Some(Frame::Code { title: String::from(" code ") }),
        ),
    ]);
    assert_eq!(
        l.render_plan(9, 5).unwrap(),
        vec![
            DrawSlice { index: 0, skip: 0, rows: 2, y: 0 },
            DrawSlice { index: 1, skip: 0, rows: 3, y: 2 },
        ]
    );
    l.scroll_down();
    l.scroll_down();
    l.scroll_down();
    assert_eq!(l.render_plan(9, 5).unwrap(), vec![DrawSlice { index: 1, skip: 1, rows: 3, y: 0 }]);
    assert!(l.render_plan(2, 5).is_none());
    assert!(l.render_plan(9, 0).is_none());
}
