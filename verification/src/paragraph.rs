//! Turning a parsed HTML fragment into styled paragraphs for the article view.

use vstd::prelude::*;
use crate::entities::decode_entities;
use crate::html::{DocModel, HtmlDoc, HtmlNode, NodeModel};
use crate::style::{
    SpanStyle, bold, code_block, crossed_out, inline_code, italic, plain, underlined,
};
use crate::text::{
    chars_of, decimal, join, join_strings, lines_of, replace_str, starts_with_str, replace_all, same_text, starts_with, str_lines, string_from,
    trim, views,
};
use crate::entities::decode_entities_str;
use crate::style::{
    bold_style, code_block_style, crossed_out_style, inline_code_style, italic_style, plain_style,
    underlined_style,
};

verus! {

/// A piece of text with one style, as a mathematical value.
pub struct SpanModel {
    pub content: Seq<char>,
    pub style: SpanStyle,
}

/// One line of styled text.
pub type LineModel = Seq<SpanModel>;

/// The frame drawn around a paragraph, as a mathematical value.
pub enum BlockModel {
    Code { title: Seq<char> },
    Quote,
    Rule,
}

/// A paragraph as a mathematical value: its lines and its frame.
pub struct ParagraphModel {
    pub lines: Seq<LineModel>,
    pub block: Option<BlockModel>,
}

pub open spec fn span(content: Seq<char>, style: SpanStyle) -> SpanModel {
    SpanModel { content, style }
}

pub open spec fn paragraph(lines: Seq<LineModel>, block: Option<BlockModel>) -> ParagraphModel {
    ParagraphModel { lines, block }
}

/// How a tag styles the text inside it.
#[derive(Clone, Copy, Debug, PartialEq, Eq, Structural)]
pub enum InlineKind {
    Bold,
    Italic,
    Underline,
    Strike,
    Code,
    ListItem,
    Other,
}

/// How a tag at the top of a fragment becomes paragraphs.
#[derive(Clone, Copy, Debug, PartialEq, Eq, Structural)]
pub enum BlockKind {
    Text,
    Bold,
    Italic,
    Underline,
    Strike,
    Code,
    Bullets,
    Numbered,
    Quote,
    Rule,
    Container,
    Unsupported,
}

pub open spec fn inline_kind(name: Seq<char>) -> InlineKind {
    if name == "strong"@ || name == "b"@ {
        InlineKind::Bold
    } else if name == "em"@ || name == "i"@ {
        InlineKind::Italic
    } else if name == "u"@ {
        InlineKind::Underline
    } else if name == "s"@ || name == "del"@ {
        InlineKind::Strike
    } else if name == "code"@ {
        InlineKind::Code
    } else if name == "li"@ {
        InlineKind::ListItem
    } else {
        InlineKind::Other
    }
}

pub open spec fn block_kind(name: Seq<char>) -> BlockKind {
    if name == "p"@ || name == "div"@ || name == "h3"@ || name == "h2"@ {
        BlockKind::Text
    } else if name == "strong"@ || name == "b"@ {
        BlockKind::Bold
    } else if name == "em"@ || name == "i"@ {
        BlockKind::Italic
    } else if name == "u"@ {
        BlockKind::Underline
    } else if name == "s"@ || name == "del"@ {
        BlockKind::Strike
    } else if name == "code"@ {
        BlockKind::Code
    } else if name == "ul"@ {
        BlockKind::Bullets
    } else if name == "ol"@ {
        BlockKind::Numbered
    } else if name == "blockquote"@ {
        BlockKind::Quote
    } else if name == "hr"@ {
        BlockKind::Rule
    } else if name == "pre"@ || name == "video"@ || name == "source"@ {
        BlockKind::Container
    } else {
        BlockKind::Unsupported
    }
}

/// A span inside a tag of kind `k`, in running text: a styling tag gives it
/// its own style (in place of the span's), inline code becomes light green,
/// bold and reversed, and a list item is prefixed with ` # `.
pub open spec fn inline_styled(k: InlineKind, s: SpanModel) -> SpanModel {
    match k {
        InlineKind::Bold => span(s.content, bold()),
        InlineKind::Italic => span(s.content, italic()),
        InlineKind::Underline => span(s.content, underlined()),
        InlineKind::Strike => span(s.content, crossed_out()),
        InlineKind::Code => span(s.content, inline_code()),
        InlineKind::ListItem => span(" # "@ + s.content, s.style),
        InlineKind::Other => s,
    }
}

/// A span inside a tag of kind `k`, as an item of a list: as in running text,
/// but a list item is not prefixed.
pub open spec fn block_styled(k: InlineKind, s: SpanModel) -> SpanModel {
    match k {
        InlineKind::ListItem => s,
        _ => inline_styled(k, s),
    }
}

/// The spans of node `n` read as running text.
pub open spec fn inline_spans(d: DocModel, n: int) -> Seq<SpanModel>
    decreases d.nodes.len() - n, d.children(n).len() + 1,
{
    if 0 <= n < d.nodes.len() {
        match d.nodes[n] {
            NodeModel::Raw(t) => seq![span(decode_entities(t), plain())],
            NodeModel::Comment => seq![],
            NodeModel::Tag { name, .. } => children_spans(d, n, d.children(n)).map_values(
                |s: SpanModel| inline_styled(inline_kind(name), s),
            ),
        }
    } else {
        seq![]
    }
}

/// The spans of the nodes `cs`, children of `n`, one after another.
pub open spec fn children_spans(d: DocModel, n: int, cs: Seq<usize>) -> Seq<SpanModel>
    decreases d.nodes.len() - n, cs.len(),
{
    if cs.len() == 0 || n < 0 {
        seq![]
    } else if d.below(n, cs[0]) {
        inline_spans(d, cs[0] as int) + children_spans(d, n, cs.skip(1))
    } else {
        children_spans(d, n, cs.skip(1))
    }
}

/// The lines of node `n` read as a list item: a raw node is one line with a
/// span per line of its text; a tag gives one line per span of its children.
pub open spec fn block_lines(d: DocModel, n: int) -> Seq<LineModel> {
    if 0 <= n < d.nodes.len() {
        match d.nodes[n] {
            NodeModel::Raw(t) => seq![
                str_lines(decode_entities(t)).map_values(|l: Seq<char>| span(l, plain())),
            ],
            NodeModel::Comment => seq![],
            NodeModel::Tag { name, .. } => children_spans(d, n, d.children(n)).map_values(
                |s: SpanModel| seq![block_styled(inline_kind(name), s)],
            ),
        }
    } else {
        seq![]
    }
}

/// The list-item lines of the nodes `cs`, children of `n`, one after another.
pub open spec fn children_block_lines(d: DocModel, n: int, cs: Seq<usize>) -> Seq<LineModel>
    decreases cs.len(),
{
    if cs.len() == 0 {
        seq![]
    } else if d.below(n, cs[0]) {
        block_lines(d, cs[0] as int) + children_block_lines(d, n, cs.skip(1))
    } else {
        children_block_lines(d, n, cs.skip(1))
    }
}

/// The bullet in front of each item of an unordered list.
pub open spec fn bullet_text() -> Seq<char> {
    "\u{29bf}  "@
}

/// A line with a bullet put in front of each of its spans.
pub open spec fn bulleted(l: LineModel) -> LineModel
    decreases l.len(),
{
    if l.len() == 0 {
        seq![]
    } else {
        seq![span(bullet_text(), plain()), l[0]] + bulleted(l.skip(1))
    }
}

/// Whether some span of `l` holds text.
pub open spec fn has_text(l: LineModel) -> bool {
    exists|i: int| 0 <= i < l.len() && #[trigger] l[i].content.len() > 0
}

/// The lines of an unordered list: the lines that hold text, each bulleted.
pub open spec fn bullet_lines(ls: Seq<LineModel>) -> Seq<LineModel>
    decreases ls.len(),
{
    if ls.len() == 0 {
        seq![]
    } else if has_text(ls[0]) {
        seq![bulleted(ls[0])] + bullet_lines(ls.skip(1))
    } else {
        bullet_lines(ls.skip(1))
    }
}

/// The number put in front of an item of an ordered list.
pub open spec fn number_text(i: u64) -> Seq<char> {
    decimal(i as nat) + ". "@
}

/// A line with numbers from `i` on put in front of its spans.
pub open spec fn numbered(l: LineModel, i: u64) -> LineModel
    decreases l.len(),
{
    if l.len() == 0 {
        seq![]
    } else {
        seq![span(number_text(i), plain()), l[0]] + numbered(l.skip(1), i.wrapping_add(1))
    }
}

/// The number that follows the spans of `l` when they are numbered from `i`.
pub open spec fn next_number(l: LineModel, i: u64) -> u64
    decreases l.len(),
{
    if l.len() == 0 {
        i
    } else {
        next_number(l.skip(1), i.wrapping_add(1))
    }
}

/// The lines of an ordered list, numbering every span from `i` on.
pub open spec fn number_lines(ls: Seq<LineModel>, i: u64) -> Seq<LineModel>
    decreases ls.len(),
{
    if ls.len() == 0 {
        seq![]
    } else {
        seq![numbered(ls[0], i)] + number_lines(ls.skip(1), next_number(ls[0], i))
    }
}

/// Lines under construction: the finished ones and the current one.
pub struct LineState {
    pub done: Seq<LineModel>,
    pub cur: LineModel,
}

/// The state after part `i` of a span's text, of style `style`: every part but
/// the first ends the current line, and a part that holds text joins it.
pub open spec fn add_part(st: LineState, part: Seq<char>, style: SpanStyle, first: bool) -> LineState {
    let st1 = if first {
        st
    } else {
        LineState { done: st.done.push(st.cur), cur: seq![] }
    };
    if part.len() > 0 {
        LineState { done: st1.done, cur: st1.cur.push(span(part, style)) }
    } else {
        st1
    }
}

/// The state after the parts `parts[i..]` of one span.
pub open spec fn add_parts(st: LineState, parts: Seq<Seq<char>>, style: SpanStyle, i: int) -> LineState
    decreases parts.len() - i,
{
    if i < 0 || i >= parts.len() {
        st
    } else {
        add_parts(add_part(st, parts[i], style, i == 0), parts, style, i + 1)
    }
}

/// The state after the spans `spans`, each split at its line breaks.
pub open spec fn add_spans(st: LineState, spans: Seq<SpanModel>) -> LineState
    decreases spans.len(),
{
    if spans.len() == 0 {
        st
    } else {
        add_spans(add_parts(st, str_lines(spans[0].content), spans[0].style, 0), spans.skip(1))
    }
}

/// The lines of running text made of `spans`: each span split at its line
/// breaks, and the last line kept only if it holds a span.
pub open spec fn text_lines(spans: Seq<SpanModel>) -> Seq<LineModel> {
    let st = add_spans(LineState { done: seq![], cur: seq![] }, spans);
    if st.cur.len() > 0 {
        st.done.push(st.cur)
    } else {
        st.done
    }
}

/// The title and the body of a code block with the text `inner`: a first line
/// that starts with `~filename` names the file, and is not part of the body.
pub open spec fn code_parts(inner: Seq<char>) -> (Seq<char>, Seq<char>) {
    if starts_with(inner, "~filename"@) {
        let ls = str_lines(inner);
        if ls.len() > 0 {
            (" "@ + replace_all(ls[0], "~filename"@, ""@) + " "@, join(ls.skip(1), "\n"@))
        } else {
            (" code "@, join(ls, "\n"@))
        }
    } else {
        (" code "@, inner)
    }
}

/// The paragraph of a code block with the text `inner`.
pub open spec fn code_paragraph(inner: Seq<char>) -> ParagraphModel {
    let (title, body) = code_parts(inner);
    paragraph(
        str_lines(body).map_values(|l: Seq<char>| seq![span(l, code_block())]),
        Some(BlockModel::Code { title }),
    )
}

/// A paragraph of one line with one span.
pub open spec fn single(content: Seq<char>, style: SpanStyle, block: Option<BlockModel>) -> ParagraphModel {
    paragraph(seq![seq![span(content, style)]], block)
}

/// The paragraphs of node `n` at the top of a fragment.
pub open spec fn paragraphs(d: DocModel, n: int) -> Seq<ParagraphModel>
    decreases d.nodes.len() - n, d.children(n).len() + 1,
{
    if 0 <= n < d.nodes.len() {
        match d.nodes[n] {
            NodeModel::Comment => seq![],
            NodeModel::Raw(t) => seq![single(decode_entities(trim(t)), plain(), None)],
            NodeModel::Tag { name, .. } => {
                let inner = decode_entities(d.inner_text(n));
                let cs = d.children(n);
                match block_kind(name) {
                    BlockKind::Text => seq![paragraph(text_lines(children_spans(d, n, cs)), None)],
                    BlockKind::Bold => seq![single(inner, bold(), None)],
                    BlockKind::Italic => seq![single(inner, italic(), None)],
                    BlockKind::Underline => seq![single(inner, underlined(), None)],
                    BlockKind::Strike => seq![single(inner, crossed_out(), None)],
                    BlockKind::Code => seq![code_paragraph(inner)],
                    BlockKind::Bullets => seq![
                        paragraph(bullet_lines(children_block_lines(d, n, cs)), None),
                    ],
                    BlockKind::Numbered => seq![
                        paragraph(number_lines(children_block_lines(d, n, cs), 1), None),
                    ],
                    BlockKind::Quote => seq![single(inner, plain(), Some(BlockModel::Quote))],
                    BlockKind::Rule => seq![single(seq![], plain(), Some(BlockModel::Rule))],
                    BlockKind::Container => children_paragraphs(d, n, cs),
                    BlockKind::Unsupported => seq![],
                }
            },
        }
    } else {
        seq![]
    }
}

/// The paragraphs of the nodes `cs`, children of `n`, one after another.
pub open spec fn children_paragraphs(d: DocModel, n: int, cs: Seq<usize>) -> Seq<ParagraphModel>
    decreases d.nodes.len() - n, cs.len(),
{
    if cs.len() == 0 || n < 0 {
        seq![]
    } else if d.below(n, cs[0]) {
        paragraphs(d, cs[0] as int) + children_paragraphs(d, n, cs.skip(1))
    } else {
        children_paragraphs(d, n, cs.skip(1))
    }
}

/// Whether every tag that node `n` makes paragraphs of is one that is
/// rendered: the tags met at the top of a fragment, and inside `pre`, `video`
/// and `source`.
pub open spec fn supported(d: DocModel, n: int) -> bool
    decreases d.nodes.len() - n, d.children(n).len() + 1,
{
    if 0 <= n < d.nodes.len() {
        match d.nodes[n] {
            NodeModel::Tag { name, .. } => match block_kind(name) {
                BlockKind::Unsupported => false,
                BlockKind::Container => children_supported(d, n, d.children(n)),
                _ => true,
            },
            _ => true,
        }
    } else {
        true
    }
}

/// Whether every node of `cs`, children of `n`, is supported.
pub open spec fn children_supported(d: DocModel, n: int, cs: Seq<usize>) -> bool
    decreases d.nodes.len() - n, cs.len(),
{
    if cs.len() == 0 || n < 0 {
        true
    } else if d.below(n, cs[0]) {
        supported(d, cs[0] as int) && children_supported(d, n, cs.skip(1))
    } else {
        children_supported(d, n, cs.skip(1))
    }
}

/// Whether every top-level node of the fragment is supported.
pub open spec fn document_supported(d: DocModel) -> bool {
    forall|i: int| 0 <= i < d.roots.len() ==> #[trigger] supported(d, d.roots[i] as int)
}

/// The paragraphs of the top-level nodes `rs`, one after another.
pub open spec fn roots_paragraphs(d: DocModel, rs: Seq<usize>) -> Seq<ParagraphModel>
    decreases rs.len(),
{
    if rs.len() == 0 {
        seq![]
    } else {
        paragraphs(d, rs[0] as int) + roots_paragraphs(d, rs.skip(1))
    }
}

/// The paragraphs of a whole fragment.
pub open spec fn document_paragraphs(d: DocModel) -> Seq<ParagraphModel> {
    roots_paragraphs(d, d.roots)
}


/// A piece of text with one style.
#[derive(Clone, Debug)]
pub struct StyledSpan {
    pub content: String,
    pub style: SpanStyle,
}

impl View for StyledSpan {
    type V = SpanModel;

    open spec fn view(&self) -> SpanModel {
        span(self.content@, self.style)
    }
}

impl StyledSpan {
    /// A span of `content` in `style`.
    pub fn new(content: String, style: SpanStyle) -> (s: StyledSpan)
        ensures
            s@ == span(content@, style),
    {
        StyledSpan { content, style }
    }

    /// A copy of this span.
    pub fn duplicate(&self) -> (s: StyledSpan)
        ensures
            s@ == self@,
    {
        StyledSpan { content: self.content.clone(), style: self.style }
    }
}

/// The frame drawn around a paragraph: a titled code box, a quotation bar or
/// a horizontal rule.
#[derive(Clone, Debug)]
pub enum Frame {
    Code { title: String },
    Quote,
    Rule,
}

impl View for Frame {
    type V = BlockModel;

    open spec fn view(&self) -> BlockModel {
        match self {
            Frame::Code { title } => BlockModel::Code { title: title@ },
            Frame::Quote => BlockModel::Quote,
            Frame::Rule => BlockModel::Rule,
        }
    }
}

pub open spec fn spans_view(v: Seq<StyledSpan>) -> Seq<SpanModel> {
    v.map_values(|s: StyledSpan| s@)
}

pub open spec fn lines_view(v: Seq<Vec<StyledSpan>>) -> Seq<LineModel> {
    v.map_values(|l: Vec<StyledSpan>| spans_view(l@))
}

pub open spec fn frame_view(f: Option<Frame>) -> Option<BlockModel> {
    match f {
        Some(b) => Some(b@),
        None => None,
    }
}

/// A paragraph of styled lines, with an optional frame.
#[derive(Clone, Debug)]
pub struct ParagraphData {
    pub text: Vec<Vec<StyledSpan>>,
    pub block: Option<Frame>,
}

impl View for ParagraphData {
    type V = ParagraphModel;

    open spec fn view(&self) -> ParagraphModel {
        paragraph(lines_view(self.text@), frame_view(self.block))
    }
}

pub open spec fn paragraphs_view(v: Seq<ParagraphData>) -> Seq<ParagraphModel> {
    v.map_values(|p: ParagraphData| p@)
}

impl ParagraphData {
    /// A paragraph of the lines `text`, framed by `block` if it is given.
    pub fn new(text: Vec<Vec<StyledSpan>>, block: Option<Frame>) -> (p: ParagraphData)
        ensures
            p@ == paragraph(lines_view(text@), frame_view(block)),
    {
        ParagraphData { text, block }
    }

    /// The number of lines of this paragraph.
    pub fn line_count(&self) -> (n: usize)
        ensures
            n == self@.lines.len(),
    {
        self.text.len()
    }
}

fn append_spans(out: &mut Vec<StyledSpan>, more: Vec<StyledSpan>)
    ensures
        spans_view(final(out)@) == spans_view(old(out)@) + spans_view(more@),
{
    let ghost m = more@;
    let mut more = more;
    out.append(&mut more);
    assert(spans_view(out@) =~= spans_view(old(out)@) + spans_view(m));
}

fn append_lines(out: &mut Vec<Vec<StyledSpan>>, more: Vec<Vec<StyledSpan>>)
    ensures
        lines_view(final(out)@) == lines_view(old(out)@) + lines_view(more@),
{
    let ghost m = more@;
    let mut more = more;
    out.append(&mut more);
    assert(lines_view(out@) =~= lines_view(old(out)@) + lines_view(m));
}

fn append_paragraphs(out: &mut Vec<ParagraphData>, more: Vec<ParagraphData>)
    ensures
        paragraphs_view(final(out)@) == paragraphs_view(old(out)@) + paragraphs_view(more@),
{
    let ghost m = more@;
    let mut more = more;
    out.append(&mut more);
    assert(paragraphs_view(out@) =~= paragraphs_view(old(out)@) + paragraphs_view(m));
}

/// How the tag `name` styles the text inside it.
pub fn inline_kind_of(name: &String) -> (k: InlineKind)
    ensures
        k == inline_kind(name@),
{
    let n = name.as_str();
    if same_text(n, "strong") || same_text(n, "b") {
        InlineKind::Bold
    } else if same_text(n, "em") || same_text(n, "i") {
        InlineKind::Italic
    } else if same_text(n, "u") {
        InlineKind::Underline
    } else if same_text(n, "s") || same_text(n, "del") {
        InlineKind::Strike
    } else if same_text(n, "code") {
        InlineKind::Code
    } else if same_text(n, "li") {
        InlineKind::ListItem
    } else {
        InlineKind::Other
    }
}

/// How the tag `name` at the top of a fragment becomes paragraphs.
pub fn block_kind_of(name: &String) -> (k: BlockKind)
    ensures
        k == block_kind(name@),
{
    let n = name.as_str();
    if same_text(n, "p") || same_text(n, "div") || same_text(n, "h3") || same_text(n, "h2") {
        BlockKind::Text
    } else if same_text(n, "strong") || same_text(n, "b") {
        BlockKind::Bold
    } else if same_text(n, "em") || same_text(n, "i") {
        BlockKind::Italic
    } else if same_text(n, "u") {
        BlockKind::Underline
    } else if same_text(n, "s") || same_text(n, "del") {
        BlockKind::Strike
    } else if same_text(n, "code") {
        BlockKind::Code
    } else if same_text(n, "ul") {
        BlockKind::Bullets
    } else if same_text(n, "ol") {
        BlockKind::Numbered
    } else if same_text(n, "blockquote") {
        BlockKind::Quote
    } else if same_text(n, "hr") {
        BlockKind::Rule
    } else if same_text(n, "pre") || same_text(n, "video") || same_text(n, "source") {
        BlockKind::Container
    } else {
        BlockKind::Unsupported
    }
}

fn prefixed(prefix: &str, s: &String) -> (r: String)
    ensures
        r@ == prefix@ + s@,
{
    let mut r = String::from_str(prefix);
    r.append(s.as_str());
    r
}

/// A span inside a tag of kind `k`, in running text.
pub fn style_inline(k: InlineKind, s: StyledSpan) -> (r: StyledSpan)
    ensures
        r@ == inline_styled(k, s@),
{
    match k {
        InlineKind::Bold => StyledSpan::new(s.content, bold_style()),
        InlineKind::Italic => StyledSpan::new(s.content, italic_style()),
        InlineKind::Underline => StyledSpan::new(s.content, underlined_style()),
        InlineKind::Strike => StyledSpan::new(s.content, crossed_out_style()),
        InlineKind::Code => StyledSpan::new(s.content, inline_code_style()),
        InlineKind::ListItem => StyledSpan::new(prefixed(" # ", &s.content), s.style),
        InlineKind::Other => s,
    }
}

/// A span inside a tag of kind `k`, as an item of a list.
pub fn style_block(k: InlineKind, s: StyledSpan) -> (r: StyledSpan)
    ensures
        r@ == block_styled(k, s@),
{
    match k {
        InlineKind::ListItem => s,
        _ => style_inline(k, s),
    }
}

fn decoded(t: &String) -> (r: String)
    ensures
        r@ == decode_entities(t@),
{
    decode_entities_str(t.as_str())
}

/// The spans `v`, each styled as inside a tag of kind `kind`.
fn map_inline(kind: InlineKind, v: &Vec<StyledSpan>) -> (r: Vec<StyledSpan>)
    ensures
        spans_view(r@) == spans_view(v@).map_values(|s: SpanModel| inline_styled(kind, s)),
{
    let mut r: Vec<StyledSpan> = Vec::new();
    let mut i: usize = 0;
    while i < v.len()
        invariant
            i <= v.len(),
            spans_view(r@) == spans_view(v@).take(i as int).map_values(
                |s: SpanModel| inline_styled(kind, s),
            ),
        decreases v.len() - i,
    {
        let ghost before = r@;
        r.push(style_inline(kind, v[i].duplicate()));
        assert(spans_view(r@) =~= spans_view(v@).take(i + 1).map_values(
            |s: SpanModel| inline_styled(kind, s),
        )) by {
            assert(spans_view(r@) =~= spans_view(before).push(inline_styled(kind, v@[i as int]@)));
        }
        i = i + 1;
    }
    assert(spans_view(v@).take(v.len() as int) =~= spans_view(v@));
    r
}

/// The spans `v`, each alone on a line, styled as a list item inside a tag of
/// kind `kind`.
fn map_block(kind: InlineKind, v: &Vec<StyledSpan>) -> (r: Vec<Vec<StyledSpan>>)
    ensures
        lines_view(r@) == spans_view(v@).map_values(|s: SpanModel| seq![block_styled(kind, s)]),
{
    let mut r: Vec<Vec<StyledSpan>> = Vec::new();
    let mut i: usize = 0;
    while i < v.len()
        invariant
            i <= v.len(),
            lines_view(r@) == spans_view(v@).take(i as int).map_values(
                |s: SpanModel| seq![block_styled(kind, s)],
            ),
        decreases v.len() - i,
    {
        let ghost before = r@;
        let mut line: Vec<StyledSpan> = Vec::new();
        line.push(style_block(kind, v[i].duplicate()));
        assert(spans_view(line@) =~= seq![block_styled(kind, v@[i as int]@)]);
        r.push(line);
        assert(lines_view(r@) =~= spans_view(v@).take(i + 1).map_values(
            |s: SpanModel| seq![block_styled(kind, s)],
        )) by {
            assert(lines_view(r@) =~= lines_view(before).push(spans_view(line@)));
        }
        i = i + 1;
    }
    assert(spans_view(v@).take(v.len() as int) =~= spans_view(v@));
    r
}

/// The spans of node `n` read as running text.
pub fn inline_spans_of(d: &HtmlDoc, n: usize) -> (r: Vec<StyledSpan>)
    requires
        d@.wf(),
        n < d@.nodes.len(),
    ensures
        spans_view(r@) == inline_spans(d@, n as int),
    decreases d@.nodes.len() - n,
{
    assert(d@.nodes[n as int] == d.nodes[n as int]@);
    match &d.nodes[n] {
        HtmlNode::Raw(t) => {
            let mut r: Vec<StyledSpan> = Vec::new();
            r.push(StyledSpan::new(decoded(t), plain_style()));
            assert(spans_view(r@) =~= seq![span(decode_entities(t@), plain())]);
            r
        },
        HtmlNode::Comment => {
            let r: Vec<StyledSpan> = Vec::new();
            assert(spans_view(r@) =~= Seq::<SpanModel>::empty());
            r
        },
        HtmlNode::Tag { name, children } => {
            let ghost dm = d@;
            let kind = inline_kind_of(name);
            assert(dm.children(n as int) == children@);
            let mut all: Vec<StyledSpan> = Vec::new();
            let mut k: usize = 0;
            assert(children@.skip(0) =~= children@);
            while k < children.len()
                invariant
                    dm == d@,
                    dm.wf(),
                    n < dm.nodes.len(),
                    dm.children(n as int) == children@,
                    k <= children.len(),
                    spans_view(all@) + children_spans(dm, n as int, children@.skip(k as int))
                        == children_spans(dm, n as int, children@),
                decreases children.len() - k,
            {
                let c = children[k];
                assert(children@.skip(k as int)[0] == c);
                assert(children@.skip(k as int).skip(1) =~= children@.skip(k + 1));
                assert(dm.children(n as int)[k as int] == c);
                let part = inline_spans_of(d, c);
                let ghost before = spans_view(all@);
                append_spans(&mut all, part);
                assert(before + (inline_spans(dm, c as int) + children_spans(
                    dm,
                    n as int,
                    children@.skip(k + 1),
                )) =~= spans_view(all@) + children_spans(dm, n as int, children@.skip(k + 1)));
                k = k + 1;
            }
            assert(children@.skip(children.len() as int) =~= Seq::<usize>::empty());
            assert(spans_view(all@) + Seq::<SpanModel>::empty() =~= spans_view(all@));
            map_inline(kind, &all)
        },
    }
}


/// The spans of the children of tag `n`, one after another.
fn child_spans_of(d: &HtmlDoc, n: usize) -> (r: Vec<StyledSpan>)
    requires
        d@.wf(),
        n < d@.nodes.len(),
    ensures
        spans_view(r@) == children_spans(d@, n as int, d@.children(n as int)),
{
    assert(d@.nodes[n as int] == d.nodes[n as int]@);
    match &d.nodes[n] {
        HtmlNode::Tag { children, .. } => {
            let ghost dm = d@;
            assert(dm.children(n as int) == children@);
            let mut all: Vec<StyledSpan> = Vec::new();
            let mut k: usize = 0;
            assert(children@.skip(0) =~= children@);
            while k < children.len()
                invariant
                    dm == d@,
                    dm.wf(),
                    n < dm.nodes.len(),
                    dm.children(n as int) == children@,
                    k <= children.len(),
                    spans_view(all@) + children_spans(dm, n as int, children@.skip(k as int))
                        == children_spans(dm, n as int, children@),
                decreases children.len() - k,
            {
                let c = children[k];
                assert(children@.skip(k as int)[0] == c);
                assert(children@.skip(k as int).skip(1) =~= children@.skip(k + 1));
                assert(dm.children(n as int)[k as int] == c);
                let part = inline_spans_of(d, c);
                let ghost before = spans_view(all@);
                append_spans(&mut all, part);
                assert(before + (inline_spans(dm, c as int) + children_spans(
                    dm,
                    n as int,
                    children@.skip(k + 1),
                )) =~= spans_view(all@) + children_spans(dm, n as int, children@.skip(k + 1)));
                k = k + 1;
            }
            assert(children@.skip(children.len() as int) =~= Seq::<usize>::empty());
            assert(spans_view(all@) + Seq::<SpanModel>::empty() =~= spans_view(all@));
            all
        },
        _ => {
            let r: Vec<StyledSpan> = Vec::new();
            assert(spans_view(r@) =~= Seq::<SpanModel>::empty());
            r
        },
    }
}

/// The lines of node `n` read as a list item.
pub fn block_lines_of(d: &HtmlDoc, n: usize) -> (r: Vec<Vec<StyledSpan>>)
    requires
        d@.wf(),
        n < d@.nodes.len(),
    ensures
        lines_view(r@) == block_lines(d@, n as int),
{
    assert(d@.nodes[n as int] == d.nodes[n as int]@);
    match &d.nodes[n] {
        HtmlNode::Raw(t) => {
            let parts = lines_of(decoded(t).as_str());
            let ghost ls = views(parts@);
            let mut line: Vec<StyledSpan> = Vec::new();
            let mut i: usize = 0;
            while i < parts.len()
                invariant
                    i <= parts.len(),
                    ls == views(parts@),
                    spans_view(line@) == ls.take(i as int).map_values(
                        |l: Seq<char>| span(l, plain()),
                    ),
                decreases parts.len() - i,
            {
                let ghost before = line@;
                line.push(StyledSpan::new(parts[i].clone(), plain_style()));
                assert(spans_view(line@) =~= ls.take(i + 1).map_values(
                    |l: Seq<char>| span(l, plain()),
                )) by {
                    assert(spans_view(line@) =~= spans_view(before).push(span(ls[i as int], plain())));
                }
                i = i + 1;
            }
            assert(ls.take(parts.len() as int) =~= ls);
            let mut r: Vec<Vec<StyledSpan>> = Vec::new();
            r.push(line);
            assert(lines_view(r@) =~= seq![spans_view(line@)]);
            r
        },
        HtmlNode::Comment => {
            let r: Vec<Vec<StyledSpan>> = Vec::new();
            assert(lines_view(r@) =~= Seq::<LineModel>::empty());
            r
        },
        HtmlNode::Tag { name, .. } => {
            let kind = inline_kind_of(name);
            let all = child_spans_of(d, n);
            map_block(kind, &all)
        },
    }
}

/// The list-item lines of the children of tag `n`, one after another.
fn child_block_lines_of(d: &HtmlDoc, n: usize) -> (r: Vec<Vec<StyledSpan>>)
    requires
        d@.wf(),
        n < d@.nodes.len(),
    ensures
        lines_view(r@) == children_block_lines(d@, n as int, d@.children(n as int)),
{
    assert(d@.nodes[n as int] == d.nodes[n as int]@);
    match &d.nodes[n] {
        HtmlNode::Tag { children, .. } => {
            let ghost dm = d@;
            assert(dm.children(n as int) == children@);
            let mut all: Vec<Vec<StyledSpan>> = Vec::new();
            let mut k: usize = 0;
            assert(children@.skip(0) =~= children@);
            while k < children.len()
                invariant
                    dm == d@,
                    dm.wf(),
                    n < dm.nodes.len(),
                    dm.children(n as int) == children@,
                    k <= children.len(),
                    lines_view(all@) + children_block_lines(dm, n as int, children@.skip(k as int))
                        == children_block_lines(dm, n as int, children@),
                decreases children.len() - k,
            {
                let c = children[k];
                assert(children@.skip(k as int)[0] == c);
                assert(children@.skip(k as int).skip(1) =~= children@.skip(k + 1));
                assert(dm.children(n as int)[k as int] == c);
                let part = block_lines_of(d, c);
                let ghost before = lines_view(all@);
                append_lines(&mut all, part);
                assert(before + (block_lines(dm, c as int) + children_block_lines(
                    dm,
                    n as int,
                    children@.skip(k + 1),
                )) =~= lines_view(all@) + children_block_lines(dm, n as int, children@.skip(k + 1)));
                k = k + 1;
            }
            assert(children@.skip(children.len() as int) =~= Seq::<usize>::empty());
            assert(lines_view(all@) + Seq::<LineModel>::empty() =~= lines_view(all@));
            all
        },
        _ => {
            let r: Vec<Vec<StyledSpan>> = Vec::new();
            assert(lines_view(r@) =~= Seq::<LineModel>::empty());
            r
        },
    }
}


/// The line `l` with a bullet put in front of each of its spans.
pub fn bulleted_line(l: &Vec<StyledSpan>) -> (r: Vec<StyledSpan>)
    ensures
        spans_view(r@) == bulleted(spans_view(l@)),
{
    let ghost lv = spans_view(l@);
    let mut r: Vec<StyledSpan> = Vec::new();
    let mut i: usize = 0;
    assert(lv.skip(0) =~= lv);
    while i < l.len()
        invariant
            i <= l.len(),
            lv == spans_view(l@),
            spans_view(r@) + bulleted(lv.skip(i as int)) == bulleted(lv),
        decreases l.len() - i,
    {
        assert(lv.skip(i as int)[0] == l@[i as int]@);
        assert(lv.skip(i as int).skip(1) =~= lv.skip(i + 1));
        let ghost before = spans_view(r@);
        r.push(StyledSpan::new(String::from_str("\u{29bf}  "), plain_style()));
        r.push(l[i].duplicate());
        assert(spans_view(r@) =~= before + seq![span(bullet_text(), plain()), l@[i as int]@]);
        assert(before + (seq![span(bullet_text(), plain()), l@[i as int]@] + bulleted(
            lv.skip(i + 1),
        )) =~= spans_view(r@) + bulleted(lv.skip(i + 1)));
        i = i + 1;
    }
    assert(lv.skip(l.len() as int) =~= Seq::<SpanModel>::empty());
    assert(spans_view(r@) + Seq::<SpanModel>::empty() =~= spans_view(r@));
    r
}

/// Whether some span of `l` holds text.
pub fn line_has_text(l: &Vec<StyledSpan>) -> (b: bool)
    ensures
        b == has_text(spans_view(l@)),
{
    let mut i: usize = 0;
    while i < l.len()
        invariant
            i <= l.len(),
            forall|k: int| 0 <= k < i ==> #[trigger] spans_view(l@)[k].content.len() == 0,
        decreases l.len() - i,
    {
        if !l[i].content.as_str().is_empty() {
            assert(spans_view(l@)[i as int].content.len() > 0);
            return true;
        }
        assert(spans_view(l@)[i as int] == l@[i as int]@);
        i = i + 1;
    }
    false
}

/// The lines of an unordered list made of the lines `ls`.
pub fn bullet_lines_of(ls: &Vec<Vec<StyledSpan>>) -> (r: Vec<Vec<StyledSpan>>)
    ensures
        lines_view(r@) == bullet_lines(lines_view(ls@)),
{
    let ghost lv = lines_view(ls@);
    let mut r: Vec<Vec<StyledSpan>> = Vec::new();
    let mut i: usize = 0;
    assert(lv.skip(0) =~= lv);
    while i < ls.len()
        invariant
            i <= ls.len(),
            lv == lines_view(ls@),
            lines_view(r@) + bullet_lines(lv.skip(i as int)) == bullet_lines(lv),
        decreases ls.len() - i,
    {
        assert(lv.skip(i as int)[0] == spans_view(ls@[i as int]@));
        assert(lv.skip(i as int).skip(1) =~= lv.skip(i + 1));
        let ghost before = lines_view(r@);
        if line_has_text(&ls[i]) {
            let b = bulleted_line(&ls[i]);
            r.push(b);
            assert(lines_view(r@) =~= before.push(spans_view(b@)));
            assert(before + (seq![spans_view(b@)] + bullet_lines(lv.skip(i + 1))) =~= lines_view(
                r@,
            ) + bullet_lines(lv.skip(i + 1)));
        }
        i = i + 1;
    }
    assert(lv.skip(ls.len() as int) =~= Seq::<LineModel>::empty());
    assert(lines_view(r@) + Seq::<LineModel>::empty() =~= lines_view(r@));
    r
}

/// The line `l` with numbers from `start` on put in front of its spans, and
/// the number that follows.
pub fn numbered_line(l: &Vec<StyledSpan>, start: u64) -> (r: (Vec<StyledSpan>, u64))
    ensures
        spans_view(r.0@) == numbered(spans_view(l@), start),
        r.1 == next_number(spans_view(l@), start),
{
    let ghost lv = spans_view(l@);
    let mut r: Vec<StyledSpan> = Vec::new();
    let mut idx = start;
    let mut i: usize = 0;
    assert(lv.skip(0) =~= lv);
    while i < l.len()
        invariant
            i <= l.len(),
            lv == spans_view(l@),
            spans_view(r@) + numbered(lv.skip(i as int), idx) == numbered(lv, start),
            next_number(lv.skip(i as int), idx) == next_number(lv, start),
        decreases l.len() - i,
    {
        assert(lv.skip(i as int)[0] == l@[i as int]@);
        assert(lv.skip(i as int).skip(1) =~= lv.skip(i + 1));
        let ghost before = spans_view(r@);
        let mut label = crate::text::decimal_string(idx);
        label.append(". ");
        r.push(StyledSpan::new(label, plain_style()));
        r.push(l[i].duplicate());
        assert(spans_view(r@) =~= before + seq![span(number_text(idx), plain()), l@[i as int]@]);
        assert(before + (seq![span(number_text(idx), plain()), l@[i as int]@] + numbered(
            lv.skip(i + 1),
            idx.wrapping_add(1),
        )) =~= spans_view(r@) + numbered(lv.skip(i + 1), idx.wrapping_add(1)));
        idx = idx.wrapping_add(1);
        i = i + 1;
    }
    assert(lv.skip(l.len() as int) =~= Seq::<SpanModel>::empty());
    assert(spans_view(r@) + Seq::<SpanModel>::empty() =~= spans_view(r@));
    (r, idx)
}

/// The lines of an ordered list made of the lines `ls`, numbered from one.
pub fn number_lines_of(ls: &Vec<Vec<StyledSpan>>) -> (r: Vec<Vec<StyledSpan>>)
    ensures
        lines_view(r@) == number_lines(lines_view(ls@), 1),
{
    let ghost lv = lines_view(ls@);
    let mut r: Vec<Vec<StyledSpan>> = Vec::new();
    let mut idx: u64 = 1;
    let mut i: usize = 0;
    assert(lv.skip(0) =~= lv);
    while i < ls.len()
        invariant
            i <= ls.len(),
            lv == lines_view(ls@),
            lines_view(r@) + number_lines(lv.skip(i as int), idx) == number_lines(lv, 1),
        decreases ls.len() - i,
    {
        assert(lv.skip(i as int)[0] == spans_view(ls@[i as int]@));
        assert(lv.skip(i as int).skip(1) =~= lv.skip(i + 1));
        let ghost before = lines_view(r@);
        let (line, next) = numbered_line(&ls[i], idx);
        r.push(line);
        assert(lines_view(r@) =~= before.push(spans_view(line@)));
        assert(before + (seq![spans_view(line@)] + number_lines(lv.skip(i + 1), next)) =~= lines_view(
            r@,
        ) + number_lines(lv.skip(i + 1), next));
        idx = next;
        i = i + 1;
    }
    assert(lv.skip(ls.len() as int) =~= Seq::<LineModel>::empty());
    assert(lines_view(r@) + Seq::<LineModel>::empty() =~= lines_view(r@));
    r
}


/// The lines of running text made of `spans`, each split at its line breaks.
pub fn text_lines_of(spans: &Vec<StyledSpan>) -> (r: Vec<Vec<StyledSpan>>)
    ensures
        lines_view(r@) == text_lines(spans_view(spans@)),
{
    let ghost sv = spans_view(spans@);
    let ghost init = LineState { done: seq![], cur: seq![] };
    let mut done: Vec<Vec<StyledSpan>> = Vec::new();
    let mut cur: Vec<StyledSpan> = Vec::new();
    let mut i: usize = 0;
    assert(sv.skip(0) =~= sv);
    assert(lines_view(done@) =~= Seq::<LineModel>::empty());
    assert(spans_view(cur@) =~= Seq::<SpanModel>::empty());
    while i < spans.len()
        invariant
            i <= spans.len(),
            sv == spans_view(spans@),
            add_spans(
                LineState { done: lines_view(done@), cur: spans_view(cur@) },
                sv.skip(i as int),
            ) == add_spans(init, sv),
        decreases spans.len() - i,
    {
        assert(sv.skip(i as int)[0] == spans@[i as int]@);
        assert(sv.skip(i as int).skip(1) =~= sv.skip(i + 1));
        let style = spans[i].style;
        let parts = lines_of(spans[i].content.as_str());
        let ghost pv = views(parts@);
        let ghost st0 = LineState { done: lines_view(done@), cur: spans_view(cur@) };
        let mut j: usize = 0;
        while j < parts.len()
            invariant
                j <= parts.len(),
                pv == views(parts@),
                add_parts(
                    LineState { done: lines_view(done@), cur: spans_view(cur@) },
                    pv,
                    style,
                    j as int,
                ) == add_parts(st0, pv, style, 0),
            decreases parts.len() - j,
        {
            let ghost st = LineState { done: lines_view(done@), cur: spans_view(cur@) };
            if j > 0 {
                let finished = cur;
                cur = Vec::new();
                let ghost before = lines_view(done@);
                done.push(finished);
                assert(lines_view(done@) =~= before.push(spans_view(finished@)));
                assert(spans_view(cur@) =~= Seq::<SpanModel>::empty());
            }
            if !parts[j].as_str().is_empty() {
                let ghost before = spans_view(cur@);
                cur.push(StyledSpan::new(parts[j].clone(), style));
                assert(spans_view(cur@) =~= before.push(span(pv[j as int], style)));
            }
            assert(LineState { done: lines_view(done@), cur: spans_view(cur@) } == add_part(
                st,
                pv[j as int],
                style,
                j == 0,
            ));
            j = j + 1;
        }
        i = i + 1;
    }
    assert(sv.skip(spans.len() as int) =~= Seq::<SpanModel>::empty());
    if cur.len() > 0 {
        let ghost before = lines_view(done@);
        done.push(cur);
        assert(lines_view(done@) =~= before.push(spans_view(cur@)));
    }
    done
}

/// The paragraph of a code block with the text `inner`.
pub fn code_paragraph_of(inner: String) -> (p: ParagraphData)
    ensures
        p@ == code_paragraph(inner@),
{
    proof {
        reveal_strlit("~filename");
    }
    let (title, body) = if starts_with_str(inner.as_str(), "~filename") {
        let ls = lines_of(inner.as_str());
        if ls.len() > 0 {
            let mut rest: Vec<String> = Vec::new();
            let mut k: usize = 1;
            while k < ls.len()
                invariant
                    1 <= k <= ls.len(),
                    views(rest@) == views(ls@).subrange(1, k as int),
                decreases ls.len() - k,
            {
                let ghost before = views(rest@);
                rest.push(ls[k].clone());
                assert(views(rest@) =~= views(ls@).subrange(1, k + 1)) by {
                    assert(views(rest@) =~= before.push(ls@[k as int]@));
                }
                k = k + 1;
            }
            assert(views(ls@).subrange(1, ls.len() as int) =~= views(ls@).skip(1));
            let mut t = String::from_str(" ");
            t.append(replace_str(ls[0].as_str(), "~filename", "").as_str());
            t.append(" ");
            assert(views(ls@)[0] == ls@[0]@);
            (t, join_strings(&rest, "\n"))
        } else {
            (String::from_str(" code "), join_strings(&ls, "\n"))
        }
    } else {
        (String::from_str(" code "), inner)
    };
    assert((title@, body@) == code_parts(inner@));
    let bl = lines_of(body.as_str());
    let ghost bv = views(bl@);
    let mut lines: Vec<Vec<StyledSpan>> = Vec::new();
    let mut i: usize = 0;
    while i < bl.len()
        invariant
            i <= bl.len(),
            bv == views(bl@),
            lines_view(lines@) == bv.take(i as int).map_values(
                |l: Seq<char>| seq![span(l, code_block())],
            ),
        decreases bl.len() - i,
    {
        let ghost before = lines_view(lines@);
        let mut line: Vec<StyledSpan> = Vec::new();
        line.push(StyledSpan::new(bl[i].clone(), code_block_style()));
        assert(spans_view(line@) =~= seq![span(bv[i as int], code_block())]);
        lines.push(line);
        assert(lines_view(lines@) =~= bv.take(i + 1).map_values(
            |l: Seq<char>| seq![span(l, code_block())],
        )) by {
            assert(lines_view(lines@) =~= before.push(spans_view(line@)));
        }
        i = i + 1;
    }
    assert(bv.take(bl.len() as int) =~= bv);
    ParagraphData::new(lines, Some(Frame::Code { title }))
}


fn single_of(content: String, style: SpanStyle, block: Option<Frame>) -> (p: ParagraphData)
    ensures
        p@ == single(content@, style, frame_view(block)),
{
    let mut line: Vec<StyledSpan> = Vec::new();
    line.push(StyledSpan::new(content, style));
    let mut lines: Vec<Vec<StyledSpan>> = Vec::new();
    let ghost lv = spans_view(line@);
    assert(lv =~= seq![span(content@, style)]);
    lines.push(line);
    assert(lines_view(lines@) =~= seq![lv]);
    ParagraphData::new(lines, block)
}

fn one_paragraph(p: ParagraphData) -> (r: Vec<ParagraphData>)
    ensures
        paragraphs_view(r@) == seq![p@],
{
    let mut r: Vec<ParagraphData> = Vec::new();
    r.push(p);
    assert(paragraphs_view(r@) =~= seq![p@]);
    r
}

/// Whether every tag that node `n` makes paragraphs of is rendered.
pub fn is_supported(d: &HtmlDoc, n: usize) -> (b: bool)
    requires
        d@.wf(),
        n < d@.nodes.len(),
    ensures
        b == supported(d@, n as int),
    decreases d@.nodes.len() - n,
{
    assert(d@.nodes[n as int] == d.nodes[n as int]@);
    match &d.nodes[n] {
        HtmlNode::Tag { name, children } => match block_kind_of(name) {
            BlockKind::Unsupported => false,
            BlockKind::Container => {
                let ghost dm = d@;
                assert(dm.children(n as int) == children@);
                assert(supported(dm, n as int) == children_supported(dm, n as int, children@));
                let mut k: usize = 0;
                assert(children@.skip(0) =~= children@);
                while k < children.len()
                    invariant
                        dm == d@,
                        dm.wf(),
                        n < dm.nodes.len(),
                        dm.children(n as int) == children@,
                        k <= children.len(),
                        supported(dm, n as int) == children_supported(dm, n as int, children@),
                        children_supported(dm, n as int, children@) == children_supported(
                            dm,
                            n as int,
                            children@.skip(k as int),
                        ),
                    decreases children.len() - k,
                {
                    let c = children[k];
                    assert(children@.skip(k as int)[0] == c);
                    assert(children@.skip(k as int).skip(1) =~= children@.skip(k + 1));
                    assert(dm.children(n as int)[k as int] == c);
                    assert(dm.below(n as int, c));
                    assert(children_supported(dm, n as int, children@.skip(k as int)) == (supported(
                        dm,
                        c as int,
                    ) && children_supported(dm, n as int, children@.skip(k + 1))));
                    if !is_supported(d, c) {
                        return false;
                    }
                    k = k + 1;
                }
                assert(children@.skip(children.len() as int) =~= Seq::<usize>::empty());
                true
            },
            _ => true,
        },
        _ => true,
    }
}

/// The paragraphs of node `n` at the top of a fragment.
pub fn paragraphs_of(d: &HtmlDoc, n: usize) -> (r: Vec<ParagraphData>)
    requires
        d@.wf(),
        n < d@.nodes.len(),
        supported(d@, n as int),
    ensures
        paragraphs_view(r@) == paragraphs(d@, n as int),
    decreases d@.nodes.len() - n,
{
    assert(d@.nodes[n as int] == d.nodes[n as int]@);
    match &d.nodes[n] {
        HtmlNode::Comment => {
            let r: Vec<ParagraphData> = Vec::new();
            assert(paragraphs_view(r@) =~= Seq::<ParagraphModel>::empty());
            r
        },
        HtmlNode::Raw(t) => {
            let trimmed = crate::text::trim_string(t.as_str());
            one_paragraph(single_of(decoded(&trimmed), plain_style(), None))
        },
        HtmlNode::Tag { name, children } => {
            let ghost dm = d@;
            assert(dm.children(n as int) == children@);
            let kind = block_kind_of(name);
            match kind {
                BlockKind::Text => {
                    let spans = child_spans_of(d, n);
                    one_paragraph(ParagraphData::new(text_lines_of(&spans), None))
                },
                BlockKind::Bullets => {
                    let ls = child_block_lines_of(d, n);
                    one_paragraph(ParagraphData::new(bullet_lines_of(&ls), None))
                },
                BlockKind::Numbered => {
                    let ls = child_block_lines_of(d, n);
                    one_paragraph(ParagraphData::new(number_lines_of(&ls), None))
                },
                BlockKind::Rule => one_paragraph(
                    single_of(String::new(), plain_style(), Some(Frame::Rule)),
                ),
                BlockKind::Container => {
                    let mut all: Vec<ParagraphData> = Vec::new();
                    let mut k: usize = 0;
                    assert(children@.skip(0) =~= children@);
                    while k < children.len()
                        invariant
                            dm == d@,
                            dm.wf(),
                            n < dm.nodes.len(),
                            dm.children(n as int) == children@,
                            k <= children.len(),
                            children_supported(dm, n as int, children@.skip(k as int)),
                            paragraphs_view(all@) + children_paragraphs(
                                dm,
                                n as int,
                                children@.skip(k as int),
                            ) == children_paragraphs(dm, n as int, children@),
                        decreases children.len() - k,
                    {
                        let c = children[k];
                        assert(children@.skip(k as int)[0] == c);
                        assert(children@.skip(k as int).skip(1) =~= children@.skip(k + 1));
                        assert(dm.children(n as int)[k as int] == c);
                        let part = paragraphs_of(d, c);
                        let ghost before = paragraphs_view(all@);
                        append_paragraphs(&mut all, part);
                        assert(before + (paragraphs(dm, c as int) + children_paragraphs(
                            dm,
                            n as int,
                            children@.skip(k + 1),
                        )) =~= paragraphs_view(all@) + children_paragraphs(
                            dm,
                            n as int,
                            children@.skip(k + 1),
                        ));
                        k = k + 1;
                    }
                    assert(children@.skip(children.len() as int) =~= Seq::<usize>::empty());
                    assert(paragraphs_view(all@) + Seq::<ParagraphModel>::empty()
                        =~= paragraphs_view(all@));
                    all
                },
                _ => {
                    let text = d.inner_text(n);
                    let inner = string_from(&crate::entities::decode_entity_chars(text));
                    match kind {
                        BlockKind::Bold => one_paragraph(single_of(inner, bold_style(), None)),
                        BlockKind::Italic => one_paragraph(single_of(inner, italic_style(), None)),
                        BlockKind::Underline => one_paragraph(
                            single_of(inner, underlined_style(), None),
                        ),
                        BlockKind::Strike => one_paragraph(
                            single_of(inner, crossed_out_style(), None),
                        ),
                        BlockKind::Code => one_paragraph(code_paragraph_of(inner)),
                        _ => one_paragraph(single_of(inner, plain_style(), Some(Frame::Quote))),
                    }
                },
            }
        },
    }
}

/// The paragraphs of a whole well-formed fragment whose tags are all rendered.
pub fn document_paragraphs_of(d: &HtmlDoc) -> (r: Vec<ParagraphData>)
    requires
        d@.wf(),
        document_supported(d@),
    ensures
        paragraphs_view(r@) == document_paragraphs(d@),
{
    let ghost dm = d@;
    let mut all: Vec<ParagraphData> = Vec::new();
    let mut k: usize = 0;
    assert(dm.roots.skip(0) =~= dm.roots);
    while k < d.roots.len()
        invariant
            dm == d@,
            dm.wf(),
            document_supported(dm),
            k <= d.roots.len(),
            paragraphs_view(all@) + roots_paragraphs(dm, dm.roots.skip(k as int))
                == document_paragraphs(dm),
        decreases d.roots.len() - k,
    {
        let r = d.roots[k];
        assert(dm.roots.skip(k as int)[0] == r);
        assert(dm.roots.skip(k as int).skip(1) =~= dm.roots.skip(k + 1));
        assert(dm.roots[k as int] == r);
        assert(supported(dm, dm.roots[k as int] as int));
        let part = paragraphs_of(d, r);
        let ghost before = paragraphs_view(all@);
        append_paragraphs(&mut all, part);
        assert(before + (paragraphs(dm, r as int) + roots_paragraphs(dm, dm.roots.skip(k + 1)))
            =~= paragraphs_view(all@) + roots_paragraphs(dm, dm.roots.skip(k + 1)));
        k = k + 1;
    }
    assert(dm.roots.skip(d.roots.len() as int) =~= Seq::<usize>::empty());
    assert(paragraphs_view(all@) + Seq::<ParagraphModel>::empty() =~= paragraphs_view(all@));
    all
}

/// Whether every top-level node of a well-formed fragment is rendered.
pub fn is_document_supported(d: &HtmlDoc) -> (b: bool)
    requires
        d@.wf(),
    ensures
        b == document_supported(d@),
{
    let mut k: usize = 0;
    while k < d.roots.len()
        invariant
            d@.wf(),
            k <= d.roots.len(),
            forall|i: int| 0 <= i < k ==> #[trigger] supported(d@, d@.roots[i] as int),
        decreases d.roots.len() - k,
    {
        assert(d@.roots[k as int] == d.roots[k as int]);
        if !is_supported(d, d.roots[k]) {
            return false;
        }
        k = k + 1;
    }
    true
}

/// What rendering the HTML text `html` gives: the paragraphs of the fragment
/// that the parser makes of it, or `None` where the parser refuses it or the
/// fragment holds a tag that is not rendered.
pub open spec fn rendered(html: Seq<char>) -> Option<Seq<ParagraphModel>> {
    match crate::html::html_document(html) {
        Some(d) => if d.wf() && document_supported(d) {
            Some(document_paragraphs(d))
        } else {
            None
        },
        None => None,
    }
}

/// The paragraphs of the HTML text `html`: `None` where the parser refuses the
/// text or a tag that is not rendered stands where paragraphs are made.
pub fn parse_html(html: String) -> (r: Option<Vec<ParagraphData>>)
    ensures
        match r {
            Some(ps) => rendered(html@) == Some(paragraphs_view(ps@)),
            None => rendered(html@) is None,
        },
{
    match crate::html::parse_document(html.as_str()) {
        Some(d) => {
            if d.is_well_formed() && is_document_supported(&d) {
                Some(document_paragraphs_of(&d))
            } else {
                None
            }
        },
        None => None,
    }
}

} // verus!
