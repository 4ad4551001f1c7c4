//! The parsed form of an HTML fragment: an arena of nodes, as the `tl` parser
//! lays it out, and the text a node holds.

use vstd::prelude::*;
use crate::text::chars_of;
use vstd::string::StringSliceAdditionalSpecFns;
use tl::{Node, NodeHandle, ParserOptions};

verus! {

/// One node of a parsed HTML fragment. The children of a tag are indices into
/// the arena of its document.
#[derive(Debug)]
pub enum HtmlNode {
    Tag { name: String, children: Vec<usize> },
    Raw(String),
    Comment,
}

/// A node as a mathematical value.
pub enum NodeModel {
    Tag { name: Seq<char>, children: Seq<usize> },
    Raw(Seq<char>),
    Comment,
}

impl View for HtmlNode {
    type V = NodeModel;

    open spec fn view(&self) -> NodeModel {
        match self {
            HtmlNode::Tag { name, children } => NodeModel::Tag { name: name@, children: children@ },
            HtmlNode::Raw(t) => NodeModel::Raw(t@),
            HtmlNode::Comment => NodeModel::Comment,
        }
    }
}

/// A parsed HTML fragment: every node, and the indices of the top-level ones.
#[derive(Debug)]
pub struct HtmlDoc {
    pub nodes: Vec<HtmlNode>,
    pub roots: Vec<usize>,
}

/// A parsed fragment as a mathematical value.
pub struct DocModel {
    pub nodes: Seq<NodeModel>,
    pub roots: Seq<usize>,
}

impl View for HtmlDoc {
    type V = DocModel;

    open spec fn view(&self) -> DocModel {
        DocModel { nodes: self.nodes@.map_values(|n: HtmlNode| n@), roots: self.roots@ }
    }
}

impl DocModel {
    /// The children of node `n`, none unless it is a tag.
    pub open spec fn children(self, n: int) -> Seq<usize> {
        match self.nodes[n] {
            NodeModel::Tag { children, .. } => children,
            _ => seq![],
        }
    }

    /// Every index is inside the arena and every child comes after its parent,
    /// as the parser registers a tag before the nodes inside it.
    pub open spec fn wf(self) -> bool {
        &&& forall|i: int| 0 <= i < self.roots.len() ==> #[trigger] self.roots[i] < self.nodes.len()
        &&& forall|n: int, j: int|
            0 <= n < self.nodes.len() && 0 <= j < self.children(n).len() ==> n
                < #[trigger] self.children(n)[j] < self.nodes.len()
    }

    /// Whether `c` may be visited below node `n`.
    pub open spec fn below(self, n: int, c: usize) -> bool {
        n < c < self.nodes.len()
    }

    /// The text inside node `n` without any markup (`tl`'s `inner_text`):
    /// the text of a raw node, nothing for a comment, and for a tag the texts of
    /// its children one after another.
    pub open spec fn inner_text(self, n: int) -> Seq<char>
        decreases self.nodes.len() - n, self.children(n).len() + 1,
    {
        if 0 <= n < self.nodes.len() {
            match self.nodes[n] {
                NodeModel::Raw(t) => t,
                NodeModel::Comment => seq![],
                NodeModel::Tag { .. } => self.children_text(n, self.children(n)),
            }
        } else {
            seq![]
        }
    }

    /// The texts of the nodes `cs`, children of `n`, one after another.
    pub open spec fn children_text(self, n: int, cs: Seq<usize>) -> Seq<char>
        decreases self.nodes.len() - n, cs.len(),
    {
        if cs.len() == 0 || n < 0 {
            seq![]
        } else if self.below(n, cs[0]) {
            self.inner_text(cs[0] as int) + self.children_text(n, cs.skip(1))
        } else {
            self.children_text(n, cs.skip(1))
        }
    }
}

impl HtmlDoc {
    /// Whether the arena is well formed.
    pub fn is_well_formed(&self) -> (b: bool)
        ensures
            b == self@.wf(),
    {
        let len = self.nodes.len();
        let mut i: usize = 0;
        while i < self.roots.len()
            invariant
                i <= self.roots.len(),
                len == self@.nodes.len(),
                forall|k: int| 0 <= k < i ==> #[trigger] self@.roots[k] < len,
            decreases self.roots.len() - i,
        {
            if self.roots[i] >= len {
                assert(self@.roots[i as int] >= len);
                return false;
            }
            i = i + 1;
        }
        let mut n: usize = 0;
        while n < len
            invariant
                n <= len,
                len == self@.nodes.len(),
                forall|k: int| 0 <= k < self.roots.len() ==> #[trigger] self@.roots[k] < len,
                forall|m: int, j: int|
                    0 <= m < n && 0 <= j < self@.children(m).len() ==> m
                        < #[trigger] self@.children(m)[j] < len,
            decreases len - n,
        {
            match &self.nodes[n] {
                HtmlNode::Tag { children, .. } => {
                    assert(self@.children(n as int) == children@);
                    let mut j: usize = 0;
                    while j < children.len()
                        invariant
                            n < len,
                            len == self@.nodes.len(),
                            j <= children.len(),
                            self@.children(n as int) == children@,
                            forall|k: int| 0 <= k < j ==> n < #[trigger] children@[k] < len,
                        decreases children.len() - j,
                    {
                        if children[j] <= n || children[j] >= len {
                            assert(self@.children(n as int)[j as int] == children[j as int]);
                            return false;
                        }
                        j = j + 1;
                    }
                },
                _ => {
                    assert(self@.children(n as int).len() == 0);
                },
            }
            n = n + 1;
        }
        true
    }

    /// The text inside node `n` without markup.
    pub fn inner_text(&self, n: usize) -> (r: Vec<char>)
        requires
            self@.wf(),
            n < self@.nodes.len(),
        ensures
            r@ == self@.inner_text(n as int),
        decreases self@.nodes.len() - n,
    {
        match &self.nodes[n] {
            HtmlNode::Raw(t) => chars_of(t.as_str()),
            HtmlNode::Comment => Vec::new(),
            HtmlNode::Tag { children, .. } => {
                let ghost d = self@;
                assert(d.children(n as int) == children@);
                let mut out: Vec<char> = Vec::new();
                let mut k: usize = 0;
                assert(children@.skip(0) =~= children@);
                while k < children.len()
                    invariant
                        d == self@,
                        d.wf(),
                        n < d.nodes.len(),
                        d.children(n as int) == children@,
                        k <= children.len(),
                        out@ + d.children_text(n as int, children@.skip(k as int)) == d.inner_text(
                            n as int,
                        ),
                    decreases children.len() - k,
                {
                    let c = children[k];
                    assert(children@.skip(k as int)[0] == c);
                    assert(children@.skip(k as int).skip(1) =~= children@.skip(k + 1));
                    assert(d.children(n as int)[k as int] == c);
                    let part = self.inner_text(c);
                    let ghost before = out@;
                    let mut i: usize = 0;
                    while i < part.len()
                        invariant
                            i <= part.len(),
                            out@ == before + part@.take(i as int),
                        decreases part.len() - i,
                    {
                        out.push(part[i]);
                        i = i + 1;
                    }
                    assert(part@.take(part.len() as int) =~= part@);
                    assert(before + (part@ + d.children_text(n as int, children@.skip(k + 1)))
                        =~= out@ + d.children_text(n as int, children@.skip(k + 1)));
                    k = k + 1;
                }
                assert(children@.skip(children.len() as int) =~= Seq::<usize>::empty());
                assert(out@ + Seq::<char>::empty() =~= out@);
                out
            },
        }
    }
}

/// The view of a parse result.
pub open spec fn doc_view(r: Option<HtmlDoc>) -> Option<DocModel> {
    match r {
        Some(d) => Some(d@),
        None => None,
    }
}

/// What the `tl` parser makes of `html` with its default options: the node
/// arena and the top-level nodes, or `None` where it refuses the input.
pub uninterp spec fn html_document(html: Seq<char>) -> Option<DocModel>;

/// A wrapper of `tl::parse` with `ParserOptions::default()`. It hands back the
/// parser's nodes, in the parser's order, each tag with its name and the handles
/// of its direct children, each raw or comment node by its kind, together with
/// the handles of the top-level nodes. The whole result is named
/// `html_document`; the one fact stated of it is the parser's only refusal:
/// it fails only on an input longer than `u32::MAX` bytes.
#[verifier::external_body]
pub fn parse_document(html: &str) -> (r: Option<HtmlDoc>)
    ensures
        doc_view(r) == html_document(html@),
        html.spec_bytes().len() <= u32::MAX ==> r is Some,
{
    let dom = tl::parse(html, ParserOptions::default()).ok()?;
    let handles = |hs: &[NodeHandle]| hs.iter().map(|h| h.get_inner() as usize).collect();
    let nodes = dom.nodes().iter().map(|n| match n {
        Node::Tag(t) => HtmlNode::Tag {
            name: t.name().as_utf8_str().into_owned(),
            children: handles(t.children().top().as_slice()),
        },
        Node::Raw(b) => HtmlNode::Raw(b.as_utf8_str().into_owned()),
        Node::Comment(_) => HtmlNode::Comment,
    }).collect();
    Some(HtmlDoc { nodes, roots: handles(dom.children()) })
}

} // verus!
