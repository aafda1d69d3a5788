//! What the workers read from an HTML document: the elements that a
//! selector picks, each with its link target and its text.

use vstd::prelude::*;
use crate::artifacts::{copy_opt, opt_text};
use crate::json::optional_texts;
use crate::text::names;

verus! {

/// A piece of text of a document.
#[derive(Debug, Clone)]
pub struct TextNode {
    /// The text
    pub text: String,
    /// The names of the elements around it, the nearest first
    pub ancestors: Vec<String>,
}

/// An element that a selector picked.
#[derive(Debug, Clone)]
pub struct Picked {
    /// The value of its `href` attribute
    pub href: Option<String>,
    /// The pieces of text in it, in the order of the document
    pub texts: Vec<TextNode>,
}

/// What a piece of text says.
pub struct TextModel {
    pub text: Seq<char>,
    pub ancestors: Seq<Seq<char>>,
}

/// What a picked element says.
pub struct PickedModel {
    pub href: Option<Seq<char>>,
    pub texts: Seq<TextModel>,
}

impl TextNode {
    /// What the piece of text says.
    pub open spec fn model(&self) -> TextModel {
        TextModel { text: self.text@, ancestors: names(self.ancestors@) }
    }
}

/// The model of each piece of text.
pub open spec fn text_models(v: Seq<TextNode>) -> Seq<TextModel> {
    v.map_values(|t: TextNode| t.model())
}

impl Picked {
    /// What the picked element says.
    pub open spec fn model(&self) -> PickedModel {
        PickedModel { href: opt_text(self.href), texts: text_models(self.texts@) }
    }
}

/// The model of each picked element.
pub open spec fn picked_models(v: Seq<Picked>) -> Seq<PickedModel> {
    v.map_values(|p: Picked| p.model())
}

/// A node of a document, as the parser hands it out.
#[derive(Debug, Clone)]
pub struct Node {
    /// The text, where the node is a piece of text
    pub text: Option<String>,
    /// For each node around it, the nearest first, its name where it is an
    /// element
    pub around: Vec<Option<String>>,
}

/// An element of a document, as the parser hands it out.
#[derive(Debug, Clone)]
pub struct Element {
    /// The value of the attribute that was asked for
    pub attribute: Option<String>,
    /// The nodes in it, in the order of the document
    pub nodes: Vec<Node>,
}

/// What a node says.
pub struct NodeModel {
    pub text: Option<Seq<char>>,
    pub around: Seq<Option<Seq<char>>>,
}

/// What an element says.
pub struct ElementModel {
    pub attribute: Option<Seq<char>>,
    pub nodes: Seq<NodeModel>,
}

impl Node {
    /// What the node says.
    pub open spec fn model(&self) -> NodeModel {
        NodeModel { text: opt_text(self.text), around: optional_texts(self.around@) }
    }
}

/// The model of each node.
pub open spec fn node_models(v: Seq<Node>) -> Seq<NodeModel> {
    v.map_values(|n: Node| n.model())
}

impl Element {
    /// What the element says.
    pub open spec fn model(&self) -> ElementModel {
        ElementModel { attribute: opt_text(self.attribute), nodes: node_models(self.nodes@) }
    }
}

/// The model of each element.
pub open spec fn element_models(v: Seq<Element>) -> Seq<ElementModel> {
    v.map_values(|e: Element| e.model())
}

/// The elements of the document `html` that the CSS selector `selector`
/// picks, each with its value of `attribute` and the nodes below it, as the
/// `scraper` crate parses the one and matches the other; `None` where it
/// refuses the selector.
pub uninterp spec fn html_selected(
    html: Seq<char>,
    selector: Seq<char>,
    attribute: Seq<char>,
) -> Option<Seq<ElementModel>>;

/// Parses `html` with `scraper::Html::parse_document` and `selector` with
/// `scraper::Selector::parse`, and copies from each element that
/// `Html::select` yields what `attr` finds under `attribute` and the nodes
/// that `descendants` yields: of each its text, where `as_text` finds one,
/// and of each node that `ancestors` yields its name, where `as_element`
/// finds one. Parsing and matching depend on the three texts alone.
#[verifier::external_body]
pub(crate) fn select(html: &str, selector: &str, attribute: &str) -> (r: Option<Vec<Element>>)
    ensures
        match r {
            Some(v) => html_selected(html@, selector@, attribute@) == Some(element_models(v@)),
            None => html_selected(html@, selector@, attribute@) is None,
        },
{
    let document = scraper::Html::parse_document(html);
    let selector = scraper::Selector::parse(selector).ok()?;
    Some(document.select(&selector).map(|el| Element {
        attribute: el.value().attr(attribute).map(|h| h.to_string()),
        nodes: el.descendants().map(|n| Node {
            text: n.value().as_text().map(|t| t.text.to_string()),
            around: n.ancestors().map(
                |a| a.value().as_element().map(|e| e.name().to_string())).collect(),
        }).collect(),
    }).collect())
}

/// The names of the elements among the nodes around a node.
pub open spec fn element_names(around: Seq<Option<Seq<char>>>) -> Seq<Seq<char>>
    decreases around.len(),
{
    if around.len() == 0 {
        Seq::empty()
    } else {
        let before = element_names(around.drop_last());
        match around.last() {
            Some(name) => before.push(name),
            None => before,
        }
    }
}

/// The pieces of text among the nodes, each with the names of the elements
/// around it.
pub open spec fn text_pieces(nodes: Seq<NodeModel>) -> Seq<TextModel>
    decreases nodes.len(),
{
    if nodes.len() == 0 {
        Seq::empty()
    } else {
        let before = text_pieces(nodes.drop_last());
        match nodes.last().text {
            Some(text) => before.push(
                TextModel { text, ancestors: element_names(nodes.last().around) },
            ),
            None => before,
        }
    }
}

/// A picked element of each element: its link target and its pieces of
/// text.
pub open spec fn picked_of(elements: Seq<ElementModel>) -> Seq<PickedModel> {
    elements.map_values(
        |e: ElementModel| PickedModel { href: e.attribute, texts: text_pieces(e.nodes) },
    )
}

/// The attribute that holds the target of a link.
pub const LINK_ATTRIBUTE: &'static str = "href";

/// The elements that `selector` picks in `html`, each with its link target;
/// none where the selector is refused.
pub open spec fn selected(html: Seq<char>, selector: Seq<char>) -> Seq<PickedModel> {
    match html_selected(html, selector, LINK_ATTRIBUTE@) {
        Some(v) => picked_of(v),
        None => Seq::empty(),
    }
}

fn names_around(around: &Vec<Option<String>>) -> (out: Vec<String>)
    ensures
        names(out@) == element_names(optional_texts(around@)),
{
    let ghost m = optional_texts(around@);
    let mut out: Vec<String> = Vec::new();
    let mut i: usize = 0;
    proof {
        assert(m.take(0) =~= Seq::<Option<Seq<char>>>::empty());
        assert(names(out@) =~= element_names(m.take(0)));
    }
    while i < around.len()
        invariant
            i <= around.len(),
            m == optional_texts(around@),
            names(out@) == element_names(m.take(i as int)),
        decreases around.len() - i,
    {
        proof {
            assert(m.take(i + 1).drop_last() =~= m.take(i as int));
            assert(m.take(i + 1).last() == opt_text(around@[i as int]));
        }
        match &around[i] {
            Some(name) => {
                let ghost before = names(out@);
                out.push(name.clone());
                assert(names(out@) =~= before.push(name@));
            },
            None => {},
        }
        i += 1;
    }
    assert(m.take(around@.len() as int) =~= m);
    out
}

fn pieces_of(nodes: &Vec<Node>) -> (out: Vec<TextNode>)
    ensures
        text_models(out@) == text_pieces(node_models(nodes@)),
{
    let ghost m = node_models(nodes@);
    let mut out: Vec<TextNode> = Vec::new();
    let mut i: usize = 0;
    proof {
        assert(m.take(0) =~= Seq::<NodeModel>::empty());
        assert(text_models(out@) =~= text_pieces(m.take(0)));
    }
    while i < nodes.len()
        invariant
            i <= nodes.len(),
            m == node_models(nodes@),
            text_models(out@) == text_pieces(m.take(i as int)),
        decreases nodes.len() - i,
    {
        proof {
            assert(m.take(i + 1).drop_last() =~= m.take(i as int));
            assert(m.take(i + 1).last() == nodes@[i as int].model());
        }
        match &nodes[i].text {
            Some(text) => {
                let ghost before = text_models(out@);
                let piece = TextNode { text: text.clone(), ancestors: names_around(&nodes[i].around) };
                out.push(piece);
                assert(text_models(out@) =~= before.push(piece.model()));
            },
            None => {},
        }
        i += 1;
    }
    assert(m.take(nodes@.len() as int) =~= m);
    out
}

/// The elements that `selector` picks in `html`, each with its link target
/// and its pieces of text.
pub fn pick(html: &str, selector: &str) -> (r: Vec<Picked>)
    ensures
        picked_models(r@) == selected(html@, selector@),
{
    let mut r: Vec<Picked> = Vec::new();
    match select(html, selector, LINK_ATTRIBUTE) {
        Some(elements) => {
            let mut i: usize = 0;
            while i < elements.len()
                invariant
                    i <= elements.len(),
                    r@.len() == i,
                    forall|k: int|
                        0 <= k < i ==> (#[trigger] r@[k]).model() == picked_of(
                            element_models(elements@),
                        )[k],
                decreases elements.len() - i,
            {
                let e = &elements[i];
                r.push(Picked { href: copy_opt(&e.attribute), texts: pieces_of(&e.nodes) });
                i += 1;
            }
            assert(picked_models(r@) =~= picked_of(element_models(elements@)));
        },
        None => {
            assert(picked_models(r@) =~= Seq::<PickedModel>::empty());
        },
    }
    r
}

/// The texts of the pieces, one after the other.
pub open spec fn whole_text(texts: Seq<TextModel>) -> Seq<char>
    decreases texts.len(),
{
    if texts.len() == 0 {
        Seq::empty()
    } else {
        whole_text(texts.drop_last()) + texts.last().text
    }
}

/// The texts of the pieces, one after the other.
pub fn gather_text(texts: &Vec<TextNode>) -> (r: Vec<char>)
    ensures
        r@ == whole_text(text_models(texts@)),
{
    let ghost m = text_models(texts@);
    let mut r: Vec<char> = Vec::new();
    let mut i: usize = 0;
    assert(m.take(0) =~= Seq::<TextModel>::empty());
    while i < texts.len()
        invariant
            i <= texts.len(),
            m == text_models(texts@),
            r@ == whole_text(m.take(i as int)),
        decreases texts.len() - i,
    {
        proof {
            assert(m.take(i + 1).drop_last() =~= m.take(i as int));
            assert(m.take(i + 1).last() == texts@[i as int].model());
        }
        crate::text::push_str(&mut r, texts[i].text.as_str());
        i += 1;
    }
    assert(m.take(texts@.len() as int) =~= m);
    r
}

/// The texts of the pieces with a blank between each two.
pub open spec fn spaced_text(pieces: Seq<TextModel>) -> Seq<char> {
    crate::text::join(pieces.map_values(|t: TextModel| t.text), seq![' '])
}

/// The texts of the pieces with a blank between each two.
pub fn gather_spaced(pieces: &Vec<TextNode>) -> (r: Vec<char>)
    ensures
        r@ == spaced_text(text_models(pieces@)),
{
    let mut parts: Vec<Vec<char>> = Vec::new();
    let mut i: usize = 0;
    while i < pieces.len()
        invariant
            i <= pieces.len(),
            parts@.len() == i,
            forall|k: int| 0 <= k < i ==> (#[trigger] parts@[k])@ == pieces@[k].text@,
        decreases pieces.len() - i,
    {
        parts.push(crate::text::chars_of(pieces[i].text.as_str()));
        i += 1;
    }
    assert(crate::text::texts(parts@) =~= text_models(pieces@).map_values(|t: TextModel| t.text));
    let mut sep: Vec<char> = Vec::new();
    sep.push(' ');
    assert(sep@ =~= seq![' ']);
    crate::text::joined(&parts, &sep)
}

} // verus!
