use vstd::prelude::*;
use vstd::string::*;

verus! {

/// Identity of a component instance.
#[derive(Debug, Clone, Copy, PartialEq, Eq, Hash, Structural)]
pub struct ComponentId(pub u64);

/// A stable identity key used to reconcile elements across rebuilds.
#[derive(Debug, Clone, Copy, PartialEq, Eq, Hash, Structural)]
pub struct Key(pub u64);

/// An element representing a component instance in the tree.
#[derive(Debug)]
pub struct ComponentElement {
    /// The stable identity of this component instance.
    pub id: ComponentId,
    /// Optional reconciliation key.
    pub key: Option<Key>,
    /// Child elements produced by this component.
    pub children: Vec<Element>,
}

/// An element backed by a native platform widget.
#[derive(Debug)]
pub struct NativeElement {
    /// The widget tag identifying which native widget to instantiate.
    pub tag: &'static str,
    /// Child elements nested inside this native element.
    pub children: Vec<Element>,
}

/// An element representing a plain text node.
#[derive(Debug)]
pub struct TextElement {
    /// The text content to render.
    pub content: String,
}

/// The fundamental unit of the element tree: a lightweight description of
/// what to render.
#[derive(Debug)]
pub enum Element {
    /// A component-backed element.
    Component(ComponentElement),
    /// A native platform element.
    Native(NativeElement),
    /// A text leaf node.
    Text(TextElement),
    /// A no-op placeholder that renders nothing.
    Empty,
}

impl Element {
    /// The `Empty` element: renders nothing.
    pub fn empty() -> (e: Element)
        ensures
            e is Empty,
    {
        Element::Empty
    }

    /// A text leaf element with the given content.
    pub fn text(content: &str) -> (e: Element)
        ensures
            e matches Element::Text(t) && t.content@ == content@,
    {
        Element::Text(TextElement { content: content.to_owned() })
    }
}

/// Two element trees describe the same thing: same variants, identities,
/// keys, tags and text, with children pairwise the same.
pub open spec fn same_tree(a: Element, b: Element) -> bool
    decreases a,
{
    match (a, b) {
        (Element::Component(x), Element::Component(y)) => {
            &&& x.id == y.id
            &&& x.key == y.key
            &&& x.children@.len() == y.children@.len()
            &&& forall|i: int| 0 <= i < x.children@.len() ==> same_tree(#[trigger] x.children@[i], y.children@[i])
        },
        (Element::Native(x), Element::Native(y)) => {
            &&& x.tag@ == y.tag@
            &&& x.children@.len() == y.children@.len()
            &&& forall|i: int| 0 <= i < x.children@.len() ==> same_tree(#[trigger] x.children@[i], y.children@[i])
        },
        (Element::Text(x), Element::Text(y)) => x.content@ == y.content@,
        (Element::Empty, Element::Empty) => true,
        _ => false,
    }
}

fn duplicate_children(children: &Vec<Element>) -> (r: Vec<Element>)
    ensures
        r@.len() == children@.len(),
        forall|i: int| 0 <= i < children@.len() ==> same_tree(#[trigger] children@[i], r@[i]),
    decreases children@, 0nat,
{
    let mut out: Vec<Element> = Vec::new();
    let mut i: usize = 0;
    while i < children.len()
        invariant
            i <= children@.len(),
            out@.len() == i,
            forall|k: int| 0 <= k < i ==> same_tree(#[trigger] children@[k], out@[k]),
        decreases children@.len() - i,
    {
        assert(decreases_to!(children@ => children@[i as int]));
        let c = children[i].duplicate();
        out.push(c);
        i = i + 1;
    }
    out
}

impl Element {
    /// A copy of this element tree.
    pub fn duplicate(&self) -> (r: Element)
        ensures
            same_tree(*self, r),
        decreases *self, 1nat,
    {
        match self {
            Element::Component(c) => {
                let children = duplicate_children(&c.children);
                Element::Component(ComponentElement { id: c.id, key: c.key, children })
            },
            Element::Native(n) => {
                let children = duplicate_children(&n.children);
                Element::Native(NativeElement { tag: n.tag, children })
            },
            Element::Text(t) => Element::Text(TextElement { content: t.content.clone() }),
            Element::Empty => Element::Empty,
        }
    }
}

impl Clone for Element {
    fn clone(&self) -> (r: Element)
        ensures
            same_tree(*self, r),
    {
        self.duplicate()
    }
}

} // verus!
