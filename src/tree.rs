use vstd::prelude::*;

use crate::ident::{compose_identifier, frames_view, identifier, Frame, FrameView};
use crate::options::{OptionsView, PluginOptions};
use crate::path::{PathContext, PathView};

verus! {

/// A name/value attribute of an element.
pub struct Attribute {
    pub name: String,
    pub value: String,
}

/// An element of the markup tree: a tag or component occurrence.
pub struct Element {
    /// The tag or component name; empty for an anonymous fragment.
    pub name: String,
    pub attrs: Vec<Attribute>,
    pub children: Vec<Node>,
}

/// A child of an element.
pub enum Node {
    Element(Element),
    /// Text, an expression or any other child that is not an element.
    Other,
}

pub struct AttrView {
    pub name: Seq<char>,
    pub value: Seq<char>,
}

/// The mathematical model of [`Element`].
pub struct ElementView {
    pub name: Seq<char>,
    pub attrs: Seq<AttrView>,
    pub children: Seq<NodeView>,
}

/// The mathematical model of [`Node`].
pub enum NodeView {
    Element(ElementView),
    Other,
}

pub open spec fn attr_view(a: Attribute) -> AttrView {
    AttrView { name: a.name@, value: a.value@ }
}

pub open spec fn attrs_view(s: Seq<Attribute>) -> Seq<AttrView> {
    s.map_values(|a: Attribute| attr_view(a))
}

pub open spec fn element_view(e: Element) -> ElementView
    decreases e,
{
    ElementView {
        name: e.name@,
        attrs: attrs_view(e.attrs@),
        children: Seq::new(
            e.children@.len(),
            |i: int|
                if 0 <= i < e.children@.len() {
                    node_view(e.children@[i])
                } else {
                    NodeView::Other
                },
        ),
    }
}

pub open spec fn node_view(n: Node) -> NodeView
    decreases n,
{
    match n {
        Node::Element(e) => NodeView::Element(element_view(e)),
        Node::Other => NodeView::Other,
    }
}

/// Whether `attrs` holds an attribute called `name`.
pub open spec fn has_attr(attrs: Seq<AttrView>, name: Seq<char>) -> bool {
    exists|i: int| 0 <= i < attrs.len() && #[trigger] attrs[i].name == name
}

/// Whether `needle` occurs in `hay` as a contiguous run.
pub open spec fn contains(hay: Seq<char>, needle: Seq<char>) -> bool {
    exists|i: int|
        0 <= i && i + needle.len() <= hay.len() && #[trigger] hay.subrange(i, i + needle.len())
            == needle
}

/// Whether the identifier satisfies the optional pattern.
pub open spec fn matches_pattern(id: Seq<char>, pattern: Option<Seq<char>>) -> bool {
    match pattern {
        Some(p) => contains(id, p),
        None => true,
    }
}

/// The gates checked before an identifier is composed.
pub open spec fn gated(e: ElementView, stack: Seq<FrameView>, cfg: OptionsView) -> bool {
    has_attr(e.attrs, cfg.custom_property) || (cfg.first_child_only && stack.last().ordinal != 0)
}

/// Whether the element on top of `stack` receives an identifier.
pub open spec fn should_inject(
    e: ElementView,
    stack: Seq<FrameView>,
    ctx: PathView,
    cfg: OptionsView,
) -> bool {
    !gated(e, stack, cfg) && matches_pattern(identifier(stack, ctx, cfg), cfg.match_pattern)
}

/// The element after the injection step at this one element.
pub open spec fn inject_one(
    e: ElementView,
    stack: Seq<FrameView>,
    ctx: PathView,
    cfg: OptionsView,
) -> ElementView {
    if should_inject(e, stack, ctx, cfg) {
        ElementView {
            attrs: e.attrs.push(
                AttrView { name: cfg.custom_property, value: identifier(stack, ctx, cfg) },
            ),
            ..e
        }
    } else {
        e
    }
}

pub open spec fn node_name(n: NodeView) -> Seq<char> {
    match n {
        NodeView::Element(e) => e.name,
        NodeView::Other => Seq::empty(),
    }
}

/// The path stack of the `i`-th child `n` of the element whose stack is `stack`.
pub open spec fn child_stack(stack: Seq<FrameView>, n: NodeView, i: int) -> Seq<FrameView> {
    stack.push(FrameView { name: node_name(n), ordinal: i as nat })
}

/// The whole subtree of `e` after injection, `e` being on top of `stack`.
pub open spec fn injected_element(
    e: ElementView,
    stack: Seq<FrameView>,
    ctx: PathView,
    cfg: OptionsView,
) -> ElementView
    decreases e,
{
    ElementView {
        children: Seq::new(
            e.children.len(),
            |i: int|
                if 0 <= i < e.children.len() {
                    injected_node(e.children[i], child_stack(stack, e.children[i], i), ctx, cfg)
                } else {
                    NodeView::Other
                },
        ),
        ..inject_one(e, stack, ctx, cfg)
    }
}

pub open spec fn injected_node(
    n: NodeView,
    stack: Seq<FrameView>,
    ctx: PathView,
    cfg: OptionsView,
) -> NodeView
    decreases n,
{
    match n {
        NodeView::Element(e) => NodeView::Element(injected_element(e, stack, ctx, cfg)),
        NodeView::Other => NodeView::Other,
    }
}

/// Whether `attrs` holds an attribute called `name`.
pub fn has_attribute(attrs: &Vec<Attribute>, name: &String) -> (r: bool)
    ensures
        r == has_attr(attrs_view(attrs@), name@),
{
    let mut i: usize = 0;
    while i < attrs.len()
        invariant
            i <= attrs.len(),
            forall|j: int| 0 <= j < i ==> attrs@[j].name@ != name@,
        decreases attrs.len() - i,
    {
        if attrs[i].name == *name {
            assert(attrs_view(attrs@)[i as int].name == name@);
            return true;
        }
        i = i + 1;
    }
    assert forall|j: int| 0 <= j < attrs_view(attrs@).len() implies #[trigger] attrs_view(
        attrs@,
    )[j].name != name@ by {
        assert(attrs_view(attrs@)[j] == attr_view(attrs@[j]));
    }
    false
}

/// Whether `needle` occurs in `hay`.
pub fn contains_str(hay: &str, needle: &str) -> (r: bool)
    ensures
        r == contains(hay@, needle@),
{
    let n = hay.unicode_len();
    let m = needle.unicode_len();
    if m > n {
        return false;
    }
    let mut i: usize = 0;
    while i <= n - m
        invariant
            n == hay@.len(),
            m == needle@.len(),
            m <= n,
            i <= n - m + 1,
            forall|k: int| 0 <= k < i ==> #[trigger] hay@.subrange(k, k + m) != needle@,
        decreases n - m + 1 - i,
    {
        let mut j: usize = 0;
        let mut same = true;
        while j < m && same
            invariant
                n == hay@.len(),
                m == needle@.len(),
                i + m <= n,
                j <= m,
                same ==> forall|k: int| 0 <= k < j ==> hay@[i + k] == needle@[k],
                !same ==> hay@[i + j - 1] != needle@[j - 1] && j >= 1,
            decreases m - j,
        {
            if hay.get_char(i + j) != needle.get_char(j) {
                same = false;
            }
            j = j + 1;
        }
        if same {
            assert(hay@.subrange(i as int, i + m) =~= needle@);
            return true;
        }
        assert(hay@.subrange(i as int, i + m)[j - 1] != needle@[j - 1]);
        i = i + 1;
    }
    proof {
        assert forall|k: int| 0 <= k && k + needle@.len() <= hay@.len() implies #[trigger] hay@.subrange(
            k,
            k + needle@.len(),
        ) != needle@ by {
            assert(k < i);
        }
    }
    false
}

/// The injection step at one element: unless gated, composes the identifier
/// of the element on top of `stack` and, when it satisfies the pattern,
/// appends it under the configured attribute name.
pub fn maybe_inject(e: &mut Element, stack: &Vec<Frame>, ctx: &PathContext, cfg: &PluginOptions)
    requires
        stack.len() > 0,
    ensures
        element_view(*final(e)) == inject_one(element_view(*old(e)), frames_view(stack@), ctx@, cfg@),
        gated(element_view(*old(e)), frames_view(stack@), cfg@) ==> element_view(*final(e))
            == element_view(*old(e)),
{
    let ghost old_view = element_view(*e);
    let ghost st = frames_view(stack@);
    if has_attribute(&e.attrs, &cfg.custom_property) {
        return ;
    }
    let top = stack.len() - 1;
    if cfg.first_child_only && stack[top].ordinal != 0 {
        return ;
    }
    let id = compose_identifier(stack, ctx, cfg);
    let ok = match &cfg.match_pattern {
        Some(p) => contains_str(id.as_str(), p.as_str()),
        None => true,
    };
    if ok {
        let ghost old_attrs = e.attrs@;
        e.attrs.push(Attribute { name: cfg.custom_property.clone(), value: id });
        assert(attrs_view(e.attrs@) =~= attrs_view(old_attrs).push(
            AttrView { name: cfg@.custom_property, value: identifier(st, ctx@, cfg@) },
        ));
        assert(element_view(*e).children =~= old_view.children);
        assert(element_view(*e) == inject_one(old_view, st, ctx@, cfg@));
    }
}

/// Visits `e` and then, in order, every element below it, injecting at each
/// one. On entry the top of `stack` is the frame of `e`; on exit `stack` is
/// as it was.
pub fn walk_element(e: &mut Element, stack: &mut Vec<Frame>, ctx: &PathContext, cfg: &PluginOptions)
    requires
        old(stack).len() > 0,
    ensures
        element_view(*final(e)) == injected_element(
            element_view(*old(e)),
            frames_view(old(stack)@),
            ctx@,
            cfg@,
        ),
        final(stack)@ == old(stack)@,
    decreases element_view(*old(e)),
{
    let ghost e0 = element_view(*e);
    let ghost st = frames_view(stack@);
    let ghost stack0 = stack@;
    maybe_inject(e, stack, ctx, cfg);
    let ghost e1 = element_view(*e);
    assert(e1.children == e0.children);
    let ghost c0 = e.children@;
    let n = e.children.len();
    let mut i: usize = 0;
    while i < n
        invariant
            n == e.children.len(),
            c0.len() == n,
            i <= n,
            stack@ == stack0,
            st == frames_view(stack0),
            stack0.len() > 0,
            e0 == element_view(*old(e)),
            e0.children.len() == n,
            forall|j: int| 0 <= j < n ==> #[trigger] e0.children[j] == node_view(c0[j]),
            e.name@ == e1.name,
            attrs_view(e.attrs@) == e1.attrs,
            forall|j: int| i <= j < n ==> #[trigger] e.children@[j] == c0[j],
            forall|j: int|
                0 <= j < i ==> #[trigger] node_view(e.children@[j]) == injected_node(
                    e0.children[j],
                    child_stack(st, e0.children[j], j),
                    ctx@,
                    cfg@,
                ),
        decreases n - i,
    {
        let ghost before = e.children@;
        match &mut e.children[i] {
            Node::Element(child) => {
                assert(e0.children[i as int] == node_view(c0[i as int]));
                assert(decreases_to!(e0 => e0.children));
                stack.push(Frame { name: child.name.clone(), ordinal: i });
                assert(frames_view(stack@) =~= child_stack(st, e0.children[i as int], i as int));
                walk_element(child, stack, ctx, cfg);
                stack.pop();
                assert(stack@ =~= stack0);
            },
            Node::Other => {},
        }
        assert(forall|j: int| 0 <= j < n && j != i ==> e.children@[j] == before[j]);
        i = i + 1;
    }
    let ghost target = injected_element(e0, st, ctx@, cfg@);
    assert(element_view(*e).children =~= target.children) by {
        assert forall|j: int| 0 <= j < n implies #[trigger] element_view(*e).children[j]
            == target.children[j] by {
            assert(element_view(*e).children[j] == node_view(e.children@[j]));
        }
    }
    assert(element_view(*e).attrs =~= target.attrs);
    assert(element_view(*e) == target);
}

} // verus!
