use vstd::prelude::*;

use crate::ident::{
    class_part, decimal, digit_char, dir_part, file_part, identifier, join, join_step, name_part,
    ordinal_part, prefix_part, segments, FrameView,
};
use crate::options::{default_options, resolved, undecodable, OptionsView};
use crate::path::PathView;
use crate::tree::{
    child_stack, gated, has_attr, inject_one, injected_element, injected_node, node_name,
    should_inject, ElementView, NodeView,
};

verus! {

proof fn lemma_injected_node_name(n: NodeView, stack: Seq<FrameView>, ctx: PathView, cfg: OptionsView)
    ensures
        node_name(injected_node(n, stack, ctx, cfg)) == node_name(n),
{
}

proof fn lemma_inject_one_twice(e: ElementView, stack: Seq<FrameView>, ctx: PathView, cfg: OptionsView)
    ensures
        inject_one(inject_one(e, stack, ctx, cfg), stack, ctx, cfg) == inject_one(e, stack, ctx, cfg),
{
    let e1 = inject_one(e, stack, ctx, cfg);
    if should_inject(e, stack, ctx, cfg) {
        let last = e1.attrs.len() - 1;
        assert(e1.attrs[last].name == cfg.custom_property);
        assert(has_attr(e1.attrs, cfg.custom_property));
    }
}

/// Injecting a second time changes nothing: every element that received an
/// identifier now carries the attribute, and every other element is gated
/// or filtered out exactly as before.
pub proof fn lemma_idempotent(e: ElementView, stack: Seq<FrameView>, ctx: PathView, cfg: OptionsView)
    ensures
        injected_element(injected_element(e, stack, ctx, cfg), stack, ctx, cfg) == injected_element(
            e,
            stack,
            ctx,
            cfg,
        ),
        injected_element(e, stack, ctx, cfg).name == e.name,
    decreases e,
{
    let e1 = injected_element(e, stack, ctx, cfg);
    let e2 = injected_element(e1, stack, ctx, cfg);
    lemma_inject_one_twice(e, stack, ctx, cfg);
    assert forall|i: int| 0 <= i < e.children.len() implies #[trigger] e2.children[i]
        == e1.children[i] by {
        let c = e.children[i];
        let cs = child_stack(stack, c, i);
        lemma_injected_node_name(c, cs, ctx, cfg);
        assert(child_stack(stack, e1.children[i], i) == cs);
        match c {
            NodeView::Element(ce) => {
                lemma_idempotent(ce, cs, ctx, cfg);
            },
            NodeView::Other => {},
        }
    }
    assert(e2.children =~= e1.children);
}

/// The result is fixed by the tree, the file's location and the options:
/// any two results of injecting on the same inputs are the same.
pub proof fn lemma_deterministic(
    r1: ElementView,
    r2: ElementView,
    e: ElementView,
    stack: Seq<FrameView>,
    ctx: PathView,
    cfg: OptionsView,
)
    requires
        r1 == injected_element(e, stack, ctx, cfg),
        r2 == injected_element(e, stack, ctx, cfg),
    ensures
        r1 == r2,
        r1.children.len() == e.children.len(),
{
}

/// An element that carries the attribute already, or that is not a first
/// child while only first children are wanted, keeps its attributes.
pub proof fn lemma_gated_kept(e: ElementView, stack: Seq<FrameView>, ctx: PathView, cfg: OptionsView)
    requires
        gated(e, stack, cfg),
    ensures
        injected_element(e, stack, ctx, cfg).attrs == e.attrs,
{
}

pub open spec fn is_digit(c: char) -> bool {
    '0' <= c && c <= '9'
}

/// The run of digits that ends `s`.
pub open spec fn trailing_digits(s: Seq<char>) -> Seq<char>
    decreases s.len(),
{
    if s.len() == 0 || !is_digit(s.last()) {
        Seq::empty()
    } else {
        trailing_digits(s.drop_last()).push(s.last())
    }
}

proof fn lemma_decimal_digits(n: nat)
    ensures
        decimal(n).len() >= 1,
        n >= 10 ==> decimal(n).len() >= 2,
        forall|i: int| 0 <= i < decimal(n).len() ==> is_digit(#[trigger] decimal(n)[i]),
    decreases n,
{
    if n >= 10 {
        lemma_decimal_digits(n / 10);
    }
}

proof fn lemma_digit_char_injective(a: nat, b: nat)
    requires
        a < 10,
        b < 10,
        digit_char(a) == digit_char(b),
    ensures
        a == b,
{
}

proof fn lemma_decimal_injective(a: nat, b: nat)
    requires
        decimal(a) == decimal(b),
    ensures
        a == b,
    decreases a,
{
    lemma_decimal_digits(a);
    lemma_decimal_digits(b);
    if a < 10 && b < 10 {
        assert(decimal(a)[0] == digit_char(a));
        assert(decimal(b)[0] == digit_char(b));
        lemma_digit_char_injective(a, b);
    } else if a >= 10 && b >= 10 {
        assert(decimal(a).last() == digit_char(a % 10));
        assert(decimal(b).last() == digit_char(b % 10));
        lemma_digit_char_injective(a % 10, b % 10);
        assert(decimal(a).drop_last() =~= decimal(a / 10));
        assert(decimal(b).drop_last() =~= decimal(b / 10));
        lemma_decimal_injective(a / 10, b / 10);
    }
}

proof fn lemma_trailing_digits(a: Seq<char>, d: Seq<char>)
    requires
        a.len() == 0 || !is_digit(a.last()),
        forall|i: int| 0 <= i < d.len() ==> is_digit(#[trigger] d[i]),
    ensures
        trailing_digits(a + d) == d,
    decreases d.len(),
{
    if d.len() == 0 {
        assert(a + d =~= a);
    } else {
        assert((a + d).drop_last() =~= a + d.drop_last());
        assert((a + d).last() == d.last());
        lemma_trailing_digits(a, d.drop_last());
        assert(d.drop_last().push(d.last()) =~= d);
    }
}

proof fn lemma_identifier_ends_in_ordinal(stack: Seq<FrameView>, ctx: PathView, cfg: OptionsView)
    requires
        stack.len() > 0,
        !cfg.ignore_tree_depth,
        cfg.custom_separator.len() > 0,
        !is_digit(cfg.custom_separator.last()),
    ensures
        trailing_digits(identifier(stack, ctx, cfg)) == decimal(stack.last().ordinal),
{
    let segs = segments(stack, ctx, cfg);
    let d = decimal(stack.last().ordinal);
    let sep = cfg.custom_separator;
    lemma_decimal_digits(stack.last().ordinal);
    assert(segs.last() == d);
    let head = join(segs.drop_last(), sep);
    assert(identifier(stack, ctx, cfg) == join_step(head, d, sep));
    if head.len() == 0 {
        lemma_trailing_digits(Seq::empty(), d);
        assert(Seq::<char>::empty() + d =~= d);
    } else {
        assert((head + sep).last() == sep.last());
        lemma_trailing_digits(head + sep, d);
    }
}

/// With ordinals kept and a separator that does not end in a digit, two
/// elements at different sibling positions get different identifiers: the
/// identifier ends in the ordinal, and the separator before it sets it apart.
pub proof fn lemma_siblings_distinct(
    s1: Seq<FrameView>,
    s2: Seq<FrameView>,
    ctx: PathView,
    cfg: OptionsView,
)
    requires
        s1.len() > 0,
        s2.len() > 0,
        s1.drop_last() == s2.drop_last(),
        s1.last().ordinal != s2.last().ordinal,
        !cfg.ignore_tree_depth,
        cfg.custom_separator.len() > 0,
        !is_digit(cfg.custom_separator.last()),
    ensures
        identifier(s1, ctx, cfg) != identifier(s2, ctx, cfg),
{
    lemma_identifier_ends_in_ordinal(s1, ctx, cfg);
    lemma_identifier_ends_in_ordinal(s2, ctx, cfg);
    if identifier(s1, ctx, cfg) == identifier(s2, ctx, cfg) {
        lemma_decimal_injective(s1.last().ordinal, s2.last().ordinal);
    }
}

/// Each of the four switches removes its own category of segments and
/// leaves every other segment as it was.
pub proof fn lemma_segment_omission(stack: Seq<FrameView>, ctx: PathView, cfg: OptionsView)
    requires
        stack.len() > 0,
    ensures
        segments(stack, ctx, (OptionsView { omit_file_name: false, ..cfg })) == prefix_part(cfg)
            + dir_part(ctx, cfg) + seq![ctx.stem] + class_part(stack, cfg) + name_part(stack, cfg)
            + ordinal_part(stack, cfg),
        segments(stack, ctx, (OptionsView { omit_file_name: true, ..cfg })) == prefix_part(cfg)
            + dir_part(ctx, cfg) + class_part(stack, cfg) + name_part(stack, cfg) + ordinal_part(
            stack,
            cfg,
        ),
        segments(stack, ctx, (OptionsView { ignore_node_names: false, ..cfg })) == prefix_part(cfg)
            + dir_part(ctx, cfg) + file_part(ctx, cfg) + class_part(stack, cfg)
            + seq![stack.last().name] + ordinal_part(stack, cfg),
        segments(stack, ctx, (OptionsView { ignore_node_names: true, ..cfg })) == prefix_part(cfg)
            + dir_part(ctx, cfg) + file_part(ctx, cfg) + class_part(stack, cfg)
            + ordinal_part(stack, cfg),
        segments(stack, ctx, (OptionsView { ignore_tree_depth: false, ..cfg })) == prefix_part(cfg)
            + dir_part(ctx, cfg) + file_part(ctx, cfg) + class_part(stack, cfg)
            + name_part(stack, cfg) + seq![decimal(stack.last().ordinal)],
        segments(stack, ctx, (OptionsView { ignore_tree_depth: true, ..cfg })) == prefix_part(cfg)
            + dir_part(ctx, cfg) + file_part(ctx, cfg) + class_part(stack, cfg)
            + name_part(stack, cfg),
        segments(stack, ctx, (OptionsView { add_module_class_names: true, ..cfg })) == prefix_part(
            cfg,
        ) + dir_part(ctx, cfg) + file_part(ctx, cfg) + stack.drop_last().map_values(
            |f: FrameView| f.name,
        ) + name_part(stack, cfg) + ordinal_part(stack, cfg),
        segments(stack, ctx, (OptionsView { add_module_class_names: false, ..cfg })) == prefix_part(
            cfg,
        ) + dir_part(ctx, cfg) + file_part(ctx, cfg) + name_part(stack, cfg)
            + ordinal_part(stack, cfg),
{
    let p = prefix_part(cfg);
    let d = dir_part(ctx, cfg);
    let f = file_part(ctx, cfg);
    let c = class_part(stack, cfg);
    let n = name_part(stack, cfg);
    let o = ordinal_part(stack, cfg);
    assert(p + d + f + c + n + Seq::<Seq<char>>::empty() =~= p + d + f + c + n);
    assert(p + d + f + c + Seq::<Seq<char>>::empty() + o =~= p + d + f + c + o);
    assert(p + d + f + Seq::<Seq<char>>::empty() + n + o =~= p + d + f + n + o);
    assert(p + d + Seq::<Seq<char>>::empty() + c + n + o =~= p + d + c + n + o);
}

/// An undecodable payload gives the same options as no payload: the
/// defaults.
pub proof fn lemma_fallback(raw: Seq<char>)
    requires
        undecodable(raw),
    ensures
        resolved(Some(raw)) == resolved(None),
        resolved(Some(raw)) == default_options(),
{
}

} // verus!
