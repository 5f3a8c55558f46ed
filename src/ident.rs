use vstd::prelude::*;

use crate::options::{OptionsView, PluginOptions};
use crate::path::{PathContext, PathView, strings_view};

verus! {

/// One level of the traversal: an element's name and its position among
/// its siblings.
pub struct Frame {
    pub name: String,
    pub ordinal: usize,
}

/// The mathematical model of [`Frame`].
pub struct FrameView {
    pub name: Seq<char>,
    pub ordinal: nat,
}

impl View for Frame {
    type V = FrameView;

    open spec fn view(&self) -> FrameView {
        FrameView { name: self.name@, ordinal: self.ordinal as nat }
    }
}

pub open spec fn frames_view(v: Seq<Frame>) -> Seq<FrameView> {
    v.map_values(|f: Frame| f@)
}

/// Appends `seg` to `acc` with `sep` between them; an empty segment adds
/// nothing, and nothing stands before the first segment.
pub open spec fn join_step(acc: Seq<char>, seg: Seq<char>, sep: Seq<char>) -> Seq<char> {
    if seg.len() == 0 {
        acc
    } else if acc.len() == 0 {
        seg
    } else {
        acc + sep + seg
    }
}

/// The non-empty segments of `segs`, in order, with `sep` between them.
pub open spec fn join(segs: Seq<Seq<char>>, sep: Seq<char>) -> Seq<char>
    decreases segs.len(),
{
    if segs.len() == 0 {
        Seq::empty()
    } else {
        join_step(join(segs.drop_last(), sep), segs.last(), sep)
    }
}

pub open spec fn digit_char(d: nat) -> char {
    if d == 0 { '0' }
    else if d == 1 { '1' }
    else if d == 2 { '2' }
    else if d == 3 { '3' }
    else if d == 4 { '4' }
    else if d == 5 { '5' }
    else if d == 6 { '6' }
    else if d == 7 { '7' }
    else if d == 8 { '8' }
    else { '9' }
}

/// The decimal digits of `n`, most significant first, without leading zeros.
pub open spec fn decimal(n: nat) -> Seq<char>
    decreases n,
{
    if n < 10 {
        seq![digit_char(n)]
    } else {
        decimal(n / 10).push(digit_char(n % 10))
    }
}

/// The last `n` entries of `s`, or all of them when there are fewer.
pub open spec fn last_n(s: Seq<Seq<char>>, n: nat) -> Seq<Seq<char>> {
    if n >= s.len() {
        s
    } else {
        s.subrange(s.len() - n, s.len() as int)
    }
}

pub open spec fn prefix_part(cfg: OptionsView) -> Seq<Seq<char>> {
    seq![cfg.prefix]
}

pub open spec fn dir_part(ctx: PathView, cfg: OptionsView) -> Seq<Seq<char>> {
    let dirs = last_n(ctx.segments, cfg.dir_level);
    if cfg.slash_char.len() > 0 {
        seq![join(dirs, cfg.slash_char)]
    } else {
        dirs
    }
}

pub open spec fn file_part(ctx: PathView, cfg: OptionsView) -> Seq<Seq<char>> {
    if cfg.omit_file_name {
        Seq::empty()
    } else {
        seq![ctx.stem]
    }
}

pub open spec fn class_part(stack: Seq<FrameView>, cfg: OptionsView) -> Seq<Seq<char>> {
    if cfg.add_module_class_names {
        stack.drop_last().map_values(|f: FrameView| f.name)
    } else {
        Seq::empty()
    }
}

pub open spec fn name_part(stack: Seq<FrameView>, cfg: OptionsView) -> Seq<Seq<char>> {
    if cfg.ignore_node_names {
        Seq::empty()
    } else {
        seq![stack.last().name]
    }
}

pub open spec fn ordinal_part(stack: Seq<FrameView>, cfg: OptionsView) -> Seq<Seq<char>> {
    if cfg.ignore_tree_depth {
        Seq::empty()
    } else {
        seq![decimal(stack.last().ordinal)]
    }
}

/// Every segment of the identifier of the element on top of `stack`, in
/// order; empty ones are dropped when they are joined.
pub open spec fn segments(stack: Seq<FrameView>, ctx: PathView, cfg: OptionsView) -> Seq<
    Seq<char>,
> {
    prefix_part(cfg) + dir_part(ctx, cfg) + file_part(ctx, cfg) + class_part(stack, cfg)
        + name_part(stack, cfg) + ordinal_part(stack, cfg)
}

/// The identifier of the element on top of `stack`.
pub open spec fn identifier(stack: Seq<FrameView>, ctx: PathView, cfg: OptionsView) -> Seq<char> {
    join(segments(stack, ctx, cfg), cfg.custom_separator)
}

fn digit_str(d: usize) -> (r: &'static str)
    requires
        d < 10,
    ensures
        r@ == seq![digit_char(d as nat)],
{
    proof {
        reveal_strlit("0");
        reveal_strlit("1");
        reveal_strlit("2");
        reveal_strlit("3");
        reveal_strlit("4");
        reveal_strlit("5");
        reveal_strlit("6");
        reveal_strlit("7");
        reveal_strlit("8");
        reveal_strlit("9");
    }
    if d == 0 { "0" }
    else if d == 1 { "1" }
    else if d == 2 { "2" }
    else if d == 3 { "3" }
    else if d == 4 { "4" }
    else if d == 5 { "5" }
    else if d == 6 { "6" }
    else if d == 7 { "7" }
    else if d == 8 { "8" }
    else { "9" }
}

/// `n` written in decimal.
pub fn decimal_string(n: usize) -> (r: String)
    ensures
        r@ == decimal(n as nat),
    decreases n,
{
    if n < 10 {
        String::from_str(digit_str(n))
    } else {
        let mut s = decimal_string(n / 10);
        s.append(digit_str(n % 10));
        s
    }
}

/// Appends one segment to a partly joined identifier.
pub fn push_segment(acc: &mut String, seg: &str, sep: &str)
    ensures
        final(acc)@ == join_step(old(acc)@, seg@, sep@),
{
    if seg.unicode_len() == 0 {
    } else if acc.as_str().unicode_len() == 0 {
        *acc = String::from_str(seg);
    } else {
        acc.append(sep);
        acc.append(seg);
    }
}

/// Joins the non-empty segments of `segs` with `sep`.
pub fn join_segments(segs: &Vec<String>, sep: &str) -> (r: String)
    ensures
        r@ == join(strings_view(segs@), sep@),
{
    let mut acc = String::new();
    let mut i: usize = 0;
    while i < segs.len()
        invariant
            i <= segs.len(),
            acc@ == join(strings_view(segs@).take(i as int), sep@),
        decreases segs.len() - i,
    {
        assert(strings_view(segs@).take(i + 1).drop_last() =~= strings_view(segs@).take(i as int));
        push_segment(&mut acc, segs[i].as_str(), sep);
        i = i + 1;
    }
    assert(strings_view(segs@).take(i as int) =~= strings_view(segs@));
    acc
}

/// The segments of the identifier of the element on top of `stack`.
pub fn build_segments(stack: &Vec<Frame>, ctx: &PathContext, cfg: &PluginOptions) -> (r: Vec<String>)
    requires
        stack.len() > 0,
    ensures
        strings_view(r@) == segments(frames_view(stack@), ctx@, cfg@),
{
    let ghost st = frames_view(stack@);
    let mut segs: Vec<String> = Vec::new();
    segs.push(cfg.prefix.clone());
    assert(strings_view(segs@) =~= prefix_part(cfg@));

    let ndirs = ctx.relative_segments.len();
    let first: usize = if cfg.dir_level >= ndirs { 0 } else { ndirs - cfg.dir_level };
    let ghost before = strings_view(segs@);
    let ghost dirs = last_n(ctx@.segments, cfg@.dir_level);
    assert(dirs =~= strings_view(ctx.relative_segments@).subrange(first as int, ndirs as int));
    if cfg.slash_char.as_str().unicode_len() > 0 {
        let mut dirs_vec: Vec<String> = Vec::new();
        let mut j: usize = first;
        while j < ndirs
            invariant
                first <= j <= ndirs,
                ndirs == ctx.relative_segments.len(),
                strings_view(dirs_vec@) =~= strings_view(ctx.relative_segments@).subrange(first as int, j as int),
            decreases ndirs - j,
        {
            let ghost prev = dirs_vec@;
            dirs_vec.push(ctx.relative_segments[j].clone());
            assert(strings_view(dirs_vec@) =~= strings_view(prev).push(ctx.relative_segments@[j as int]@));
            j = j + 1;
        }
        let joined = join_segments(&dirs_vec, cfg.slash_char.as_str());
        segs.push(joined);
    } else {
        let mut j: usize = first;
        while j < ndirs
            invariant
                first <= j <= ndirs,
                ndirs == ctx.relative_segments.len(),
                strings_view(segs@) =~= before + strings_view(ctx.relative_segments@).subrange(first as int, j as int),
            decreases ndirs - j,
        {
            let ghost prev = segs@;
            segs.push(ctx.relative_segments[j].clone());
            assert(strings_view(segs@) =~= strings_view(prev).push(ctx.relative_segments@[j as int]@));
            j = j + 1;
        }
    }
    assert(strings_view(segs@) =~= prefix_part(cfg@) + dir_part(ctx@, cfg@));

    if !cfg.omit_file_name {
        segs.push(ctx.file_stem.clone());
    }
    let ghost upto_file = prefix_part(cfg@) + dir_part(ctx@, cfg@) + file_part(ctx@, cfg@);
    assert(strings_view(segs@) =~= upto_file);

    let top = stack.len() - 1;
    if cfg.add_module_class_names {
        let mut k: usize = 0;
        while k < top
            invariant
                k <= top,
                top == stack.len() - 1,
                st == frames_view(stack@),
                strings_view(segs@) =~= upto_file + st.take(k as int).map_values(|f: FrameView| f.name),
            decreases top - k,
        {
            let ghost prev = segs@;
            segs.push(stack[k].name.clone());
            assert(strings_view(segs@) =~= strings_view(prev).push(stack@[k as int].name@));
            assert(st.take(k + 1).map_values(|f: FrameView| f.name) =~= st.take(k as int).map_values(
                |f: FrameView| f.name,
            ).push(stack@[k as int].name@));
            k = k + 1;
        }
    }
    assert(st.drop_last() =~= st.take(top as int));
    assert(strings_view(segs@) =~= upto_file + class_part(st, cfg@));

    if !cfg.ignore_node_names {
        segs.push(stack[top].name.clone());
    }
    assert(strings_view(segs@) =~= upto_file + class_part(st, cfg@) + name_part(st, cfg@));

    if !cfg.ignore_tree_depth {
        segs.push(decimal_string(stack[top].ordinal));
    }
    assert(strings_view(segs@) =~= segments(st, ctx@, cfg@));
    segs
}

/// Composes the identifier of the element on top of `stack`.
pub fn compose_identifier(stack: &Vec<Frame>, ctx: &PathContext, cfg: &PluginOptions) -> (r: String)
    requires
        stack.len() > 0,
    ensures
        r@ == identifier(frames_view(stack@), ctx@, cfg@),
{
    let segs = build_segments(stack, ctx, cfg);
    join_segments(&segs, cfg.custom_separator.as_str())
}

} // verus!
