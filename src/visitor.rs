use vstd::prelude::*;

use crate::ident::{frames_view, Frame, FrameView};
use crate::options::{opt_str_view, resolve_options, resolved, undecodable, PluginOptions};
use crate::path::{normalize, normalized, PathContext};
use crate::tree::{element_view, injected_element, walk_element, Element, ElementView};

verus! {

/// The path stack of a tree's root element.
pub open spec fn root_stack(e: ElementView) -> Seq<FrameView> {
    seq![FrameView { name: e.name, ordinal: 0 }]
}

/// Injects identifiers throughout the trees of one file.
pub struct JSXVisitor {
    pub context: PathContext,
    pub options: PluginOptions,
}

impl JSXVisitor {
    /// Walks the tree rooted at `root`, a root having ordinal zero, and
    /// injects at every element that the options let through.
    pub fn visit_mut_jsx_element(&self, root: &mut Element)
        ensures
            element_view(*final(root)) == injected_element(
                element_view(*old(root)),
                root_stack(element_view(*old(root))),
                self.context@,
                self.options@,
            ),
    {
        let mut stack: Vec<Frame> = Vec::new();
        stack.push(Frame { name: root.name.clone(), ordinal: 0 });
        assert(frames_view(stack@) =~= root_stack(element_view(*root)));
        walk_element(root, &mut stack, &self.context, &self.options);
    }
}

pub open spec fn sentinel_filename() -> Seq<char> {
    "/unknown.js"@
}

pub open spec fn sentinel_root() -> Seq<char> {
    "/"@
}

/// The transform of one source file: its location and its options.
pub struct TransformVisitor {
    pub filename: String,
    pub root_dir: String,
    pub options: PluginOptions,
    pub options_raw: Option<String>,
}

pub open spec fn opt_string_or(o: Option<&str>, d: Seq<char>) -> Seq<char> {
    match o {
        Some(s) => s@,
        None => d,
    }
}

impl TransformVisitor {
    /// Sets up the transform of one file. A missing file name or root
    /// directory falls back to `/unknown.js` and `/`; the options are
    /// resolved from the raw payload, and the flag says whether it could not
    /// be decoded.
    pub fn new(filename: Option<&str>, root_dir: Option<&str>, options_raw: Option<&str>) -> (r: (
        TransformVisitor,
        bool,
    ))
        ensures
            r.0.filename@ == opt_string_or(filename, sentinel_filename()),
            r.0.root_dir@ == opt_string_or(root_dir, sentinel_root()),
            r.0.options@ == resolved(opt_str_view(options_raw)),
            r.1 == (options_raw is Some && undecodable(options_raw.unwrap()@)),
    {
        let filename = match filename {
            Some(f) => String::from_str(f),
            None => String::from_str("/unknown.js"),
        };
        let root_dir = match root_dir {
            Some(d) => String::from_str(d),
            None => String::from_str("/"),
        };
        let (options, failed) = resolve_options(options_raw);
        let options_raw = match options_raw {
            Some(t) => Some(String::from_str(t)),
            None => None,
        };
        (TransformVisitor { filename, root_dir, options, options_raw }, failed)
    }

    /// The location of the file below the project root.
    pub fn context(&self) -> (r: PathContext)
        ensures
            r@ == normalized(self.root_dir@, self.filename@),
    {
        normalize(self.root_dir.as_str(), self.filename.as_str())
    }

    /// Injects identifiers into every tree of the file, each root having
    /// ordinal zero.
    pub fn visit_mut_program(&self, program: &mut Vec<Element>)
        ensures
            final(program).len() == old(program).len(),
            forall|i: int|
                0 <= i < old(program).len() ==> element_view(#[trigger] final(program)@[i])
                    == injected_element(
                    element_view(old(program)@[i]),
                    root_stack(element_view(old(program)@[i])),
                    normalized(self.root_dir@, self.filename@),
                    self.options@,
                ),
    {
        let visitor = JSXVisitor { context: self.context(), options: self.options.clone() };
        let n = program.len();
        let mut i: usize = 0;
        while i < n
            invariant
                n == program.len() == old(program).len(),
                i <= n,
                visitor.context@ == normalized(self.root_dir@, self.filename@),
                visitor.options@ == self.options@,
                forall|j: int| i <= j < n ==> #[trigger] program@[j] == old(program)@[j],
                forall|j: int|
                    0 <= j < i ==> element_view(#[trigger] program@[j]) == injected_element(
                        element_view(old(program)@[j]),
                        root_stack(element_view(old(program)@[j])),
                        normalized(self.root_dir@, self.filename@),
                        self.options@,
                    ),
            decreases n - i,
        {
            visitor.visit_mut_jsx_element(&mut program[i]);
            i = i + 1;
        }
    }
}

} // verus!
