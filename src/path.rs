use vstd::prelude::*;

verus! {

/// What the identifier needs to know of the file being transformed.
pub struct PathContext {
    /// Directories between the project root and the file, root-most first.
    pub relative_segments: Vec<String>,
    /// The file's name without its final extension.
    pub file_stem: String,
}

/// The mathematical model of [`PathContext`].
pub struct PathView {
    pub segments: Seq<Seq<char>>,
    pub stem: Seq<char>,
}

pub open spec fn strings_view(v: Seq<String>) -> Seq<Seq<char>> {
    v.map_values(|s: String| s@)
}

impl View for PathContext {
    type V = PathView;

    open spec fn view(&self) -> PathView {
        PathView { segments: strings_view(self.relative_segments@), stem: self.file_stem@ }
    }
}

pub open spec fn is_sep(c: char) -> bool {
    c == '/' || c == '\\'
}

/// The pieces of `s` between separators, empty ones included; there is
/// always at least one.
pub open spec fn raw_parts(s: Seq<char>) -> Seq<Seq<char>>
    decreases s.len(),
{
    if s.len() == 0 {
        seq![Seq::empty()]
    } else {
        let p = raw_parts(s.drop_last());
        if is_sep(s.last()) {
            p.push(Seq::empty())
        } else {
            p.update(p.len() - 1, p.last().push(s.last()))
        }
    }
}

/// A piece that names a real directory or file: not empty, not `.`, not `..`.
pub open spec fn is_normal(p: Seq<char>) -> bool {
    p.len() > 0 && p != seq!['.'] && p != seq!['.', '.']
}

/// The normal pieces of `ps`, in order.
pub open spec fn normals(ps: Seq<Seq<char>>) -> Seq<Seq<char>>
    decreases ps.len(),
{
    if ps.len() == 0 {
        Seq::empty()
    } else {
        let r = normals(ps.drop_last());
        if is_normal(ps.last()) {
            r.push(ps.last())
        } else {
            r
        }
    }
}

/// The normal components of the path `s`.
pub open spec fn components(s: Seq<char>) -> Seq<Seq<char>> {
    normals(raw_parts(s))
}

/// Whether the path `s` starts at a root.
pub open spec fn rooted(s: Seq<char>) -> bool {
    s.len() > 0 && is_sep(s[0])
}

/// The index of the last `.` in `s`, or -1.
pub open spec fn last_dot(s: Seq<char>) -> int
    decreases s.len(),
{
    if s.len() == 0 {
        -1
    } else if s.last() == '.' {
        s.len() - 1
    } else {
        last_dot(s.drop_last())
    }
}

/// A file name without its final extension; a name whose only dot leads it
/// has no extension.
pub open spec fn stem_of(name: Seq<char>) -> Seq<char> {
    if last_dot(name) > 0 {
        name.take(last_dot(name))
    } else {
        name
    }
}

/// Whether `file` lies strictly inside `root`.
pub open spec fn inside(root: Seq<char>, file: Seq<char>) -> bool {
    let rc = components(root);
    let fc = components(file);
    rooted(root) == rooted(file) && rc.len() < fc.len() && fc.take(rc.len() as int) == rc
}

/// The directories between `root` and `file`, and the stem of `file`; when
/// `file` is not inside `root`, no directories.
pub open spec fn normalized(root: Seq<char>, file: Seq<char>) -> PathView {
    let rc = components(root);
    let fc = components(file);
    PathView {
        segments: if inside(root, file) {
            fc.subrange(rc.len() as int, fc.len() - 1)
        } else {
            Seq::empty()
        },
        stem: if fc.len() > 0 {
            stem_of(fc.last())
        } else {
            Seq::empty()
        },
    }
}

fn normal_piece(p: &str) -> (r: bool)
    ensures
        r == is_normal(p@),
{
    let n = p.unicode_len();
    if n == 0 {
        false
    } else if n == 1 {
        let r = p.get_char(0) != '.';
        assert(r ==> p@ != seq!['.']);
        assert(!r ==> p@ =~= seq!['.']);
        r
    } else if n == 2 {
        let r = !(p.get_char(0) == '.' && p.get_char(1) == '.');
        assert(r ==> p@ != seq!['.', '.']);
        assert(!r ==> p@ =~= seq!['.', '.']);
        r
    } else {
        assert(p@.len() != seq!['.'].len());
        assert(p@.len() != seq!['.', '.'].len());
        true
    }
}

/// The normal components of the path `s`.
pub fn split_components(s: &str) -> (r: Vec<String>)
    ensures
        strings_view(r@) == components(s@),
{
    let n = s.unicode_len();
    let mut done: Vec<String> = Vec::new();
    let ghost mut finished: Seq<Seq<char>> = Seq::empty();
    let mut start: usize = 0;
    let mut i: usize = 0;
    assert(s@.take(0) =~= Seq::<char>::empty());
    assert(s@.subrange(0, 0) =~= Seq::<char>::empty());
    assert(raw_parts(s@.take(0)) =~= finished.push(s@.subrange(0, 0)));
    while i < n
        invariant
            n == s@.len(),
            start <= i <= n,
            raw_parts(s@.take(i as int)) == finished.push(s@.subrange(start as int, i as int)),
            strings_view(done@) == normals(finished),
        decreases n - i,
    {
        let c = s.get_char(i);
        assert(s@.take(i + 1).drop_last() =~= s@.take(i as int));
        assert(s@.take(i + 1).last() == c);
        if c == '/' || c == '\\' {
            let piece = String::from_str(s.substring_char(start, i));
            let ghost prev = done@;
            let keep = normal_piece(piece.as_str());
            if keep {
                done.push(piece);
                assert(strings_view(done@) =~= strings_view(prev).push(piece@));
            }
            proof {
                assert(finished.push(piece@).drop_last() =~= finished);
                finished = finished.push(piece@);
                assert(s@.subrange(i + 1, i + 1) =~= Seq::<char>::empty());
            }
            start = i + 1;
        } else {
            assert(s@.subrange(start as int, i + 1) =~= s@.subrange(start as int, i as int).push(c));
        }
        i = i + 1;
        assert(raw_parts(s@.take(i as int)) =~= finished.push(s@.subrange(start as int, i as int)));
    }
    let piece = String::from_str(s.substring_char(start, n));
    let ghost prev = done@;
    if normal_piece(piece.as_str()) {
        done.push(piece);
        assert(strings_view(done@) =~= strings_view(prev).push(piece@));
    }
    assert(s@.take(n as int) =~= s@);
    assert(finished.push(piece@).drop_last() =~= finished);
    done
}

/// The stem of the file name `name`.
pub fn stem_of_name(name: &str) -> (r: String)
    ensures
        r@ == stem_of(name@),
{
    let n = name.unicode_len();
    let mut i: usize = n;
    assert(name@.take(n as int) =~= name@);
    while i > 0
        invariant
            i <= n == name@.len(),
            last_dot(name@) == last_dot(name@.take(i as int)),
        decreases i,
    {
        assert(name@.take(i as int).drop_last() =~= name@.take(i - 1));
        if name.get_char(i - 1) == '.' {
            if i - 1 > 0 {
                return String::from_str(name.substring_char(0, i - 1));
            } else {
                return String::from_str(name);
            }
        }
        i = i - 1;
    }
    String::from_str(name)
}

fn string_seqs_equal_prefix(a: &Vec<String>, b: &Vec<String>) -> (r: bool)
    requires
        a.len() <= b.len(),
    ensures
        r == (strings_view(b@).take(a.len() as int) == strings_view(a@)),
{
    let mut i: usize = 0;
    while i < a.len()
        invariant
            i <= a.len() <= b.len(),
            forall|j: int| 0 <= j < i ==> a@[j]@ == b@[j]@,
        decreases a.len() - i,
    {
        if a[i] != b[i] {
            assert(strings_view(b@).take(a.len() as int)[i as int] != strings_view(a@)[i as int]);
            return false;
        }
        i = i + 1;
    }
    assert(strings_view(b@).take(a.len() as int) =~= strings_view(a@));
    true
}

fn starts_rooted(s: &str) -> (r: bool)
    ensures
        r == rooted(s@),
{
    if s.unicode_len() == 0 {
        false
    } else {
        let c = s.get_char(0);
        c == '/' || c == '\\'
    }
}

/// Splits the file's location below the project root into the directory
/// segments and the file stem.
pub fn normalize(root_dir: &str, filename: &str) -> (r: PathContext)
    ensures
        r@ == normalized(root_dir@, filename@),
{
    let rc = split_components(root_dir);
    let fc = split_components(filename);
    let file_stem = if fc.len() > 0 {
        stem_of_name(fc[fc.len() - 1].as_str())
    } else {
        String::new()
    };
    let is_inside = starts_rooted(root_dir) == starts_rooted(filename) && rc.len() < fc.len()
        && string_seqs_equal_prefix(&rc, &fc);
    let mut relative_segments: Vec<String> = Vec::new();
    if is_inside {
        let mut j: usize = rc.len();
        while j < fc.len() - 1
            invariant
                rc.len() <= j <= fc.len() - 1,
                strings_view(relative_segments@) =~= strings_view(fc@).subrange(
                    rc.len() as int,
                    j as int,
                ),
            decreases fc.len() - 1 - j,
        {
            let ghost prev = relative_segments@;
            relative_segments.push(fc[j].clone());
            assert(strings_view(relative_segments@) =~= strings_view(prev).push(fc@[j as int]@));
            j = j + 1;
        }
    }
    let r = PathContext { relative_segments, file_stem };
    assert(r@.segments =~= normalized(root_dir@, filename@).segments);
    r
}

} // verus!
