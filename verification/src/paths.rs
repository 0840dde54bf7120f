//! File-system paths as text: joining, the file name, and its extension, following what
//! `std::path::Path` does with `/`-separated paths.

use crate::text::{
    ascii_lowercase, ascii_lowercase_chars, chars_equal, split_on, str_chars, string_from_chars, push_str_chars,
};
use vstd::prelude::*;

verus! {

broadcast use vstd::string::group_string_axioms;

// ---------------------------------------------------------------------------
// Specifications
// ---------------------------------------------------------------------------

/// The path separator.
pub open spec fn is_slash(c: char) -> bool {
    c == '/'
}

/// `base` with `part` pushed onto it, as `PathBuf::push` does: an absolute `part`
/// replaces the path; otherwise a separator goes between them unless `base` is empty or
/// already ends in one.
pub open spec fn joined(base: Seq<char>, part: Seq<char>) -> Seq<char> {
    if part.len() > 0 && part[0] == '/' {
        part
    } else if base.len() == 0 || base.last() == '/' {
        base + part
    } else {
        base + seq!['/'] + part
    }
}

/// A piece between separators that names something: not empty and not `.`.
pub open spec fn is_named_segment(seg: Seq<char>) -> bool {
    seg.len() > 0 && seg != seq!['.']
}

/// The last piece that names something.
pub open spec fn last_named_segment(pieces: Seq<Seq<char>>) -> Option<Seq<char>>
    decreases pieces.len(),
{
    if pieces.len() == 0 {
        None
    } else if is_named_segment(pieces.last()) {
        Some(pieces.last())
    } else {
        last_named_segment(pieces.drop_last())
    }
}

/// The final component of the path when it is a normal name, as `Path::file_name` gives
/// it: `None` for a path that ends in `..` or has no named component.
pub open spec fn file_name(p: Seq<char>) -> Option<Seq<char>> {
    match last_named_segment(split_on(p, |c: char| is_slash(c))) {
        Some(seg) => if seg == seq!['.', '.'] {
            None
        } else {
            Some(seg)
        },
        None => None,
    }
}

/// The index of the last `.` in `f`.
pub open spec fn last_dot(f: Seq<char>) -> Option<int>
    decreases f.len(),
{
    if f.len() == 0 {
        None
    } else if f.last() == '.' {
        Some(f.len() - 1)
    } else {
        last_dot(f.drop_last())
    }
}

/// The extension of the path, as `Path::extension` gives it: what follows the last `.` of
/// the file name, unless that `.` is the name's first character.
pub open spec fn extension(p: Seq<char>) -> Option<Seq<char>> {
    match file_name(p) {
        None => None,
        Some(f) => match last_dot(f) {
            Some(k) => if k > 0 {
                Some(f.skip(k + 1))
            } else {
                None
            },
            None => None,
        },
    }
}

/// The path's extension is `ext` when compared case-insensitively in ASCII
/// (`ext` given in lower case).
pub open spec fn has_extension_ignoring_case(p: Seq<char>, ext: Seq<char>) -> bool {
    extension(p) matches Some(e) && ascii_lowercase(e) == ext
}

/// A label for a path: its file name, or the whole path when it has none.
pub open spec fn file_label_of(p: Seq<char>) -> Seq<char> {
    match file_name(p) {
        Some(f) => f,
        None => p,
    }
}

/// `p` without trailing separators and trailing `.` components.
pub open spec fn without_trailing_current_dirs(p: Seq<char>) -> Seq<char>
    decreases p.len(),
{
    if p.len() > 0 && p.last() == '/' {
        without_trailing_current_dirs(p.drop_last())
    } else if p.len() >= 2 && p.last() == '.' && p[p.len() - 2] == '/' {
        without_trailing_current_dirs(p.drop_last())
    } else {
        p
    }
}

/// The path given an `svg` extension when it has a file name and no extension, as
/// `PathBuf::set_extension("svg")` does it then; otherwise unchanged.
pub open spec fn with_svg_extension_if_missing(p: Seq<char>) -> Seq<char> {
    if extension(p) is None && file_name(p) is Some {
        without_trailing_current_dirs(p) + ".svg"@
    } else {
        p
    }
}

// ---------------------------------------------------------------------------
// Executable functions
// ---------------------------------------------------------------------------

/// `base` with the relative or absolute `part` pushed onto it.
pub fn join_path(base: &str, part: &str) -> (p: String)
    ensures
        p@ == joined(base@, part@),
{
    let base_chars = str_chars(base);
    let part_chars = str_chars(part);
    if part_chars.len() > 0 && part_chars[0] == '/' {
        return string_from_chars(&part_chars);
    }
    let mut out = str_chars(base);
    if !(base_chars.len() == 0 || base_chars[base_chars.len() - 1] == '/') {
        out.push('/');
    }
    push_str_chars(&mut out, part);
    assert(out@ =~= joined(base@, part@));
    string_from_chars(&out)
}

/// Whether the segment is exactly `.`.
fn is_dot(seg: &Vec<char>) -> (b: bool)
    ensures
        b == (seg@ == seq!['.']),
{
    if seg.len() == 1 && seg[0] == '.' {
        assert(seg@ =~= seq!['.']);
        true
    } else {
        false
    }
}

/// Whether the segment is exactly `..`.
fn is_dot_dot(seg: &Vec<char>) -> (b: bool)
    ensures
        b == (seg@ == seq!['.', '.']),
{
    if seg.len() == 2 && seg[0] == '.' && seg[1] == '.' {
        assert(seg@ =~= seq!['.', '.']);
        true
    } else {
        false
    }
}

/// The file name of a path.
pub fn file_name_chars(p: &Vec<char>) -> (f: Option<Vec<char>>)
    ensures
        match f {
            Some(v) => file_name(p@) == Some(v@),
            None => file_name(p@) is None,
        },
{
    let ghost sep = |c: char| is_slash(c);
    let mut last: Option<Vec<char>> = None;
    let mut cur: Vec<char> = Vec::new();
    let mut i: usize = 0;
    proof {
        crate::text::lemma_split_on_nonempty(p@.take(0), sep);
        assert(p@.take(0) =~= Seq::<char>::empty());
    }
    while i < p.len()
        invariant
            i <= p.len(),
            sep == (|c: char| is_slash(c)),
            split_on(p@.take(i as int), sep).len() > 0,
            cur@ == split_on(p@.take(i as int), sep).last(),
            match last {
                Some(v) => last_named_segment(split_on(p@.take(i as int), sep).drop_last()) == Some(
                    v@,
                ),
                None => last_named_segment(split_on(p@.take(i as int), sep).drop_last()) is None,
            },
        decreases p.len() - i,
    {
        let c = p[i];
        let ghost prev = split_on(p@.take(i as int), sep);
        assert(p@.take(i + 1).drop_last() == p@.take(i as int));
        assert(p@.take(i + 1).last() == c);
        if c == '/' {
            assert(prev.push(seq![]).drop_last() == prev);
            assert(prev.drop_last().push(prev.last()) == prev);
            if cur.len() > 0 && !is_dot(&cur) {
                last = Some(cur);
            }
            cur = Vec::new();
        } else {
            cur.push(c);
            assert(prev.update(prev.len() - 1, prev.last().push(c)).drop_last() == prev.drop_last());
        }
        i = i + 1;
    }
    assert(p@.take(p.len() as int) == p@);
    let ghost pieces = split_on(p@, sep);
    assert(pieces.drop_last().push(pieces.last()) == pieces);
    let seg = if cur.len() > 0 && !is_dot(&cur) {
        Some(cur)
    } else {
        last
    };
    match seg {
        Some(v) => {
            if is_dot_dot(&v) {
                None
            } else {
                Some(v)
            }
        },
        None => None,
    }
}

/// The index of the last `.` in `f`.
fn last_dot_index(f: &Vec<char>) -> (k: Option<usize>)
    ensures
        match k {
            Some(i) => last_dot(f@) == Some(i as int) && i < f@.len(),
            None => last_dot(f@) is None,
        },
{
    let mut j: usize = f.len();
    assert(f@.take(f.len() as int) == f@);
    while j > 0
        invariant
            j <= f.len(),
            last_dot(f@) == last_dot(f@.take(j as int)),
        decreases j,
    {
        assert(f@.take(j as int).last() == f@[j - 1]);
        if f[j - 1] == '.' {
            return Some(j - 1);
        }
        assert(f@.take(j as int).drop_last() == f@.take(j - 1));
        j = j - 1;
    }
    None
}

/// The extension of a path.
pub fn extension_chars(p: &Vec<char>) -> (e: Option<Vec<char>>)
    ensures
        match e {
            Some(v) => extension(p@) == Some(v@),
            None => extension(p@) is None,
        },
{
    let f = match file_name_chars(p) {
        None => return None,
        Some(f) => f,
    };
    match last_dot_index(&f) {
        Some(k) => {
            if k > 0 {
                let mut ext: Vec<char> = Vec::new();
                let mut i: usize = k + 1;
                while i < f.len()
                    invariant
                        k + 1 <= i <= f.len(),
                        ext@ == f@.subrange(k + 1, i as int),
                    decreases f.len() - i,
                {
                    ext.push(f[i]);
                    i = i + 1;
                    assert(ext@ == f@.subrange(k + 1, i as int));
                }
                Some(ext)
            } else {
                None
            }
        },
        None => None,
    }
}

/// Whether the path's extension equals `lower_ext` ignoring ASCII case.
pub fn has_extension_ignoring_ascii_case(path: &str, lower_ext: &str) -> (b: bool)
    ensures
        b == has_extension_ignoring_case(path@, lower_ext@),
{
    let chars = str_chars(path);
    match extension_chars(&chars) {
        None => false,
        Some(e) => {
            let lowered = ascii_lowercase_chars(&e);
            let want = str_chars(lower_ext);
            if lowered.len() != want.len() {
                assert(lowered@ != want@);
                return false;
            }
            let mut i: usize = 0;
            while i < want.len()
                invariant
                    i <= want.len() == lowered.len(),
                    want@ == lower_ext@,
                    lowered@ == ascii_lowercase(e@),
                    extension(path@) == Some(e@),
                    forall|j: int| 0 <= j < i ==> lowered@[j] == want@[j],
                decreases want.len() - i,
            {
                if lowered[i] != want[i] {
                    assert(lowered@[i as int] != want@[i as int]);
                    assert(lowered@ != want@);
                    return false;
                }
                i = i + 1;
            }
            assert(lowered@ =~= want@);
            true
        },
    }
}

/// Whether the extension of `path` is exactly `ext`.
pub fn has_extension(path: &str, ext: &str) -> (b: bool)
    ensures
        b == (extension(path@) == Some(ext@)),
{
    match extension_chars(&str_chars(path)) {
        None => false,
        Some(e) => chars_equal(&e, &str_chars(ext)),
    }
}

/// A label for a path: its file name, or the whole path.
pub fn file_label(path: &str) -> (label: String)
    ensures
        label@ == file_label_of(path@),
{
    match file_name_chars(&str_chars(path)) {
        Some(f) => string_from_chars(&f),
        None => string_from_chars(&str_chars(path)),
    }
}

/// The path with an `svg` extension added when it has a file name but no extension.
pub fn with_svg_extension(path: &str) -> (out: String)
    ensures
        out@ == with_svg_extension_if_missing(path@),
{
    let chars = str_chars(path);
    let has_ext = match extension_chars(&chars) {
        Some(_) => true,
        None => false,
    };
    let has_name = match file_name_chars(&chars) {
        Some(_) => true,
        None => false,
    };
    if has_ext || !has_name {
        return string_from_chars(&chars);
    }
    let mut end: usize = chars.len();
    assert(chars@.take(end as int) == chars@);
    while end > 0 && (chars[end - 1] == '/' || (end >= 2 && chars[end - 1] == '.' && chars[end
        - 2] == '/'))
        invariant
            end <= chars.len(),
            without_trailing_current_dirs(chars@) == without_trailing_current_dirs(
                chars@.take(end as int),
            ),
        decreases end,
    {
        let ghost cur = chars@.take(end as int);
        assert(cur.last() == chars@[end - 1]);
        if end >= 2 {
            assert(cur[end - 2] == chars@[end - 2]);
        }
        assert(cur.drop_last() == chars@.take(end - 1));
        end = end - 1;
    }
    let ghost kept = chars@.take(end as int);
    if end > 0 {
        assert(kept.last() == chars@[end - 1]);
        if end >= 2 {
            assert(kept[end - 2] == chars@[end - 2]);
        }
    }
    let mut out: Vec<char> = Vec::new();
    let mut i: usize = 0;
    while i < end
        invariant
            i <= end <= chars.len(),
            out@ == chars@.take(i as int),
        decreases end - i,
    {
        out.push(chars[i]);
        i = i + 1;
        assert(out@ == chars@.take(i as int));
    }
    assert(without_trailing_current_dirs(chars@.take(end as int)) == chars@.take(end as int));
    push_str_chars(&mut out, ".svg");
    string_from_chars(&out)
}

} // verus!
