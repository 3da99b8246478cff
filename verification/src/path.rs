//! Paths as text, with components between slashes.

use vstd::prelude::*;

use crate::text::ascii_lowercase;
use crate::text::chars_of;
use crate::text::split;
use crate::text::text_eq;
use crate::text::text_of;

verus! {

// ---------------------------------------------------------------------------
// The last component
// ---------------------------------------------------------------------------

/// Where the path that ends at `e` ends when slashes and components `.` are
/// taken off its end. The root and a leading `.` stay.
pub open spec fn path_end(s: Seq<char>, e: int) -> int
    decreases e,
{
    if e <= 0 {
        0
    } else if s[e - 1] == '/' {
        if e == 1 {
            1
        } else {
            path_end(s, e - 1)
        }
    } else if e >= 2 && s[e - 1] == '.' && s[e - 2] == '/' {
        path_end(s, e - 1)
    } else {
        e
    }
}

/// Where the component that ends at `e` starts.
pub open spec fn name_start(s: Seq<char>, e: int) -> int
    decreases e,
{
    if e <= 0 {
        0
    } else if s[e - 1] == '/' {
        e
    } else {
        name_start(s, e - 1)
    }
}

/// The path has a last component: it is neither empty nor the root.
pub open spec fn has_last(s: Seq<char>) -> bool {
    let e = path_end(s, s.len() as int);
    e > 0 && !(e == 1 && s[0] == '/')
}

/// The last component of a path.
pub open spec fn last_component(s: Seq<char>) -> Seq<char> {
    let e = path_end(s, s.len() as int);
    s.subrange(name_start(s, e), e)
}

/// The last component of a path, where it names something.
pub open spec fn file_name_of(s: Seq<char>) -> Option<Seq<char>> {
    if has_last(s) && last_component(s) != "."@ && last_component(s) != ".."@ {
        Some(last_component(s))
    } else {
        None
    }
}

/// The path without its last component.
pub open spec fn parent_of(s: Seq<char>) -> Option<Seq<char>> {
    if has_last(s) {
        let e = path_end(s, s.len() as int);
        Some(s.subrange(0, path_end(s, name_start(s, e))))
    } else {
        None
    }
}

/// The position of the last dot before `n`.
pub open spec fn last_dot(s: Seq<char>, n: int) -> Option<int>
    decreases n,
{
    if n <= 0 {
        None
    } else if s[n - 1] == '.' {
        Some(n - 1)
    } else {
        last_dot(s, n - 1)
    }
}

/// The extension of a name: what stands behind its last dot, unless the name
/// starts with that dot.
pub open spec fn name_extension(name: Seq<char>) -> Option<Seq<char>> {
    match last_dot(name, name.len() as int) {
        Some(i) => if i > 0 {
            Some(name.subrange(i + 1, name.len() as int))
        } else {
            None
        },
        None => None,
    }
}

/// The extension of a path.
pub open spec fn extension_of(s: Seq<char>) -> Option<Seq<char>> {
    match file_name_of(s) {
        Some(name) => name_extension(name),
        None => None,
    }
}

/// Where the path that ends at `e` ends when slashes and components `.` are
/// taken off its end.
fn find_end(s: &Vec<char>, e: usize) -> (r: usize)
    requires
        e <= s@.len(),
    ensures
        r == path_end(s@, e as int),
        r <= e,
{
    let mut n: usize = e;
    while n > 0
        invariant
            n <= e <= s@.len(),
            path_end(s@, n as int) == path_end(s@, e as int),
        decreases n,
    {
        if s[n - 1] == '/' {
            if n == 1 {
                return 1;
            }
            n = n - 1;
        } else if n >= 2 && s[n - 1] == '.' && s[n - 2] == '/' {
            n = n - 1;
        } else {
            return n;
        }
    }
    0
}

/// Where the component that ends at `e` starts.
fn find_start(s: &Vec<char>, e: usize) -> (r: usize)
    requires
        e <= s@.len(),
    ensures
        r == name_start(s@, e as int),
        r <= e,
{
    let mut n: usize = e;
    while n > 0
        invariant
            n <= e <= s@.len(),
            name_start(s@, n as int) == name_start(s@, e as int),
        decreases n,
    {
        if s[n - 1] == '/' {
            return n;
        }
        n = n - 1;
    }
    0
}

/// The last component of a path, where it names something.
pub fn file_name(path: &str) -> (r: Option<String>)
    ensures
        crate::tf::document::opt_view(r) == file_name_of(path@),
{
    let chars = chars_of(path);
    let e: usize = find_end(&chars, chars.len());
    if e == 0 || (e == 1 && chars[0] == '/') {
        return None;
    }
    let start: usize = find_start(&chars, e);
    let name = text_of(&chars, start, e);
    if text_eq(name.as_str(), ".") || text_eq(name.as_str(), "..") {
        None
    } else {
        Some(name)
    }
}

/// The path without its last component.
pub fn parent(path: &str) -> (r: Option<String>)
    ensures
        crate::tf::document::opt_view(r) == parent_of(path@),
{
    let chars = chars_of(path);
    let e: usize = find_end(&chars, chars.len());
    if e == 0 || (e == 1 && chars[0] == '/') {
        return None;
    }
    let start: usize = find_start(&chars, e);
    let end: usize = find_end(&chars, start);
    Some(text_of(&chars, 0, end))
}

/// The extension of a name.
fn extension_of_name(name: &str) -> (r: Option<String>)
    ensures
        crate::tf::document::opt_view(r) == name_extension(name@),
{
    let chars = chars_of(name);
    let mut n: usize = chars.len();
    while n > 0
        invariant
            chars@ == name@,
            n <= chars@.len(),
            last_dot(name@, n as int) == last_dot(name@, name@.len() as int),
        decreases n,
    {
        if chars[n - 1] == '.' {
            if n == 1 {
                return None;
            }
            return Some(text_of(&chars, n, chars.len()));
        }
        n = n - 1;
    }
    None
}

/// The extension of a path.
pub fn extension(path: &str) -> (r: Option<String>)
    ensures
        crate::tf::document::opt_view(r) == extension_of(path@),
{
    match file_name(path) {
        Some(name) => extension_of_name(name.as_str()),
        None => None,
    }
}

/// The path has the given extension, without regard to ASCII case.
pub open spec fn has_extension(s: Seq<char>, lower: Seq<char>) -> bool {
    extension_of(s) matches Some(x) && crate::text::ascii_lowered(x) == lower
}

/// Whether the path has the given extension, without regard to ASCII case. The
/// extension is given in lower case.
pub fn extension_is(path: &str, lower: &str) -> (r: bool)
    ensures
        r == has_extension(path@, lower@),
{
    match extension(path) {
        Some(x) => text_eq(ascii_lowercase(x.as_str()).as_str(), lower),
        None => false,
    }
}

// ---------------------------------------------------------------------------
// Joining and comparing
// ---------------------------------------------------------------------------

/// The path of the entry `name` of a directory.
pub open spec fn joined_path(dir: Seq<char>, name: Seq<char>) -> Seq<char> {
    if dir.len() == 0 {
        name
    } else if dir.last() == '/' {
        dir + name
    } else {
        dir + "/"@ + name
    }
}

/// The path of the entry `name` of a directory.
pub fn join(dir: &str, name: &str) -> (r: String)
    ensures
        r@ == joined_path(dir@, name@),
{
    let chars = chars_of(dir);
    let n: usize = chars.len();
    let mut r = dir.to_owned();
    if n > 0 && chars[n - 1] != '/' {
        r.append("/");
    }
    r.append(name);
    assert(n == 0 ==> r@ =~= name@);
    r
}

/// The components among the pieces of a path. A piece `.` is one only at the
/// start.
pub open spec fn components(pieces: Seq<Seq<char>>) -> Seq<Seq<char>>
    decreases pieces.len(),
{
    if pieces.len() == 0 {
        Seq::empty()
    } else {
        let rest = components(pieces.drop_last());
        let last = pieces.last();
        if last.len() == 0 || (last == "."@ && pieces.len() > 1) {
            rest
        } else {
            rest.push(last)
        }
    }
}

/// The path starts at the root.
pub open spec fn is_rooted(s: Seq<char>) -> bool {
    s.len() > 0 && s[0] == '/'
}

/// Two paths have the same components.
pub open spec fn same_path(a: Seq<char>, b: Seq<char>) -> bool {
    is_rooted(a) == is_rooted(b) && components(crate::text::pieces(a, "/"@)) == components(
        crate::text::pieces(b, "/"@),
    )
}

/// The components of a path.
fn components_of(path: &str) -> (r: Vec<String>)
    ensures
        crate::text::texts(r@) == components(crate::text::pieces(path@, "/"@)),
{
    let pieces = split(path, "/");
    let ghost all = crate::text::texts(pieces@);
    let mut out: Vec<String> = Vec::new();
    assert(all.subrange(0, 0) =~= Seq::empty());
    assert(crate::text::texts(out@) =~= Seq::empty());
    for i in 0..pieces.len()
        invariant
            all == crate::text::texts(pieces@),
            crate::text::texts(out@) == components(all.subrange(0, i as int)),
    {
        let ghost before = out@;
        proof {
            let now = all.subrange(0, i + 1);
            assert(now.drop_last() =~= all.subrange(0, i as int));
            assert(now.last() == pieces@[i as int]@);
        }
        let piece = pieces[i].as_str();
        if !(piece.is_empty() || (text_eq(piece, ".") && i > 0)) {
            out.push(pieces[i].clone());
            assert(crate::text::texts(out@) =~= crate::text::texts(before).push(piece@));
        }
    }
    assert(all.subrange(0, all.len() as int) =~= all);
    out
}

/// Whether the path starts at the root.
fn starts_at_root(path: &str) -> (r: bool)
    ensures
        r == is_rooted(path@),
{
    let chars = chars_of(path);
    chars.len() > 0 && chars[0] == '/'
}

/// Whether two paths have the same components.
pub fn paths_equal(a: &str, b: &str) -> (r: bool)
    ensures
        r == same_path(a@, b@),
{
    if starts_at_root(a) != starts_at_root(b) {
        return false;
    }
    let x = components_of(a);
    let y = components_of(b);
    let ghost xs = crate::text::texts(x@);
    let ghost ys = crate::text::texts(y@);
    if x.len() != y.len() {
        assert(xs.len() != ys.len());
        return false;
    }
    for i in 0..x.len()
        invariant
            x@.len() == y@.len(),
            xs == crate::text::texts(x@),
            ys == crate::text::texts(y@),
            xs == components(crate::text::pieces(a@, "/"@)),
            ys == components(crate::text::pieces(b@, "/"@)),
            forall|j: int| 0 <= j < i ==> (#[trigger] xs[j]) == ys[j],
    {
        if !text_eq(x[i].as_str(), y[i].as_str()) {
            assert(xs[i as int] != ys[i as int]);
            return false;
        }
    }
    assert(xs =~= ys);
    true
}

} // verus!
