//! Sentinel strings for `CloudFormation` references.
//!
//! A reference to another resource can be written into a string as
//! `{{ref:X}}` or `{{getatt:X.Attr}}`. This module is the one place that knows
//! the form of those sentinels.

use vstd::prelude::*;

use crate::text::chars_of;
use crate::text::find_char;
use crate::text::find_chars;
use crate::text::occurs;
use crate::text::text_of;

verus! {

/// What opens a sentinel for `!Ref`.
pub open spec fn ref_prefix() -> Seq<char> {
    seq!['{', '{', 'r', 'e', 'f', ':']
}

/// What opens a sentinel for `!GetAtt`.
pub open spec fn getatt_prefix() -> Seq<char> {
    seq!['{', '{', 'g', 'e', 't', 'a', 't', 't', ':']
}

/// What closes a sentinel.
pub open spec fn suffix() -> Seq<char> {
    seq!['}', '}']
}

/// A reference to another resource, read from a sentinel.
#[derive(Debug, Clone, PartialEq, Eq)]
pub struct CfnRef {
    /// The logical ID of the referenced resource.
    pub logical_id: String,
    /// `Some(attr)` for `!GetAtt`, `None` for `!Ref`.
    pub attr: Option<String>,
}

/// The model of a [`CfnRef`].
pub struct RefView {
    pub logical_id: Seq<char>,
    pub attr: Option<Seq<char>>,
}

impl View for CfnRef {
    type V = RefView;

    open spec fn view(&self) -> RefView {
        RefView {
            logical_id: self.logical_id@,
            attr: match self.attr {
                Some(a) => Some(a@),
                None => None,
            },
        }
    }
}

// ---------------------------------------------------------------------------
// Models
// ---------------------------------------------------------------------------

/// The sentinel for `!Ref id`.
pub open spec fn ref_sentinel(id: Seq<char>) -> Seq<char> {
    ref_prefix() + id + suffix()
}

/// The sentinel for `!GetAtt id.attr`.
pub open spec fn getatt_sentinel(id: Seq<char>, attr: Seq<char>) -> Seq<char> {
    getatt_prefix() + id + seq!['.'] + attr + suffix()
}

/// The sentinel that stands for a reference.
pub open spec fn sentinel_of(r: RefView) -> Seq<char> {
    match r.attr {
        None => ref_sentinel(r.logical_id),
        Some(a) => getatt_sentinel(r.logical_id, a),
    }
}

/// What stands in `s` between the opening `p` and the closing `q`.
pub open spec fn enclosed(s: Seq<char>, p: Seq<char>, q: Seq<char>) -> Option<Seq<char>> {
    if crate::text::has_prefix(s, p) && crate::text::has_suffix(
        crate::text::tail(s, p.len() as int),
        q,
    ) {
        Some(s.subrange(p.len() as int, s.len() - q.len()))
    } else {
        None
    }
}

/// The reference that `s` as a whole stands for.
pub open spec fn parsed(s: Seq<char>) -> Option<RefView> {
    match enclosed(s, ref_prefix(), suffix()) {
        Some(inner) => if crate::text::contains_text(inner, suffix()) {
            None
        } else {
            Some(RefView { logical_id: inner, attr: None })
        },
        None => match enclosed(s, getatt_prefix(), suffix()) {
            Some(inner) => if crate::text::contains_text(inner, suffix()) {
                None
            } else {
                match crate::text::split_at_char(inner, '.') {
                    Some((id, attr)) => Some(RefView { logical_id: id, attr: Some(attr) }),
                    None => None,
                }
            },
            None => None,
        },
    }
}

/// A sentinel is opened at the beginning of `s`.
pub open spec fn opens_sentinel(s: Seq<char>) -> bool {
    crate::text::has_prefix(s, ref_prefix()) || crate::text::has_prefix(s, getatt_prefix())
}

/// `s` opens a sentinel, and what follows its first `}}` opens another one.
pub open spec fn concatenates(s: Seq<char>) -> bool {
    opens_sentinel(s) && match crate::text::find_text(s, suffix()) {
        Some(end) => opens_sentinel(crate::text::tail(s, end + suffix().len())),
        None => false,
    }
}

/// The first position of `s` at which a sentinel of either form is opened.
pub open spec fn first_opening(s: Seq<char>) -> Option<int> {
    match (
        crate::text::find_text(s, ref_prefix()),
        crate::text::find_text(s, getatt_prefix()),
    ) {
        (Some(r), Some(g)) => Some(
            if r <= g {
                r
            } else {
                g
            },
        ),
        (Some(r), None) => Some(r),
        (None, Some(g)) => Some(g),
        (None, None) => None,
    }
}

/// The reference of the first sentinel that is opened in `s`, read up to the
/// first `}}` after it.
pub open spec fn embedded(s: Seq<char>) -> Option<RefView> {
    match first_opening(s) {
        Some(start) => match crate::text::find_text(crate::text::tail(s, start), suffix()) {
            Some(end) => parsed(s.subrange(start, start + end + suffix().len())),
            None => None,
        },
        None => None,
    }
}

/// The reference that `s` stands for as a whole or, unless it concatenates
/// sentinels, the first one embedded in it.
pub open spec fn parsed_or_embedded(s: Seq<char>) -> Option<RefView> {
    match parsed(s) {
        Some(r) => Some(r),
        None => if concatenates(s) {
            None
        } else {
            embedded(s)
        },
    }
}

/// What an optional reference models.
pub open spec fn ref_view(r: Option<CfnRef>) -> Option<RefView> {
    match r {
        Some(x) => Some(x@),
        None => None,
    }
}

// ---------------------------------------------------------------------------
// Operations
// ---------------------------------------------------------------------------

fn ref_prefix_chars() -> (r: Vec<char>)
    ensures
        r@ == ref_prefix(),
{
    let r: Vec<char> = vec!['{', '{', 'r', 'e', 'f', ':'];
    assert(r@ =~= ref_prefix());
    r
}

fn getatt_prefix_chars() -> (r: Vec<char>)
    ensures
        r@ == getatt_prefix(),
{
    let r: Vec<char> = vec!['{', '{', 'g', 'e', 't', 'a', 't', 't', ':'];
    assert(r@ =~= getatt_prefix());
    r
}

fn suffix_chars() -> (r: Vec<char>)
    ensures
        r@ == suffix(),
{
    let r: Vec<char> = vec!['}', '}'];
    assert(r@ =~= suffix());
    r
}

/// Encodes a `!Ref` as a sentinel string: `"{{ref:X}}"`.
pub fn make_ref(logical_id: &str) -> (r: String)
    ensures
        r@ == ref_sentinel(logical_id@),
{
    let mut s = "{{ref:".to_owned();
    s.append(logical_id);
    s.append("}}");
    proof {
        reveal_strlit("{{ref:");
        reveal_strlit("}}");
        assert("{{ref:"@ =~= ref_prefix());
        assert("}}"@ =~= suffix());
    }
    s
}

/// Encodes a `!GetAtt` as a sentinel string: `"{{getatt:X.Attr}}"`.
pub fn make_getatt(logical_id: &str, attr: &str) -> (r: String)
    ensures
        r@ == getatt_sentinel(logical_id@, attr@),
{
    let mut s = "{{getatt:".to_owned();
    s.append(logical_id);
    s.append(".");
    s.append(attr);
    s.append("}}");
    proof {
        reveal_strlit("{{getatt:");
        reveal_strlit("}}");
        reveal_strlit(".");
        assert("{{getatt:"@ =~= getatt_prefix());
        assert("."@ =~= seq!['.']);
        assert("}}"@ =~= suffix());
    }
    s
}

/// What stands in `s` between the opening `p` and the closing `q`.
fn strip(s: &Vec<char>, p: &Vec<char>, q: &Vec<char>) -> (r: Option<Vec<char>>)
    ensures
        match r {
            Some(v) => enclosed(s@, p@, q@) == Some(v@),
            None => enclosed(s@, p@, q@) is None,
        },
{
    if !occurs(s, p, 0) {
        return None;
    }
    if s.len() - p.len() < q.len() {
        return None;
    }
    let ghost rest = crate::text::tail(s@, p@.len() as int);
    proof {
        assert(rest.subrange(rest.len() - q@.len(), rest.len() as int) =~= s@.subrange(
            s@.len() - q@.len(),
            s@.len() as int,
        ));
    }
    if !occurs(s, q, s.len() - q.len()) {
        return None;
    }
    let mut out: Vec<char> = Vec::new();
    let mut i: usize = p.len();
    while i < s.len() - q.len()
        invariant
            q@.len() <= s@.len(),
            p@.len() <= i <= s@.len() - q@.len(),
            out@ == s@.subrange(p@.len() as int, i as int),
        decreases s@.len() - i,
    {
        out.push(s[i]);
        i = i + 1;
        assert(out@ =~= s@.subrange(p@.len() as int, i as int));
    }
    Some(out)
}

/// Whether `}}` stands in `v`.
fn holds_suffix(v: &Vec<char>) -> (r: bool)
    ensures
        r == crate::text::contains_text(v@, suffix()),
{
    proof {
        crate::text::lemma_find_from(v@, suffix(), 0);
    }
    match find_chars(v, &suffix_chars(), 0) {
        Some(i) => {
            assert(crate::text::occurs_at(v@, suffix(), i as int));
            true
        },
        None => false,
    }
}

/// The reference that `s` as a whole stands for.
fn parse_chars(s: &Vec<char>) -> (r: Option<CfnRef>)
    ensures
        ref_view(r) == parsed(s@),
{
    match strip(s, &ref_prefix_chars(), &suffix_chars()) {
        Some(inner) => {
            // "{{ref:A}}{{ref:B}}" leaves "A}}{{ref:B" between the two ends.
            if holds_suffix(&inner) {
                return None;
            }
            let logical_id = text_of(&inner, 0, inner.len());
            assert(logical_id@ =~= inner@);
            Some(CfnRef { logical_id, attr: None })
        },
        None => match strip(s, &getatt_prefix_chars(), &suffix_chars()) {
            Some(inner) => {
                if holds_suffix(&inner) {
                    return None;
                }
                match find_char(&inner, '.', 0) {
                    Some(i) => Some(
                        CfnRef {
                            logical_id: text_of(&inner, 0, i),
                            attr: Some(text_of(&inner, i + 1, inner.len())),
                        },
                    ),
                    None => None,
                }
            },
            None => None,
        },
    }
}

/// Reads a sentinel string.
///
/// Gives `None` for any string that is not a sentinel as a whole.
///
/// - `"{{ref:X}}"` gives the logical ID `X` and no attribute
/// - `"{{getatt:X.Attr}}"` gives the logical ID `X` and the attribute `Attr`
/// - `"{{getatt:X.Y.Z}}"` gives the logical ID `X` and the attribute `Y.Z`
pub fn parse(s: &str) -> (r: Option<CfnRef>)
    ensures
        ref_view(r) == parsed(s@),
{
    parse_chars(&chars_of(s))
}

/// Whether a sentinel is opened at position `i` of `s`.
fn opens_at(s: &Vec<char>, i: usize) -> (r: bool)
    requires
        i <= s@.len(),
    ensures
        r == opens_sentinel(crate::text::tail(s@, i as int)),
{
    proof {
        let t = crate::text::tail(s@, i as int);
        if i + ref_prefix().len() <= s@.len() {
            assert(t.subrange(0, ref_prefix().len() as int) =~= s@.subrange(
                i as int,
                i + ref_prefix().len(),
            ));
        }
        if i + getatt_prefix().len() <= s@.len() {
            assert(t.subrange(0, getatt_prefix().len() as int) =~= s@.subrange(
                i as int,
                i + getatt_prefix().len(),
            ));
        }
    }
    occurs(s, &ref_prefix_chars(), i) || occurs(s, &getatt_prefix_chars(), i)
}

/// Whether `s` is a *concatenation* of two or more sentinels: it starts with
/// a sentinel, and what follows its first closing `}}` opens another one.
pub fn is_sentinel_concatenation(s: &str) -> (r: bool)
    ensures
        r == concatenates(s@),
{
    let v = chars_of(s);
    assert(crate::text::tail(v@, 0) =~= v@);
    if !opens_at(&v, 0) {
        return false;
    }
    match find_chars(&v, &suffix_chars(), 0) {
        Some(end) => opens_at(&v, end + 2),
        None => false,
    }
}

/// Where `p` stands in the tail of `s` from `start` on, it stands in `s`, that
/// much further on.
proof fn lemma_find_in_tail(s: Seq<char>, p: Seq<char>, start: int, from: int)
    requires
        0 <= start <= s.len(),
        0 <= from,
    ensures
        match crate::text::find_from(s, p, start + from) {
            Some(i) => crate::text::find_from(crate::text::tail(s, start), p, from) == Some(
                i - start,
            ),
            None => crate::text::find_from(crate::text::tail(s, start), p, from) is None,
        },
    decreases s.len() + 1 - start - from,
{
    let t = crate::text::tail(s, start);
    if start + from + p.len() <= s.len() {
        assert(t.subrange(from, from + p.len()) =~= s.subrange(
            start + from,
            start + from + p.len(),
        ));
        if !crate::text::occurs_at(s, p, start + from) {
            lemma_find_in_tail(s, p, start, from + 1);
        }
    }
}

/// Searches for the **first** sentinel within a larger string.
///
/// When several sentinels are embedded, only the first one is given.
pub fn find_embedded(s: &str) -> (r: Option<CfnRef>)
    ensures
        ref_view(r) == embedded(s@),
{
    let v = chars_of(s);
    let start: usize = match (
        find_chars(&v, &ref_prefix_chars(), 0),
        find_chars(&v, &getatt_prefix_chars(), 0),
    ) {
        (Some(r), Some(g)) => if r <= g {
            r
        } else {
            g
        },
        (Some(r), None) => r,
        (None, Some(g)) => g,
        (None, None) => {
            return None;
        },
    };
    proof {
        lemma_find_in_tail(v@, suffix(), start as int, 0);
    }
    match find_chars(&v, &suffix_chars(), start) {
        Some(end) => {
            let mut sentinel: Vec<char> = Vec::new();
            let mut i: usize = start;
            while i < end + 2
                invariant
                    start <= i <= end + 2 <= v.len(),
                    sentinel@ == v@.subrange(start as int, i as int),
                decreases end + 2 - i,
            {
                sentinel.push(v[i]);
                i = i + 1;
                assert(sentinel@ =~= v@.subrange(start as int, i as int));
            }
            parse_chars(&sentinel)
        },
        None => None,
    }
}

/// Reads `s` as a whole; if that fails, searches for an embedded sentinel,
/// except when `s` is a concatenation of sentinels.
pub fn parse_or_find_embedded(s: &str) -> (r: Option<CfnRef>)
    ensures
        ref_view(r) == parsed_or_embedded(s@),
{
    match parse(s) {
        Some(r) => Some(r),
        None => if is_sentinel_concatenation(s) {
            None
        } else {
            find_embedded(s)
        },
    }
}

// ---------------------------------------------------------------------------
// Laws
// ---------------------------------------------------------------------------

/// Reading gives back what a `!Ref` sentinel was made from, unless the logical
/// ID holds `}}` itself.
pub proof fn law_ref_round_trip(id: Seq<char>)
    requires
        !crate::text::contains_text(id, suffix()),
    ensures
        parsed(ref_sentinel(id)) == Some(RefView { logical_id: id, attr: None }),
{
    let s = ref_sentinel(id);
    let p = ref_prefix();
    assert(s.subrange(0, p.len() as int) =~= p);
    let t = crate::text::tail(s, p.len() as int);
    assert(t =~= id + suffix());
    assert(t.subrange(t.len() - 2, t.len() as int) =~= suffix());
    assert(s.subrange(p.len() as int, s.len() - 2) =~= id);
}

/// No string opens with both forms of sentinel.
proof fn lemma_one_prefix(s: Seq<char>)
    requires
        crate::text::has_prefix(s, getatt_prefix()),
    ensures
        !crate::text::has_prefix(s, ref_prefix()),
{
    assert(s.subrange(0, 9)[2] == 'g');
    if crate::text::has_prefix(s, ref_prefix()) {
        assert(s.subrange(0, 6)[2] == 'r');
    }
}

/// Reading gives back what a `!GetAtt` sentinel was made from, unless the
/// logical ID holds a `.` or what stands between the ends holds `}}`.
pub proof fn law_getatt_round_trip(id: Seq<char>, attr: Seq<char>)
    requires
        !id.contains('.'),
        !crate::text::contains_text(id + seq!['.'] + attr, suffix()),
    ensures
        parsed(getatt_sentinel(id, attr)) == Some(RefView { logical_id: id, attr: Some(attr) }),
{
    let s = getatt_sentinel(id, attr);
    let p = getatt_prefix();
    let inner = id + seq!['.'] + attr;
    assert(s.subrange(0, p.len() as int) =~= p);
    lemma_one_prefix(s);
    let t = crate::text::tail(s, p.len() as int);
    assert(t =~= inner + suffix());
    assert(t.subrange(t.len() - 2, t.len() as int) =~= suffix());
    assert(s.subrange(p.len() as int, s.len() - 2) =~= inner);
    let i = id.len() as int;
    crate::text::lemma_occurs_char(inner, '.', i);
    assert forall|j: int| 0 <= j < i implies !#[trigger] crate::text::occurs_at(
        inner,
        seq!['.'],
        j,
    ) by {
        crate::text::lemma_occurs_char(inner, '.', j);
        assert(inner[j] == id[j]);
        assert(id.contains(id[j]));
    }
    crate::text::lemma_find_from_is(inner, seq!['.'], 0, i);
    assert(inner.subrange(0, i) =~= id);
    assert(crate::text::tail(inner, i + 1) =~= attr);
}

/// A string that reads as a reference is the sentinel of that reference: no
/// two strings read as the same one.
pub proof fn law_parsed_is_sentinel(s: Seq<char>)
    requires
        parsed(s) is Some,
    ensures
        s == sentinel_of(parsed(s)->Some_0),
{
    match enclosed(s, ref_prefix(), suffix()) {
        Some(inner) => {
            let t = crate::text::tail(s, 6);
            assert(t.subrange(t.len() - 2, t.len() as int) =~= s.subrange(
                s.len() - 2,
                s.len() as int,
            ));
            assert(s =~= s.subrange(0, 6) + inner + s.subrange(s.len() - 2, s.len() as int));
        },
        None => {
            let inner = enclosed(s, getatt_prefix(), suffix())->Some_0;
            let t = crate::text::tail(s, 9);
            assert(t.subrange(t.len() - 2, t.len() as int) =~= s.subrange(
                s.len() - 2,
                s.len() as int,
            ));
            assert(s =~= s.subrange(0, 9) + inner + s.subrange(s.len() - 2, s.len() as int));
            crate::text::lemma_find_from(inner, seq!['.'], 0);
            let i = crate::text::find_text(inner, seq!['.'])->Some_0;
            crate::text::lemma_occurs_char(inner, '.', i);
            assert(inner =~= inner.subrange(0, i) + seq!['.'] + crate::text::tail(inner, i + 1));
            let r = parsed(s)->Some_0;
            assert(s =~= getatt_prefix() + r.logical_id + seq!['.'] + r.attr->Some_0 + suffix());
        },
    }
}

/// What opens the sentinel of a reference.
pub open spec fn opening(r: RefView) -> Seq<char> {
    match r.attr {
        None => ref_prefix(),
        Some(_) => getatt_prefix(),
    }
}

/// What stands between the two ends of the sentinel of a reference.
pub open spec fn inner_text(r: RefView) -> Seq<char> {
    match r.attr {
        None => r.logical_id,
        Some(a) => r.logical_id + seq!['.'] + a,
    }
}

/// The first `}}` in the sentinel of a reference is the one that closes it.
pub open spec fn closes_once(r: RefView) -> bool {
    !crate::text::contains_text(inner_text(r) + seq!['}'], suffix())
}

/// Where the sentinel of a reference closes, whatever stands behind it.
proof fn lemma_first_close(r: RefView, rest: Seq<char>)
    requires
        closes_once(r),
    ensures
        sentinel_of(r) == opening(r) + inner_text(r) + suffix(),
        crate::text::find_text(sentinel_of(r) + rest, suffix()) == Some(
            opening(r).len() + inner_text(r).len() as int,
        ),
        !crate::text::contains_text(inner_text(r), suffix()),
{
    let p = opening(r);
    let inner = inner_text(r);
    let s = sentinel_of(r) + rest;
    let closed = inner + seq!['}'];
    let end = p.len() + inner.len() as int;
    assert(sentinel_of(r) =~= p + inner + suffix());
    assert(s.subrange(end, end + 2) =~= suffix());
    assert(forall|j: int| 0 <= j < p.len() ==> p[j] != '}');
    assert forall|j: int| 0 <= j < end implies !#[trigger] crate::text::occurs_at(
        s,
        suffix(),
        j,
    ) by {
        if crate::text::occurs_at(s, suffix(), j) {
            assert(s.subrange(j, j + 2)[0] == '}');
            assert(s.subrange(j, j + 2)[1] == '}');
            if j < p.len() {
                assert(s[j] == p[j]);
            } else {
                let k = j - p.len();
                assert(s[j] == closed[k]);
                assert(s[j + 1] == closed[k + 1]);
                assert(closed.subrange(k, k + 2) =~= suffix());
                assert(crate::text::occurs_at(closed, suffix(), k));
            }
        }
    }
    crate::text::lemma_find_from_is(s, suffix(), 0, end);
    if crate::text::contains_text(inner, suffix()) {
        let k = choose|k: int| crate::text::occurs_at(inner, suffix(), k);
        assert(closed.subrange(k, k + 2) =~= inner.subrange(k, k + 2));
        assert(crate::text::occurs_at(closed, suffix(), k));
    }
}

/// A sentinel with another one behind it stands for no single reference:
/// neither reading the whole nor searching gives one, whatever the two refer to
/// and whatever follows them.
pub proof fn law_concatenation_is_rejected(r: RefView, rest: Seq<char>)
    requires
        closes_once(r),
        opens_sentinel(rest),
    ensures
        parsed_or_embedded(sentinel_of(r) + rest) is None,
{
    let s = sentinel_of(r) + rest;
    let p = opening(r);
    let inner = inner_text(r);
    let n = p.len() as int;
    let end = n + inner.len();
    lemma_first_close(r, rest);
    assert(s.subrange(0, n) =~= p);
    if r.attr is Some {
        lemma_one_prefix(s);
    }
    assert(crate::text::has_prefix(s, p));
    assert(opens_sentinel(s));
    let between = s.subrange(n, s.len() - 2);
    assert(between.subrange(inner.len() as int, inner.len() as int + 2) =~= suffix());
    assert(crate::text::occurs_at(between, suffix(), inner.len() as int));
    if r.attr is None && crate::text::has_prefix(s, getatt_prefix()) {
        lemma_one_prefix(s);
    }
    assert(parsed(s) is None);
    assert(crate::text::tail(s, end + 2) =~= rest);
}

/// No sentinel is opened in `before` and goes on into one behind it.
proof fn lemma_no_overlap(before: Seq<char>, behind: Seq<char>, p: Seq<char>, j: int)
    requires
        p == ref_prefix() || p == getatt_prefix(),
        !crate::text::contains_text(before, p),
        behind.len() >= 2,
        behind[0] == '{',
        behind[1] == '{',
        0 <= j < before.len(),
    ensures
        !crate::text::occurs_at(before + behind, p, j),
{
    let s = before + behind;
    let k = before.len() as int;
    if crate::text::occurs_at(s, p, j) {
        let cut = s.subrange(j, j + p.len());
        if j + p.len() <= k {
            assert(cut =~= before.subrange(j, j + p.len()));
            assert(crate::text::occurs_at(before, p, j));
        } else if k - j == 1 {
            assert(cut[2] == s[k + 1]);
        } else {
            assert(cut[k - j] == s[k]);
            assert(p[k - j] != '{');
        }
    }
}

/// A reference that stands in a larger string is found, whatever surrounds it:
/// text that opens no sentinel before it, and any text after it. A logical ID
/// with a `.` in it cannot be told from an attribute.
pub proof fn law_embedded_ref_is_found(before: Seq<char>, r: RefView, after: Seq<char>)
    requires
        !crate::text::contains_text(before, ref_prefix()),
        !crate::text::contains_text(before, getatt_prefix()),
        closes_once(r),
        r.attr is Some ==> !r.logical_id.contains('.'),
    ensures
        embedded(before + sentinel_of(r) + after) == Some(r),
{
    let behind = sentinel_of(r) + after;
    let s = before + behind;
    let p = opening(r);
    let n = p.len() as int;
    let k = before.len() as int;
    assert(before + sentinel_of(r) + after =~= s);
    lemma_first_close(r, after);
    assert(s.subrange(k, k + n) =~= p);
    assert(crate::text::occurs_at(s, p, k));
    assert(behind[0] == p[0] && behind[1] == p[1]);
    assert forall|j: int| 0 <= j < k implies !#[trigger] crate::text::occurs_at(
        s,
        ref_prefix(),
        j,
    ) by {
        lemma_no_overlap(before, behind, ref_prefix(), j);
    }
    assert forall|j: int| 0 <= j < k implies !#[trigger] crate::text::occurs_at(
        s,
        getatt_prefix(),
        j,
    ) by {
        lemma_no_overlap(before, behind, getatt_prefix(), j);
    }
    crate::text::lemma_find_from(s, ref_prefix(), 0);
    crate::text::lemma_find_from(s, getatt_prefix(), 0);
    crate::text::lemma_find_from_is(s, p, 0, k);
    assert(first_opening(s) == Some(k));
    let t = crate::text::tail(s, k);
    assert(t =~= behind);
    let end = n + inner_text(r).len();
    assert(s.subrange(k, k + end + 2) =~= sentinel_of(r));
    match r.attr {
        None => {
            law_ref_round_trip(r.logical_id);
        },
        Some(a) => {
            law_getatt_round_trip(r.logical_id, a);
        },
    }
}

} // verus!
