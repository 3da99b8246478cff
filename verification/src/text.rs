//! Verified operations on text.
//!
//! The mathematical model of a string is its sequence of Unicode scalar
//! values, `Seq<char>`. Positions are counted in scalar values, not bytes.

use vstd::prelude::*;

verus! {

/// `String::push`: appends one scalar value to the end of the string and
/// leaves what was there before unchanged.
pub assume_specification[ std::string::String::push ](s: &mut std::string::String, c: char)
    ensures
        final(s)@ == old(s)@.push(c),
;

/// What `str::to_lowercase` gives.
pub uninterp spec fn lowercase(s: Seq<char>) -> Seq<char>;

/// `str::to_lowercase`: the text with each scalar value in its Unicode lower
/// case. What it gives depends on the text alone.
#[verifier::external_body]
pub(crate) fn to_lowercase(s: &str) -> (r: String)
    ensures
        r@ == lowercase(s@),
{
    s.to_lowercase()
}

/// What the `Debug` implementation of `str` writes.
pub uninterp spec fn quoted(s: Seq<char>) -> Seq<char>;

/// `format!` with the `Debug` implementation of `str`: the text in double
/// quotes, with the characters that need it escaped. What it gives depends on
/// the text alone.
#[verifier::external_body]
pub(crate) fn quote(s: &str) -> (r: String)
    ensures
        r@ == quoted(s@),
{
    format!("{s:?}")
}

// ---------------------------------------------------------------------------
// Models
// ---------------------------------------------------------------------------

/// `p` stands in `s` at position `i`.
pub open spec fn occurs_at(s: Seq<char>, p: Seq<char>, i: int) -> bool {
    &&& 0 <= i
    &&& i + p.len() <= s.len()
    &&& s.subrange(i, i + p.len()) == p
}

/// `s` begins with `p`.
pub open spec fn has_prefix(s: Seq<char>, p: Seq<char>) -> bool {
    occurs_at(s, p, 0)
}

/// `s` ends with `p`.
pub open spec fn has_suffix(s: Seq<char>, p: Seq<char>) -> bool {
    occurs_at(s, p, s.len() - p.len())
}

/// `p` stands somewhere in `s`.
pub open spec fn contains_text(s: Seq<char>, p: Seq<char>) -> bool {
    exists|i: int| occurs_at(s, p, i)
}

/// The first position at or after `from` at which `p` stands in `s`.
pub open spec fn find_from(s: Seq<char>, p: Seq<char>, from: int) -> Option<int>
    decreases s.len() + 1 - from,
{
    if from < 0 || from + p.len() > s.len() {
        None
    } else if occurs_at(s, p, from) {
        Some(from)
    } else {
        find_from(s, p, from + 1)
    }
}

/// The first position at which `p` stands in `s`.
pub open spec fn find_text(s: Seq<char>, p: Seq<char>) -> Option<int> {
    find_from(s, p, 0)
}

/// What follows position `i` of `s`, the scalar value at `i` included.
pub open spec fn tail(s: Seq<char>, i: int) -> Seq<char> {
    s.subrange(i, s.len() as int)
}

/// `s` cut at its first `c`: what stands before it and what stands after it.
pub open spec fn split_at_char(s: Seq<char>, c: char) -> Option<(Seq<char>, Seq<char>)> {
    match find_text(s, seq![c]) {
        Some(i) => Some((s.subrange(0, i), tail(s, i + 1))),
        None => None,
    }
}

/// `s` cut at every occurrence of the non-empty `sep`, left to right and
/// without overlap, from position `from` on.
pub open spec fn pieces_from(s: Seq<char>, sep: Seq<char>, from: int) -> Seq<Seq<char>>
    decreases s.len() - from,
{
    if sep.len() == 0 || from < 0 || from > s.len() {
        Seq::empty()
    } else {
        proof {
            lemma_find_from(s, sep, from);
        }
        match find_from(s, sep, from) {
            Some(i) => seq![s.subrange(from, i)] + pieces_from(s, sep, i + sep.len()),
            None => seq![tail(s, from)],
        }
    }
}

/// The pieces of `s` between the occurrences of `sep`. An empty separator
/// stands before every scalar value and at the end.
pub open spec fn pieces(s: Seq<char>, sep: Seq<char>) -> Seq<Seq<char>> {
    if sep.len() == 0 {
        seq![Seq::<char>::empty()] + Seq::new(s.len(), |i: int| seq![s[i]]) + seq![
            Seq::<char>::empty(),
        ]
    } else {
        pieces_from(s, sep, 0)
    }
}

/// The texts of `parts` in order, with `sep` between each two of them.
pub open spec fn joined(parts: Seq<Seq<char>>, sep: Seq<char>) -> Seq<char>
    decreases parts.len(),
{
    if parts.len() == 0 {
        Seq::empty()
    } else if parts.len() == 1 {
        parts[0]
    } else {
        joined(parts.drop_last(), sep) + sep + parts.last()
    }
}

/// `a` stands before `b` in the order of their scalar values, which is also
/// the order of their UTF-8 bytes.
pub open spec fn text_lt(a: Seq<char>, b: Seq<char>) -> bool
    decreases a.len(),
{
    if b.len() == 0 {
        false
    } else if a.len() == 0 {
        true
    } else if a[0] != b[0] {
        (a[0] as int) < (b[0] as int)
    } else {
        text_lt(a.drop_first(), b.drop_first())
    }
}

/// The views of a sequence of strings.
pub open spec fn texts(v: Seq<String>) -> Seq<Seq<char>> {
    v.map_values(|s: String| s@)
}

/// The decimal digits of `n`, most significant first.
pub open spec fn digits(n: nat) -> Seq<char>
    decreases n,
{
    if n < 10 {
        seq![(48 + n) as char]
    } else {
        digits(n / 10).push((48 + n % 10) as char)
    }
}

/// The number that the decimal digits of `s` write, if `s` holds at least one
/// scalar value and nothing but decimal digits.
pub open spec fn digits_value(s: Seq<char>) -> Option<nat>
    decreases s.len(),
{
    if s.len() == 0 {
        None
    } else if !is_digit(s.last()) {
        None
    } else if s.len() == 1 {
        Some(digit_value(s.last()))
    } else {
        match digits_value(s.drop_last()) {
            Some(n) => Some(10 * n + digit_value(s.last())),
            None => None,
        }
    }
}

/// `c` is one of the ten ASCII digits.
pub open spec fn is_digit(c: char) -> bool {
    '0' <= c && c <= '9'
}

/// The value of an ASCII digit.
pub open spec fn digit_value(c: char) -> nat {
    (c as int - '0' as int) as nat
}

/// The end of the run of ASCII digits that starts at `i`.
pub open spec fn digit_run(s: Seq<char>, i: int) -> int
    decreases s.len() - i,
{
    if 0 <= i < s.len() && is_digit(s[i]) {
        digit_run(s, i + 1)
    } else {
        i
    }
}

/// The position behind an optional sign at `i`.
pub open spec fn behind_sign(s: Seq<char>, i: int) -> int {
    if 0 <= i < s.len() && (s[i] == '+' || s[i] == '-') {
        i + 1
    } else {
        i
    }
}

/// The ASCII lower case of `c`.
pub open spec fn ascii_lower(c: char) -> char {
    if 'A' <= c && c <= 'Z' {
        (c as int + 32) as char
    } else {
        c
    }
}

/// From position `i` on, `s` is `word`, without regard to ASCII case.
pub open spec fn is_word_at(s: Seq<char>, i: int, word: Seq<char>) -> bool {
    &&& i >= 0
    &&& s.len() == i + word.len()
    &&& forall|k: int| 0 <= k < word.len() ==> ascii_lower(#[trigger] s[i + k]) == word[k]
}

/// From position `i` on, `s` is an exponent: `e`, an optional sign, digits.
pub open spec fn is_exponent_at(s: Seq<char>, i: int) -> bool {
    &&& 0 <= i < s.len()
    &&& s[i] == 'e' || s[i] == 'E'
    &&& digit_run(s, behind_sign(s, i + 1)) == s.len()
    &&& behind_sign(s, i + 1) < s.len()
}

/// The end of the digits and the decimal point that start at `i`.
pub open spec fn mantissa_end(s: Seq<char>, i: int) -> int {
    let a = digit_run(s, i);
    if 0 <= a < s.len() && s[a] == '.' {
        digit_run(s, a + 1)
    } else {
        a
    }
}

/// There is a digit among the digits and the decimal point that start at `i`.
pub open spec fn mantissa_has_digit(s: Seq<char>, i: int) -> bool {
    let a = digit_run(s, i);
    a > i || (0 <= a < s.len() && s[a] == '.' && digit_run(s, a + 1) > a + 1)
}

/// `s` writes a binary64 number: an optional sign, then `inf`, `infinity` or
/// `nan` in any ASCII case, or digits with an optional decimal point and an
/// optional exponent.
pub open spec fn is_float_text(s: Seq<char>) -> bool {
    let i = behind_sign(s, 0);
    ||| is_word_at(s, i, seq!['i', 'n', 'f'])
    ||| is_word_at(s, i, seq!['i', 'n', 'f', 'i', 'n', 'i', 't', 'y'])
    ||| is_word_at(s, i, seq!['n', 'a', 'n'])
    ||| (mantissa_has_digit(s, i) && (mantissa_end(s, i) == s.len() || is_exponent_at(
        s,
        mantissa_end(s, i),
    )))
}

// ---------------------------------------------------------------------------
// Lemmas
// ---------------------------------------------------------------------------

/// A position that `find_from` gives is an occurrence at or after `from`, and
/// no earlier position at or after `from` is one; where it gives none, there
/// is none.
pub proof fn lemma_find_from(s: Seq<char>, p: Seq<char>, from: int)
    requires
        from >= 0,
    ensures
        match find_from(s, p, from) {
            Some(i) => from <= i && occurs_at(s, p, i) && forall|j: int|
                from <= j < i ==> !#[trigger] occurs_at(s, p, j),
            None => forall|j: int| from <= j ==> !#[trigger] occurs_at(s, p, j),
        },
    decreases s.len() + 1 - from,
{
    if from + p.len() <= s.len() && !occurs_at(s, p, from) {
        lemma_find_from(s, p, from + 1);
    }
}

/// `find_from` gives the position `i` wherever `i` is the first occurrence.
pub proof fn lemma_find_from_is(s: Seq<char>, p: Seq<char>, from: int, i: int)
    requires
        0 <= from <= i,
        occurs_at(s, p, i),
        forall|j: int| from <= j < i ==> !#[trigger] occurs_at(s, p, j),
    ensures
        find_from(s, p, from) == Some(i),
    decreases i - from,
{
    if from < i {
        assert(!occurs_at(s, p, from));
        lemma_find_from_is(s, p, from + 1, i);
    }
}

/// A one-scalar pattern stands exactly where that scalar value stands.
pub proof fn lemma_occurs_char(s: Seq<char>, c: char, i: int)
    ensures
        occurs_at(s, seq![c], i) <==> (0 <= i < s.len() && s[i] == c),
{
    if 0 <= i < s.len() {
        if s[i] == c {
            assert(s.subrange(i, i + 1) =~= seq![c]);
        } else {
            assert(s.subrange(i, i + 1)[0] == s[i]);
        }
    }
}

/// The order of texts is irreflexive.
pub proof fn lemma_text_lt_irreflexive(a: Seq<char>)
    ensures
        !text_lt(a, a),
    decreases a.len(),
{
    if a.len() > 0 {
        lemma_text_lt_irreflexive(a.drop_first());
    }
}

/// The order of texts is transitive.
pub proof fn lemma_text_lt_transitive(a: Seq<char>, b: Seq<char>, c: Seq<char>)
    requires
        text_lt(a, b),
        text_lt(b, c),
    ensures
        text_lt(a, c),
    decreases a.len(),
{
    if a.len() > 0 && b.len() > 0 && c.len() > 0 && a[0] == b[0] && b[0] == c[0] {
        lemma_text_lt_transitive(a.drop_first(), b.drop_first(), c.drop_first());
    }
}

/// Of two different texts one stands before the other.
pub proof fn lemma_text_lt_total(a: Seq<char>, b: Seq<char>)
    ensures
        text_lt(a, b) || text_lt(b, a) || a == b,
    decreases a.len(),
{
    if a.len() == 0 && b.len() == 0 {
        assert(a =~= b);
    } else if a.len() > 0 && b.len() > 0 && a[0] == b[0] {
        lemma_text_lt_total(a.drop_first(), b.drop_first());
        if a.drop_first() == b.drop_first() {
            assert(a =~= seq![a[0]] + a.drop_first());
            assert(b =~= seq![b[0]] + b.drop_first());
        }
    }
}

/// Joining a first piece with others puts it and a separator before them.
proof fn lemma_joined_front(first: Seq<char>, rest: Seq<Seq<char>>, sep: Seq<char>)
    requires
        rest.len() > 0,
    ensures
        joined(seq![first] + rest, sep) == first + sep + joined(rest, sep),
    decreases rest.len(),
{
    let all = seq![first] + rest;
    assert(all.drop_last() =~= seq![first] + rest.drop_last());
    if rest.len() == 1 {
        reveal_with_fuel(joined, 2);
        assert(all.drop_last() =~= seq![first]);
        assert(joined(all, sep) =~= first + sep + joined(rest, sep));
    } else {
        lemma_joined_front(first, rest.drop_last(), sep);
        assert(joined(all, sep) =~= first + sep + joined(rest, sep));
    }
}

proof fn lemma_joined_pieces_from(s: Seq<char>, sep: Seq<char>, from: int)
    requires
        sep.len() > 0,
        0 <= from <= s.len(),
    ensures
        pieces_from(s, sep, from).len() > 0,
        joined(pieces_from(s, sep, from), sep) == tail(s, from),
    decreases s.len() - from,
{
    lemma_find_from(s, sep, from);
    match find_from(s, sep, from) {
        Some(i) => {
            lemma_joined_pieces_from(s, sep, i + sep.len());
            lemma_joined_front(
                s.subrange(from, i),
                pieces_from(s, sep, i + sep.len()),
                sep,
            );
            assert(tail(s, from) =~= s.subrange(from, i) + s.subrange(i, i + sep.len()) + tail(
                s,
                i + sep.len(),
            ));
        },
        None => {},
    }
}

/// Joining the pieces of a text with the separator that it was cut at gives
/// the text back.
pub proof fn law_joined_pieces(s: Seq<char>, sep: Seq<char>)
    ensures
        joined(pieces(s, sep), sep) == s,
{
    if sep.len() > 0 {
        lemma_joined_pieces_from(s, sep, 0);
        assert(tail(s, 0) =~= s);
    } else {
        let front = seq![Seq::<char>::empty()] + Seq::new(s.len(), |i: int| seq![s[i]]);
        let all = pieces(s, sep);
        lemma_joined_characters(s, sep);
        assert(all.drop_last() =~= front);
        assert(joined(all, sep) =~= s);
    }
}

/// The characters of a text behind an empty text, joined with nothing between
/// them, are the text.
proof fn lemma_joined_characters(s: Seq<char>, sep: Seq<char>)
    requires
        sep.len() == 0,
    ensures
        joined(seq![Seq::<char>::empty()] + Seq::new(s.len(), |i: int| seq![s[i]]), sep) == s,
    decreases s.len(),
{
    let all = seq![Seq::<char>::empty()] + Seq::new(s.len(), |i: int| seq![s[i]]);
    if s.len() > 0 {
        let rest = s.drop_last();
        lemma_joined_characters(rest, sep);
        assert(all.drop_last() =~= seq![Seq::<char>::empty()] + Seq::new(
            rest.len(),
            |i: int| seq![rest[i]],
        ));
        assert(all.last() == seq![s.last()]);
        assert(joined(all, sep) =~= s);
    } else {
        assert(all =~= seq![Seq::<char>::empty()]);
        assert(joined(all, sep) =~= s);
    }
}

// ---------------------------------------------------------------------------
// Executable operations
// ---------------------------------------------------------------------------

/// Whether two texts are equal.
pub fn text_eq(a: &str, b: &str) -> (r: bool)
    ensures
        r == (a@ == b@),
{
    a.to_owned() == b.to_owned()
}

/// Whether `s` is among the texts.
pub fn is_among(v: &Vec<String>, s: &str) -> (r: bool)
    ensures
        r == texts(v@).contains(s@),
{
    let ghost all = texts(v@);
    for i in 0..v.len()
        invariant
            all == texts(v@),
            forall|j: int| 0 <= j < i ==> (#[trigger] all[j]) != s@,
    {
        if text_eq(v[i].as_str(), s) {
            assert(all[i as int] == s@);
            return true;
        }
    }
    false
}

/// The scalar values of `s`.
pub fn chars_of(s: &str) -> (r: Vec<char>)
    ensures
        r@ == s@,
{
    let n: usize = s.unicode_len();
    let mut out: Vec<char> = Vec::new();
    let mut it = s.chars();
    let mut i: usize = 0;
    while i < n
        invariant
            i <= n,
            n == s@.len(),
            out@ == s@.subrange(0, i as int),
            vstd::std_specs::iter::IteratorSpec::remaining(&it) == s@.subrange(i as int, n as int),
        decreases n - i,
    {
        match it.next() {
            Some(c) => {
                assert(s@.subrange(i as int, n as int)[0] == s@[i as int]);
                out.push(c);
                i = i + 1;
                assert(out@ =~= s@.subrange(0, i as int));
                assert(s@.subrange(i as int - 1, n as int).drop_first() =~= s@.subrange(
                    i as int,
                    n as int,
                ));
            },
            None => {
                assert(false);
                i = n;
            },
        }
    }
    assert(s@.subrange(0, n as int) =~= s@);
    out
}

/// The text of the scalar values of `v` from `lo` up to `hi`.
pub fn text_of(v: &Vec<char>, lo: usize, hi: usize) -> (r: String)
    requires
        lo <= hi <= v@.len(),
    ensures
        r@ == v@.subrange(lo as int, hi as int),
{
    let mut out = String::new();
    let mut i: usize = lo;
    while i < hi
        invariant
            lo <= i <= hi <= v@.len(),
            out@ == v@.subrange(lo as int, i as int),
        decreases hi - i,
    {
        out.push(v[i]);
        i = i + 1;
        assert(out@ =~= v@.subrange(lo as int, i as int));
    }
    out
}

/// Whether `p` stands in `s` at position `i`.
pub fn occurs(s: &Vec<char>, p: &Vec<char>, i: usize) -> (r: bool)
    ensures
        r == occurs_at(s@, p@, i as int),
{
    if p.len() > s.len() || i > s.len() - p.len() {
        return false;
    }
    let mut k: usize = 0;
    while k < p.len()
        invariant
            k <= p.len(),
            i + p.len() <= s.len(),
            forall|j: int| 0 <= j < k ==> s@[i + j] == p@[j],
        decreases p@.len() - k,
    {
        if s[i + k] != p[k] {
            assert(s@.subrange(i as int, i + p@.len())[k as int] == s@[i + k]);
            return false;
        }
        k = k + 1;
    }
    assert(s@.subrange(i as int, i + p@.len()) =~= p@);
    true
}

/// The first position at or after `from` at which `p` stands in `s`.
pub fn find_chars(s: &Vec<char>, p: &Vec<char>, from: usize) -> (r: Option<usize>)
    ensures
        match r {
            Some(i) => find_from(s@, p@, from as int) == Some(i as int),
            None => find_from(s@, p@, from as int) is None,
        },
        r is Some ==> from <= r->Some_0 && r->Some_0 + p.len() <= s.len(),
{
    let mut i: usize = from;
    while p.len() <= s.len() && i <= s.len() - p.len()
        invariant
            from <= i,
            i <= s@.len() + 1 || i == from,
            find_from(s@, p@, from as int) == find_from(s@, p@, i as int),
        decreases s@.len() + 1 - i,
    {
        if occurs(s, p, i) {
            return Some(i);
        }
        if i == s.len() - p.len() {
            assert(find_from(s@, p@, i + 1) is None);
            return None;
        }
        i = i + 1;
    }
    None
}

/// The first position at which `c` stands in `s` at or after `from`.
pub fn find_char(s: &Vec<char>, c: char, from: usize) -> (r: Option<usize>)
    ensures
        match r {
            Some(i) => find_from(s@, seq![c], from as int) == Some(i as int) && from <= i < s.len(),
            None => find_from(s@, seq![c], from as int) is None,
        },
{
    let mut p: Vec<char> = Vec::new();
    p.push(c);
    assert(p@ =~= seq![c]);
    find_chars(s, &p, from)
}

/// Whether `s` begins with `p`.
pub fn starts_with(s: &str, p: &str) -> (r: bool)
    ensures
        r == has_prefix(s@, p@),
{
    occurs(&chars_of(s), &chars_of(p), 0)
}

/// Whether `s` ends with `p`.
pub fn ends_with(s: &str, p: &str) -> (r: bool)
    ensures
        r == has_suffix(s@, p@),
{
    let a = chars_of(s);
    let b = chars_of(p);
    if b.len() > a.len() {
        return false;
    }
    occurs(&a, &b, a.len() - b.len())
}

/// Whether `p` stands somewhere in `s`.
pub fn contains(s: &str, p: &str) -> (r: bool)
    ensures
        r == contains_text(s@, p@),
{
    proof {
        lemma_find_from(s@, p@, 0);
    }
    match find_chars(&chars_of(s), &chars_of(p), 0) {
        Some(i) => {
            assert(occurs_at(s@, p@, i as int));
            true
        },
        None => false,
    }
}

/// `s` cut at its first `c`.
pub fn split_once(s: &str, c: char) -> (r: Option<(String, String)>)
    ensures
        match r {
            Some((a, b)) => split_at_char(s@, c) == Some((a@, b@)),
            None => split_at_char(s@, c) is None,
        },
{
    let v = chars_of(s);
    match find_char(&v, c, 0) {
        Some(i) => Some((text_of(&v, 0, i), text_of(&v, i + 1, v.len()))),
        None => None,
    }
}

/// The pieces of `s` between the occurrences of `sep`.
pub fn split(s: &str, sep: &str) -> (r: Vec<String>)
    ensures
        texts(r@) == pieces(s@, sep@),
{
    let v = chars_of(s);
    let p = chars_of(sep);
    let mut out: Vec<String> = Vec::new();
    if p.len() == 0 {
        out.push(String::new());
        let mut i: usize = 0;
        while i < v.len()
            invariant
                i <= v@.len(),
                texts(out@) == seq![Seq::<char>::empty()] + Seq::new(i as nat, |k: int| seq![v@[k]]),
            decreases v@.len() - i,
        {
            let ghost before = out@;
            out.push(text_of(&v, i, i + 1));
            i = i + 1;
            assert(v@.subrange(i - 1, i as int) =~= seq![v@[i - 1]]);
            assert(texts(out@) =~= texts(before).push(seq![v@[i - 1]]));
            assert(texts(out@) =~= seq![Seq::<char>::empty()] + Seq::new(
                i as nat,
                |k: int| seq![v@[k]],
            ));
        }
        out.push(String::new());
        assert(texts(out@) =~= pieces(s@, sep@));
        return out;
    }
    let mut from: usize = 0;
    loop
        invariant
            v@ == s@,
            p@ == sep@,
            p@.len() > 0,
            from <= v@.len(),
            pieces(s@, sep@) == texts(out@) + pieces_from(s@, sep@, from as int),
        decreases v@.len() - from,
    {
        match find_chars(&v, &p, from) {
            Some(i) => {
                let ghost before = out@;
                out.push(text_of(&v, from, i));
                proof {
                    assert(texts(out@) =~= texts(before) + seq![s@.subrange(from as int, i as int)]);
                    assert(pieces(s@, sep@) =~= texts(out@) + pieces_from(
                        s@,
                        sep@,
                        i + sep@.len(),
                    ));
                }
                from = i + p.len();
            },
            None => {
                let ghost before = out@;
                out.push(text_of(&v, from, v.len()));
                assert(texts(out@) =~= texts(before) + seq![tail(s@, from as int)]);
                assert(texts(out@) =~= pieces(s@, sep@));
                return out;
            },
        }
    }
}

/// The texts of `parts` in order, with `sep` between each two of them.
pub fn join(parts: &Vec<String>, sep: &str) -> (r: String)
    ensures
        r@ == joined(texts(parts@), sep@),
{
    let mut out = String::new();
    let mut i: usize = 0;
    while i < parts.len()
        invariant
            i <= parts@.len(),
            out@ == joined(texts(parts@).subrange(0, i as int), sep@),
        decreases parts@.len() - i,
    {
        if i > 0 {
            out.append(sep);
        }
        out.append(parts[i].as_str());
        i = i + 1;
        proof {
            let now = texts(parts@).subrange(0, i as int);
            assert(now.drop_last() =~= texts(parts@).subrange(0, i - 1));
            assert(now.last() == parts@[i - 1]@);
            assert(out@ =~= joined(now, sep@));
        }
    }
    assert(texts(parts@).subrange(0, i as int) =~= texts(parts@));
    out
}

/// Whether `a` stands before `b`.
pub fn text_less(a: &str, b: &str) -> (r: bool)
    ensures
        r == text_lt(a@, b@),
{
    let x = chars_of(a);
    let y = chars_of(b);
    let mut i: usize = 0;
    assert(tail(x@, 0) =~= x@);
    assert(tail(y@, 0) =~= y@);
    loop
        invariant
            x@ == a@,
            y@ == b@,
            i <= x@.len(),
            i <= y@.len(),
            text_lt(a@, b@) == text_lt(tail(x@, i as int), tail(y@, i as int)),
        decreases x@.len() - i,
    {
        if i >= y.len() {
            return false;
        }
        if i >= x.len() {
            return true;
        }
        if x[i] != y[i] {
            return x[i] < y[i];
        }
        assert(tail(x@, i as int).drop_first() =~= tail(x@, i + 1));
        assert(tail(y@, i as int).drop_first() =~= tail(y@, i + 1));
        i = i + 1;
    }
}

/// The end of the run of ASCII digits that starts at `i`.
fn skip_digits(v: &Vec<char>, i: usize) -> (r: usize)
    requires
        i <= v@.len(),
    ensures
        r == digit_run(v@, i as int),
        i <= r <= v.len(),
{
    let mut k: usize = i;
    while k < v.len() && v[k] >= '0' && v[k] <= '9'
        invariant
            i <= k <= v.len(),
            digit_run(v@, i as int) == digit_run(v@, k as int),
        decreases v@.len() - k,
    {
        k = k + 1;
    }
    k
}

/// The position behind an optional sign at `i`.
fn skip_sign(v: &Vec<char>, i: usize) -> (r: usize)
    requires
        i <= v@.len(),
    ensures
        r == behind_sign(v@, i as int),
        i <= r <= v.len(),
{
    if i < v.len() && (v[i] == '+' || v[i] == '-') {
        i + 1
    } else {
        i
    }
}

/// Whether `c` is `lower` without regard to ASCII case.
fn same_letter(c: char, lower: char) -> (r: bool)
    requires
        'a' <= lower && lower <= 'z',
    ensures
        r == (ascii_lower(c) == lower),
{
    if c >= 'A' && c <= 'Z' {
        (c as u32) + 32 == lower as u32
    } else {
        c == lower
    }
}

/// Whether `v` is `word` from position `i` on, without regard to ASCII case.
fn word_at(v: &Vec<char>, i: usize, word: &Vec<char>) -> (r: bool)
    requires
        i <= v@.len(),
        forall|k: int| 0 <= k < word@.len() ==> 'a' <= #[trigger] word@[k] && word@[k] <= 'z',
    ensures
        r == is_word_at(v@, i as int, word@),
{
    if v.len() - i != word.len() {
        return false;
    }
    let mut k: usize = 0;
    while k < word.len()
        invariant
            k <= word@.len(),
            v.len() == i + word.len(),
            forall|j: int|
                0 <= j < word@.len() ==> 'a' <= #[trigger] word@[j] && word@[j] <= 'z',
            forall|j: int| 0 <= j < k ==> ascii_lower(#[trigger] v@[i + j]) == word@[j],
        decreases word@.len() - k,
    {
        if !same_letter(v[i + k], word[k]) {
            assert(ascii_lower(v@[i + k]) != word@[k as int]);
            return false;
        }
        k = k + 1;
    }
    true
}

/// Whether `s` writes a binary64 number.
pub fn writes_float(s: &str) -> (r: bool)
    ensures
        r == is_float_text(s@),
{
    let v = chars_of(s);
    let i = skip_sign(&v, 0);
    let inf: Vec<char> = vec!['i', 'n', 'f'];
    let infinity: Vec<char> = vec!['i', 'n', 'f', 'i', 'n', 'i', 't', 'y'];
    let nan: Vec<char> = vec!['n', 'a', 'n'];
    proof {
        assert(inf@ =~= seq!['i', 'n', 'f']);
        assert(infinity@ =~= seq!['i', 'n', 'f', 'i', 'n', 'i', 't', 'y']);
        assert(nan@ =~= seq!['n', 'a', 'n']);
    }
    if word_at(&v, i, &inf) || word_at(&v, i, &infinity) || word_at(&v, i, &nan) {
        return true;
    }
    let a = skip_digits(&v, i);
    let mut any: bool = a > i;
    let mut end: usize = a;
    if a < v.len() && v[a] == '.' {
        end = skip_digits(&v, a + 1);
        if end > a + 1 {
            any = true;
        }
    }
    if !any {
        return false;
    }
    if end == v.len() {
        return true;
    }
    if v[end] != 'e' && v[end] != 'E' {
        return false;
    }
    let e = skip_sign(&v, end + 1);
    e < v.len() && skip_digits(&v, e) == v.len()
}

/// The decimal digits of `n`.
pub fn u64_text(n: u64) -> (r: String)
    ensures
        r@ == digits(n as nat),
    decreases n,
{
    if n < 10 {
        let mut s = String::new();
        s.push((48u8 + n as u8) as char);
        assert(s@ =~= digits(n as nat));
        s
    } else {
        let mut s = u64_text(n / 10);
        s.push((48u8 + (n % 10) as u8) as char);
        s
    }
}

// ---------------------------------------------------------------------------
// White space and case
// ---------------------------------------------------------------------------

/// The character is white space: it has the Unicode property `White_Space`.
pub open spec fn is_white(c: char) -> bool {
    let n = c as u32;
    ||| 0x09 <= n <= 0x0d
    ||| n == 0x20
    ||| n == 0x85
    ||| n == 0xa0
    ||| n == 0x1680
    ||| 0x2000 <= n <= 0x200a
    ||| n == 0x2028
    ||| n == 0x2029
    ||| n == 0x202f
    ||| n == 0x205f
    ||| n == 0x3000
}

/// Whether the character is white space.
pub fn is_whitespace(c: char) -> (r: bool)
    ensures
        r == is_white(c),
{
    let n: u32 = c as u32;
    (0x09 <= n && n <= 0x0d) || n == 0x20 || n == 0x85 || n == 0xa0 || n == 0x1680 || (0x2000 <= n
        && n <= 0x200a) || n == 0x2028 || n == 0x2029 || n == 0x202f || n == 0x205f || n == 0x3000
}

/// The text with its ASCII letters in lower case.
pub open spec fn ascii_lowered(s: Seq<char>) -> Seq<char> {
    s.map_values(|c: char| ascii_lower(c))
}

/// The text with its ASCII letters in lower case.
pub fn ascii_lowercase(s: &str) -> (r: String)
    ensures
        r@ == ascii_lowered(s@),
{
    let chars = chars_of(s);
    let mut out = String::new();
    for i in 0..chars.len()
        invariant
            chars@ == s@,
            out@ == ascii_lowered(s@.subrange(0, i as int)),
    {
        let c = chars[i];
        let lower: char = if 'A' <= c && c <= 'Z' {
            let n: u8 = c as u8;
            (n + 32) as char
        } else {
            c
        };
        out.push(lower);
        assert(out@ =~= ascii_lowered(s@.subrange(0, i + 1)));
    }
    assert(s@.subrange(0, s@.len() as int) =~= s@);
    out
}

} // verus!
