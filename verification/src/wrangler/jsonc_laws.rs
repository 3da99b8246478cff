//! What holds of JSON with comments and trailing commas.

use vstd::prelude::*;

use crate::wrangler::jsonc::stripped_text;
use crate::wrangler::jsonc::uncommaed;
use crate::wrangler::jsonc::uncommented;
use crate::wrangler::jsonc::JsoncState;

verus! {

/// The text has none of the characters that start strings and comments.
pub open spec fn starts_nothing(s: Seq<char>) -> bool {
    forall|i: int| 0 <= i < s.len() ==> #[trigger] s[i] != '"' && s[i] != '/'
}

/// The text has none of the characters that end and escape in strings.
pub open spec fn simple_string(s: Seq<char>) -> bool {
    forall|i: int| 0 <= i < s.len() ==> #[trigger] s[i] != '"' && s[i] != '\\'
}

/// The text has no end of a line.
pub open spec fn one_line(s: Seq<char>) -> bool {
    forall|i: int| 0 <= i < s.len() ==> #[trigger] s[i] != '\n'
}

/// The text is white space.
pub open spec fn is_space(s: Seq<char>) -> bool {
    forall|i: int| 0 <= i < s.len() ==> crate::text::is_white(#[trigger] s[i])
}

proof fn lemma_front_stays(a: Seq<char>, rest: Seq<char>)
    requires
        starts_nothing(a),
    ensures
        uncommented(a + rest, JsoncState::Plain) == a + uncommented(rest, JsoncState::Plain),
    decreases a.len(),
{
    if a.len() == 0 {
        assert(a + rest =~= rest);
        assert(a + uncommented(rest, JsoncState::Plain) =~= uncommented(rest, JsoncState::Plain));
    } else {
        let t = a.drop_first();
        assert forall|i: int| 0 <= i < t.len() implies #[trigger] t[i] != '"' && t[i] != '/' by {
            assert(t[i] == a[i + 1]);
        }
        lemma_front_stays(t, rest);
        assert((a + rest).drop_first() =~= t + rest);
        assert((a + rest)[0] == a[0]);
        assert(seq![a[0]] + (t + uncommented(rest, JsoncState::Plain)) =~= a + uncommented(
            rest,
            JsoncState::Plain,
        ));
    }
}

proof fn lemma_line_goes(c: Seq<char>, rest: Seq<char>)
    requires
        one_line(c),
    ensures
        uncommented(c + seq!['\n'] + rest, JsoncState::LineComment) == seq!['\n'] + uncommented(
            rest,
            JsoncState::Plain,
        ),
    decreases c.len(),
{
    let s = c + seq!['\n'] + rest;
    if c.len() == 0 {
        assert(s[0] == '\n');
        assert(s.drop_first() =~= rest);
    } else {
        let t = c.drop_first();
        assert forall|i: int| 0 <= i < t.len() implies #[trigger] t[i] != '\n' by {
            assert(t[i] == c[i + 1]);
        }
        lemma_line_goes(t, rest);
        assert(s[0] == c[0]);
        assert(s.drop_first() =~= t + seq!['\n'] + rest);
    }
}

/// A comment behind two slashes goes, up to the end of its line, which stays.
pub proof fn law_line_comments_go(a: Seq<char>, c: Seq<char>, rest: Seq<char>)
    requires
        starts_nothing(a),
        one_line(c),
    ensures
        uncommented(a + seq!['/', '/'] + c + seq!['\n'] + rest, JsoncState::Plain) == a + (
        seq!['\n'] + uncommented(rest, JsoncState::Plain)),
{
    let b = seq!['/', '/'] + c + seq!['\n'] + rest;
    assert(a + seq!['/', '/'] + c + seq!['\n'] + rest =~= a + b);
    lemma_front_stays(a, b);
    assert(b[0] == '/');
    assert(b.drop_first()[0] == '/');
    assert(b.drop_first().drop_first() =~= c + seq!['\n'] + rest);
    lemma_line_goes(c, rest);
}

proof fn lemma_block_goes(c: Seq<char>, rest: Seq<char>)
    requires
        forall|k: int| 0 <= k < c.len() - 1 ==> !(#[trigger] c[k] == '*' && c[k + 1] == '/'),
    ensures
        uncommented(c + seq!['*', '/'] + rest, JsoncState::BlockComment) == uncommented(
            rest,
            JsoncState::Plain,
        ),
    decreases c.len(),
{
    let s = c + seq!['*', '/'] + rest;
    if c.len() == 0 {
        assert(s[0] == '*');
        assert(s.drop_first()[0] == '/');
        assert(s.drop_first().drop_first() =~= rest);
    } else {
        let t = c.drop_first();
        assert forall|k: int| 0 <= k < t.len() - 1 implies !(#[trigger] t[k] == '*' && t[k + 1]
            == '/') by {
            assert(t[k] == c[k + 1]);
            assert(t[k + 1] == c[k + 2]);
        }
        lemma_block_goes(t, rest);
        assert(s[0] == c[0]);
        assert(s.drop_first() =~= t + seq!['*', '/'] + rest);
        if c.len() > 1 {
            assert(s.drop_first()[0] == c[1]);
            assert(!(c[0] == '*' && c[1] == '/'));
        } else {
            assert(s.drop_first()[0] == '*');
        }
    }
}

/// A comment behind a slash and an asterisk goes, up to the first asterisk and
/// slash, which go too.
pub proof fn law_block_comments_go(a: Seq<char>, c: Seq<char>, rest: Seq<char>)
    requires
        starts_nothing(a),
        forall|k: int| 0 <= k < c.len() - 1 ==> !(#[trigger] c[k] == '*' && c[k + 1] == '/'),
    ensures
        uncommented(a + seq!['/', '*'] + c + seq!['*', '/'] + rest, JsoncState::Plain) == a
            + uncommented(rest, JsoncState::Plain),
{
    let b = seq!['/', '*'] + c + seq!['*', '/'] + rest;
    assert(a + seq!['/', '*'] + c + seq!['*', '/'] + rest =~= a + b);
    lemma_front_stays(a, b);
    assert(b[0] == '/');
    assert(b.drop_first()[0] == '*');
    assert(b.drop_first().drop_first() =~= c + seq!['*', '/'] + rest);
    lemma_block_goes(c, rest);
}

proof fn lemma_quoted_stays(s: Seq<char>, rest: Seq<char>)
    requires
        simple_string(s),
    ensures
        uncommented(s + seq!['"'] + rest, JsoncState::Quoted) == s + seq!['"'] + uncommented(
            rest,
            JsoncState::Plain,
        ),
    decreases s.len(),
{
    let all = s + seq!['"'] + rest;
    let end = uncommented(rest, JsoncState::Plain);
    if s.len() == 0 {
        assert(all[0] == '"');
        assert(all.drop_first() =~= rest);
        assert(seq!['"'] + end =~= s + seq!['"'] + end);
    } else {
        let t = s.drop_first();
        assert forall|i: int| 0 <= i < t.len() implies #[trigger] t[i] != '"' && t[i] != '\\' by {
            assert(t[i] == s[i + 1]);
        }
        lemma_quoted_stays(t, rest);
        assert(all[0] == s[0]);
        assert(all.drop_first() =~= t + seq!['"'] + rest);
        assert(seq![s[0]] + (t + seq!['"'] + end) =~= s + seq!['"'] + end);
    }
}

/// A string stays as it is, whatever slashes it holds, and what follows it is read
/// outside of strings. An escaped character does not end a string.
pub proof fn law_strings_stay(s: Seq<char>, rest: Seq<char>, c: char)
    requires
        simple_string(s),
    ensures
        uncommented(seq!['"'] + s + seq!['"'] + rest, JsoncState::Plain) == seq!['"'] + s + seq![
            '"',
        ] + uncommented(rest, JsoncState::Plain),
        uncommented(seq!['\\', c] + rest, JsoncState::Quoted) == seq!['\\', c] + uncommented(
            rest,
            JsoncState::Quoted,
        ),
{
    let all = seq!['"'] + s + seq!['"'] + rest;
    let end = uncommented(rest, JsoncState::Plain);
    assert(all[0] == '"');
    assert(all.drop_first() =~= s + seq!['"'] + rest);
    lemma_quoted_stays(s, rest);
    assert(seq!['"'] + (s + seq!['"'] + end) =~= seq!['"'] + s + seq!['"'] + end);
    let e = seq!['\\', c] + rest;
    assert(e[0] == '\\');
    assert(e.drop_first()[0] == c);
    assert(e.drop_first().drop_first() =~= rest);
    let q = uncommented(rest, JsoncState::Quoted);
    assert(uncommented(e.drop_first(), JsoncState::Escaped) == seq![c] + q);
    assert(seq!['\\'] + (seq![c] + q) =~= seq!['\\', c] + q);
}

proof fn lemma_uncommaed_push(s: Seq<char>, c: char)
    ensures
        uncommaed(s.push(c)) == ({
            let (out, state) = uncommaed(s);
            match state {
                JsoncState::Quoted => (out.push(c), crate::wrangler::jsonc::behind_quoted(c)),
                JsoncState::Escaped => (out.push(c), JsoncState::Quoted),
                _ => if c == '"' {
                    (out.push(c), JsoncState::Quoted)
                } else if c == '}' || c == ']' {
                    (
                        crate::wrangler::jsonc::without_last_comma(out).push(c),
                        JsoncState::Plain,
                    )
                } else {
                    (out.push(c), JsoncState::Plain)
                },
            }
        }),
{
    assert(s.push(c).drop_last() =~= s);
    assert(s.push(c).last() == c);
}

proof fn lemma_space_stays(a: Seq<char>, w: Seq<char>)
    requires
        uncommaed(a).1 == JsoncState::Plain,
        is_space(w),
    ensures
        uncommaed(a + w) == (uncommaed(a).0 + w, JsoncState::Plain),
    decreases w.len(),
{
    if w.len() == 0 {
        assert(a + w =~= a);
        assert(uncommaed(a).0 + w =~= uncommaed(a).0);
    } else {
        let t = w.drop_last();
        assert forall|i: int| 0 <= i < t.len() implies crate::text::is_white(#[trigger] t[i]) by {
            assert(t[i] == w[i]);
        }
        lemma_space_stays(a, t);
        assert(crate::text::is_white(w[w.len() - 1]));
        assert(a + w =~= (a + t).push(w.last()));
        lemma_uncommaed_push(a + t, w.last());
        assert((uncommaed(a).0 + t).push(w.last()) =~= uncommaed(a).0 + w);
    }
}

proof fn lemma_trims_space(x: Seq<char>, w: Seq<char>)
    requires
        is_space(w),
        x.len() > 0,
        !crate::text::is_white(x.last()),
    ensures
        crate::wrangler::jsonc::trimmed_len(x + w) == x.len(),
    decreases w.len(),
{
    if w.len() == 0 {
        assert(x + w =~= x);
    } else {
        let t = w.drop_last();
        assert forall|i: int| 0 <= i < t.len() implies crate::text::is_white(#[trigger] t[i]) by {
            assert(t[i] == w[i]);
        }
        lemma_trims_space(x, t);
        assert(crate::text::is_white(w[w.len() - 1]));
        assert((x + w).last() == w[w.len() - 1]);
        assert((x + w).drop_last() =~= x + t);
    }
}

/// A comma before a closing bracket goes, with only white space between them, which
/// stays.
pub proof fn law_trailing_commas_go(a: Seq<char>, w: Seq<char>, bracket: char)
    requires
        uncommaed(a).1 == JsoncState::Plain,
        is_space(w),
        bracket == '}' || bracket == ']',
    ensures
        uncommaed(a + seq![','] + w + seq![bracket]) == (
            uncommaed(a).0 + w + seq![bracket],
            JsoncState::Plain,
        ),
{
    let out = uncommaed(a).0;
    lemma_uncommaed_push(a, ',');
    assert(a + seq![','] =~= a.push(','));
    lemma_space_stays(a.push(','), w);
    let b = a + seq![','] + w;
    assert(b =~= a.push(',') + w);
    lemma_uncommaed_push(b, bracket);
    assert(b + seq![bracket] =~= b.push(bracket));
    let held = out.push(',') + w;
    lemma_trims_space(out.push(','), w);
    let n = out.push(',').len() as int;
    assert(held[n - 1] == ',');
    assert(held.subrange(0, n - 1) + held.subrange(n, held.len() as int) =~= out + w);
    assert((out + w).push(bracket) =~= out + w + seq![bracket]);
}

/// Without a comma before it, a closing bracket takes nothing away.
pub proof fn law_other_characters_stay(a: Seq<char>, x: char, w: Seq<char>, bracket: char)
    requires
        uncommaed(a).1 == JsoncState::Plain,
        x != ',' && x != '"' && x != '}' && x != ']',
        !crate::text::is_white(x),
        is_space(w),
        bracket == '}' || bracket == ']',
    ensures
        uncommaed(a + seq![x] + w + seq![bracket]) == (
            uncommaed(a).0 + seq![x] + w + seq![bracket],
            JsoncState::Plain,
        ),
{
    let out = uncommaed(a).0;
    lemma_uncommaed_push(a, x);
    assert(a + seq![x] =~= a.push(x));
    lemma_space_stays(a.push(x), w);
    let b = a + seq![x] + w;
    assert(b =~= a.push(x) + w);
    lemma_uncommaed_push(b, bracket);
    assert(b + seq![bracket] =~= b.push(bracket));
    lemma_trims_space(out.push(x), w);
    assert((out.push(x) + w)[out.len() as int] == x);
    assert((out.push(x) + w).push(bracket) =~= out + seq![x] + w + seq![bracket]);
}

proof fn lemma_string_kept(a: Seq<char>, s: Seq<char>)
    requires
        uncommaed(a).1 == JsoncState::Quoted,
        simple_string(s),
    ensures
        uncommaed(a + s) == (uncommaed(a).0 + s, JsoncState::Quoted),
    decreases s.len(),
{
    if s.len() == 0 {
        assert(a + s =~= a);
        assert(uncommaed(a).0 + s =~= uncommaed(a).0);
    } else {
        let t = s.drop_last();
        assert forall|i: int| 0 <= i < t.len() implies #[trigger] t[i] != '"' && t[i] != '\\' by {
            assert(t[i] == s[i]);
        }
        lemma_string_kept(a, t);
        assert(s[s.len() - 1] != '"');
        assert(a + s =~= (a + t).push(s.last()));
        lemma_uncommaed_push(a + t, s.last());
        assert((uncommaed(a).0 + t).push(s.last()) =~= uncommaed(a).0 + s);
    }
}

/// A string keeps its commas, whatever brackets it holds.
pub proof fn law_strings_keep_commas(a: Seq<char>, s: Seq<char>)
    requires
        uncommaed(a).1 == JsoncState::Plain,
        simple_string(s),
    ensures
        uncommaed(a + seq!['"'] + s + seq!['"']) == (
            uncommaed(a).0 + seq!['"'] + s + seq!['"'],
            JsoncState::Plain,
        ),
{
    lemma_uncommaed_push(a, '"');
    assert(a + seq!['"'] =~= a.push('"'));
    lemma_string_kept(a.push('"'), s);
    let b = a + seq!['"'] + s;
    assert(b =~= a.push('"') + s);
    lemma_uncommaed_push(b, '"');
    assert(b + seq!['"'] =~= b.push('"'));
    assert((uncommaed(a).0.push('"') + s).push('"') =~= uncommaed(a).0 + seq!['"'] + s + seq![
        '"',
    ]);
}

proof fn lemma_state_plain(a: Seq<char>)
    requires
        forall|i: int| 0 <= i < a.len() ==> #[trigger] a[i] != '"' && a[i] != '}' && a[i] != ']',
    ensures
        uncommaed(a) == (a, JsoncState::Plain),
    decreases a.len(),
{
    if a.len() > 0 {
        let t = a.drop_last();
        assert forall|i: int| 0 <= i < t.len() implies #[trigger] t[i] != '"' && t[i] != '}'
            && t[i] != ']' by {
            assert(t[i] == a[i]);
        }
        lemma_state_plain(t);
        assert(a[a.len() - 1] == a.last());
        assert(t.push(a.last()) =~= a);
    } else {
        assert(a =~= Seq::empty());
    }
}

/// Comments go first: a comma goes also where a comment stands between it and the
/// closing bracket.
pub proof fn law_comments_hide_no_comma(a: Seq<char>, c: Seq<char>, bracket: char)
    requires
        starts_nothing(a),
        forall|i: int| 0 <= i < a.len() ==> #[trigger] a[i] != '}' && a[i] != ']',
        one_line(c),
        bracket == '}' || bracket == ']',
    ensures
        stripped_text(a + seq![','] + seq!['/', '/'] + c + seq!['\n'] + seq![bracket]) == a + seq![
            '\n',
        ] + seq![bracket],
{
    let front = a + seq![','];
    assert forall|i: int| 0 <= i < front.len() implies #[trigger] front[i] != '"' && front[i]
        != '/' by {
        if i < a.len() {
            assert(front[i] == a[i]);
        }
    }
    law_line_comments_go(front, c, seq![bracket]);
    let rest = seq![bracket];
    assert(rest.drop_first() =~= Seq::empty());
    assert(uncommented(Seq::<char>::empty(), JsoncState::Plain) =~= Seq::<char>::empty());
    assert(rest[0] == bracket);
    assert(uncommented(rest, JsoncState::Plain) =~= rest);
    let w = seq!['\n'];
    assert(is_space(w));
    assert forall|i: int| 0 <= i < a.len() implies #[trigger] a[i] != '"' && a[i] != '}' && a[i]
        != ']' by {}
    lemma_state_plain(a);
    law_trailing_commas_go(a, w, bracket);
    assert(front + (w + rest) =~= a + seq![','] + w + rest);
}

} // verus!
