//! JSON with comments and trailing commas.

use vstd::prelude::*;

use crate::text::chars_of;
use crate::text::is_whitespace;
use crate::text::text_of;

verus! {

// ---------------------------------------------------------------------------
// Comments
// ---------------------------------------------------------------------------

/// Where a position of a text stands.
#[derive(Debug, Clone, Copy, PartialEq, Eq, Structural)]
pub enum JsoncState {
    /// Neither in a string nor in a comment.
    Plain,
    /// In a string.
    Quoted,
    /// In a string, behind a backslash.
    Escaped,
    /// In a comment that ends with the line.
    LineComment,
    /// In a comment that ends with an asterisk and a slash.
    BlockComment,
}

/// Where the position behind the character `c` of a string stands.
pub open spec fn behind_quoted(c: char) -> JsoncState {
    if c == '\\' {
        JsoncState::Escaped
    } else if c == '"' {
        JsoncState::Plain
    } else {
        JsoncState::Quoted
    }
}

/// The text without its comments. The end of a line stays when the comment
/// before it goes.
pub open spec fn uncommented(s: Seq<char>, state: JsoncState) -> Seq<char>
    decreases s.len(),
{
    if s.len() == 0 {
        Seq::empty()
    } else {
        let c = s[0];
        let rest = s.drop_first();
        match state {
            JsoncState::LineComment => if c == '\n' {
                seq![c] + uncommented(rest, JsoncState::Plain)
            } else {
                uncommented(rest, JsoncState::LineComment)
            },
            JsoncState::BlockComment => if c == '*' && rest.len() > 0 && rest[0] == '/' {
                uncommented(rest.drop_first(), JsoncState::Plain)
            } else {
                uncommented(rest, JsoncState::BlockComment)
            },
            JsoncState::Quoted => seq![c] + uncommented(rest, behind_quoted(c)),
            JsoncState::Escaped => seq![c] + uncommented(rest, JsoncState::Quoted),
            JsoncState::Plain => if c == '"' {
                seq![c] + uncommented(rest, JsoncState::Quoted)
            } else if c == '/' && rest.len() > 0 && rest[0] == '/' {
                uncommented(rest.drop_first(), JsoncState::LineComment)
            } else if c == '/' && rest.len() > 0 && rest[0] == '*' {
                uncommented(rest.drop_first(), JsoncState::BlockComment)
            } else {
                seq![c] + uncommented(rest, JsoncState::Plain)
            },
        }
    }
}

/// The text without its comments.
pub fn strip_jsonc_comments(input: &str) -> (r: String)
    ensures
        r@ == uncommented(input@, JsoncState::Plain),
{
    let chars = chars_of(input);
    let mut out: Vec<char> = Vec::new();
    let mut state = JsoncState::Plain;
    let mut i: usize = 0;
    let ghost all = input@;
    assert(all.subrange(0, all.len() as int) =~= all);
    while i < chars.len()
        invariant
            i <= chars@.len(),
            chars@ == all,
            out@ + uncommented(all.subrange(i as int, all.len() as int), state) == uncommented(
                all,
                JsoncState::Plain,
            ),
        decreases chars@.len() - i,
    {
        let c = chars[i];
        let ghost now = all.subrange(i as int, all.len() as int);
        let ghost rest = all.subrange(i + 1, all.len() as int);
        let ghost before = out@;
        proof {
            assert(now[0] == c);
            assert(now.drop_first() =~= rest);
            if i + 1 < all.len() {
                assert(rest[0] == all[i + 1]);
                assert(rest.drop_first() =~= all.subrange(i + 2, all.len() as int));
            }
        }
        let next_slash: bool = i + 1 < chars.len() && chars[i + 1] == '/';
        let next_star: bool = i + 1 < chars.len() && chars[i + 1] == '*';
        match state {
            JsoncState::LineComment => {
                if c == '\n' {
                    state = JsoncState::Plain;
                    out.push(c);
                }
            },
            JsoncState::BlockComment => {
                if c == '*' && next_slash {
                    i = i + 1;
                    state = JsoncState::Plain;
                }
            },
            JsoncState::Quoted => {
                out.push(c);
                state = if c == '\\' {
                    JsoncState::Escaped
                } else if c == '"' {
                    JsoncState::Plain
                } else {
                    JsoncState::Quoted
                };
            },
            JsoncState::Escaped => {
                out.push(c);
                state = JsoncState::Quoted;
            },
            JsoncState::Plain => {
                if c == '"' {
                    state = JsoncState::Quoted;
                    out.push(c);
                } else if c == '/' && next_slash {
                    i = i + 1;
                    state = JsoncState::LineComment;
                } else if c == '/' && next_star {
                    i = i + 1;
                    state = JsoncState::BlockComment;
                } else {
                    out.push(c);
                }
            },
        }
        i = i + 1;
        proof {
            let left = uncommented(all.subrange(i as int, all.len() as int), state);
            if out@ != before {
                assert(out@ + left =~= before + (seq![c] + left));
            }
        }
    }
    assert(all.subrange(i as int, all.len() as int) =~= Seq::empty());
    assert(out@ + Seq::<char>::empty() =~= out@);
    let n: usize = out.len();
    let r = text_of(&out, 0, n);
    assert(out@.subrange(0, n as int) =~= out@);
    r
}

// ---------------------------------------------------------------------------
// Trailing commas
// ---------------------------------------------------------------------------

/// The end of a text without the white space at its end.
pub open spec fn trimmed_len(s: Seq<char>) -> nat
    decreases s.len(),
{
    if s.len() > 0 && crate::text::is_white(s.last()) {
        trimmed_len(s.drop_last())
    } else {
        s.len()
    }
}

/// The text without the comma at its end, where only white space follows it.
pub open spec fn without_last_comma(s: Seq<char>) -> Seq<char> {
    let n = trimmed_len(s) as int;
    if n > 0 && s[n - 1] == ',' {
        s.subrange(0, n - 1) + s.subrange(n, s.len() as int)
    } else {
        s
    }
}

/// The text without a comma before each closing bracket, and where its end
/// stands.
pub open spec fn uncommaed(s: Seq<char>) -> (Seq<char>, JsoncState)
    decreases s.len(),
{
    if s.len() == 0 {
        (Seq::empty(), JsoncState::Plain)
    } else {
        let (out, state) = uncommaed(s.drop_last());
        let c = s.last();
        match state {
            JsoncState::Quoted => (out.push(c), behind_quoted(c)),
            JsoncState::Escaped => (out.push(c), JsoncState::Quoted),
            _ => if c == '"' {
                (out.push(c), JsoncState::Quoted)
            } else if c == '}' || c == ']' {
                (without_last_comma(out).push(c), JsoncState::Plain)
            } else {
                (out.push(c), JsoncState::Plain)
            },
        }
    }
}

/// The white space at the end of a text begins where it is trimmed.
proof fn lemma_trimmed(s: Seq<char>, n: int)
    requires
        0 <= n <= s.len(),
        forall|i: int| n <= i < s.len() ==> crate::text::is_white(#[trigger] s[i]),
        n > 0 ==> !crate::text::is_white(s[n - 1]),
    ensures
        trimmed_len(s) == n,
    decreases s.len(),
{
    if s.len() > n {
        assert(crate::text::is_white(s[s.len() - 1]));
        lemma_trimmed(s.drop_last(), n);
    }
}

/// Takes the comma off the end of a text, where only white space follows it.
fn drop_last_comma(out: &mut Vec<char>)
    ensures
        final(out)@ == without_last_comma(old(out)@),
{
    let ghost s = out@;
    let mut n: usize = out.len();
    while n > 0 && is_whitespace(out[n - 1])
        invariant
            n <= out@.len(),
            out@ == s,
            forall|i: int| n <= i < out@.len() ==> crate::text::is_white(#[trigger] out@[i]),
        decreases n,
    {
        n = n - 1;
    }
    proof {
        lemma_trimmed(s, n as int);
    }
    if n > 0 && out[n - 1] == ',' {
        let _ = out.remove(n - 1);
        assert(out@ =~= without_last_comma(s));
    }
}

/// The text without a comma before each closing bracket.
pub fn strip_trailing_commas(input: &str) -> (r: String)
    ensures
        r@ == uncommaed(input@).0,
{
    let chars = chars_of(input);
    let mut out: Vec<char> = Vec::new();
    let mut state = JsoncState::Plain;
    let ghost all = input@;
    assert(all.subrange(0, 0) =~= Seq::empty());
    for i in 0..chars.len()
        invariant
            chars@ == all,
            uncommaed(all.subrange(0, i as int)) == (out@, state),
    {
        proof {
            let now = all.subrange(0, i + 1);
            assert(now.drop_last() =~= all.subrange(0, i as int));
            assert(now.last() == chars@[i as int]);
        }
        let c = chars[i];
        match state {
            JsoncState::Quoted => {
                out.push(c);
                state = if c == '\\' {
                    JsoncState::Escaped
                } else if c == '"' {
                    JsoncState::Plain
                } else {
                    JsoncState::Quoted
                };
            },
            JsoncState::Escaped => {
                out.push(c);
                state = JsoncState::Quoted;
            },
            _ => {
                if c == '"' {
                    state = JsoncState::Quoted;
                } else {
                    if c == '}' || c == ']' {
                        drop_last_comma(&mut out);
                    }
                    state = JsoncState::Plain;
                }
                out.push(c);
            },
        }
    }
    assert(all.subrange(0, all.len() as int) =~= all);
    let n: usize = out.len();
    let r = text_of(&out, 0, n);
    assert(out@.subrange(0, n as int) =~= out@);
    r
}

/// The plain JSON text: without comments, and then without trailing commas.
pub open spec fn stripped_text(s: Seq<char>) -> Seq<char> {
    uncommaed(uncommented(s, JsoncState::Plain)).0
}

/// The plain JSON that stands in a text: the text without comments, and
/// without the commas that stood before a closing bracket once they were gone.
pub fn plain_json(input: &str) -> (r: String)
    ensures
        r@ == stripped_text(input@),
{
    strip_trailing_commas(strip_jsonc_comments(input).as_str())
}

// ---------------------------------------------------------------------------
// Laws
// ---------------------------------------------------------------------------

/// Where the position behind a comment stands.
pub open spec fn outside_comment(state: JsoncState) -> JsoncState {
    match state {
        JsoncState::LineComment => JsoncState::Plain,
        JsoncState::BlockComment => JsoncState::Plain,
        _ => state,
    }
}

/// A text without comments has none to take out.
pub proof fn law_comments_go_at_once(s: Seq<char>, state: JsoncState)
    ensures
        uncommented(uncommented(s, state), outside_comment(state)) == uncommented(s, state),
    decreases s.len(),
{
    if s.len() > 0 {
        let c = s[0];
        let rest = s.drop_first();
        let after = match state {
            JsoncState::LineComment => if c == '\n' {
                JsoncState::Plain
            } else {
                JsoncState::LineComment
            },
            JsoncState::BlockComment => JsoncState::BlockComment,
            JsoncState::Quoted => behind_quoted(c),
            JsoncState::Escaped => JsoncState::Quoted,
            JsoncState::Plain => if c == '"' {
                JsoncState::Quoted
            } else {
                JsoncState::Plain
            },
        };
        law_comments_go_at_once(rest, after);
        if rest.len() > 0 {
            law_comments_go_at_once(rest.drop_first(), JsoncState::Plain);
            law_comments_go_at_once(rest.drop_first(), JsoncState::LineComment);
            law_comments_go_at_once(rest.drop_first(), JsoncState::BlockComment);
        }
        let tail = uncommented(rest, after);
        let kept = seq![c] + tail;
        assert(kept.drop_first() =~= tail);
        if state == JsoncState::Plain && c == '/' && rest.len() > 0 {
            let d = rest[0];
            if d != '/' && d != '*' {
                assert(tail[0] == d);
            }
        }
    }
}

/// A text without a slash has no comments.
pub proof fn law_no_slash_no_comment(s: Seq<char>)
    requires
        forall|i: int| 0 <= i < s.len() ==> #[trigger] s[i] != '/',
    ensures
        uncommented(s, JsoncState::Plain) == s,
{
    lemma_no_slash(s, JsoncState::Plain);
}

/// A text without a slash stays as it is, outside of comments.
proof fn lemma_no_slash(s: Seq<char>, state: JsoncState)
    requires
        forall|i: int| 0 <= i < s.len() ==> #[trigger] s[i] != '/',
        state == outside_comment(state),
    ensures
        uncommented(s, state) == s,
    decreases s.len(),
{
    if s.len() > 0 {
        let rest = s.drop_first();
        assert forall|i: int| 0 <= i < rest.len() implies #[trigger] rest[i] != '/' by {
            assert(s[i + 1] != '/');
        }
        assert(s[0] != '/');
        lemma_no_slash(rest, JsoncState::Plain);
        lemma_no_slash(rest, JsoncState::Quoted);
        lemma_no_slash(rest, JsoncState::Escaped);
        assert(seq![s[0]] + rest =~= s);
    }
}

/// The characters of a text that are no commas.
pub open spec fn no_commas(s: Seq<char>) -> Seq<char>
    decreases s.len(),
{
    if s.len() == 0 {
        Seq::empty()
    } else if s.last() == ',' {
        no_commas(s.drop_last())
    } else {
        no_commas(s.drop_last()).push(s.last())
    }
}

/// Only commas are taken out.
pub proof fn law_only_commas_go(s: Seq<char>)
    ensures
        no_commas(uncommaed(s).0) == no_commas(s),
        uncommaed(s).0.len() <= s.len(),
    decreases s.len(),
{
    if s.len() > 0 {
        law_only_commas_go(s.drop_last());
        let out = uncommaed(s.drop_last()).0;
        let c = s.last();
        lemma_without_comma(out);
        assert(out.push(c).drop_last() =~= out);
        assert(without_last_comma(out).push(c).drop_last() =~= without_last_comma(out));
    }
}

/// Taking a comma off keeps the other characters.
proof fn lemma_without_comma(s: Seq<char>)
    ensures
        no_commas(without_last_comma(s)) == no_commas(s),
        without_last_comma(s).len() <= s.len(),
{
    lemma_trimmed_bound(s);
    let n = trimmed_len(s) as int;
    if n > 0 && s[n - 1] == ',' {
        let a = s.subrange(0, n - 1);
        let b = s.subrange(n, s.len() as int);
        lemma_no_commas_joined(a, b);
        lemma_no_commas_joined(s.subrange(0, n), b);
        assert(s.subrange(0, n) + b =~= s);
        assert(s.subrange(0, n).drop_last() =~= a);
    }
}

/// A text is trimmed to no more than its length.
proof fn lemma_trimmed_bound(s: Seq<char>)
    ensures
        trimmed_len(s) <= s.len(),
    decreases s.len(),
{
    if s.len() > 0 {
        lemma_trimmed_bound(s.drop_last());
    }
}

/// The characters of joined texts.
proof fn lemma_no_commas_joined(a: Seq<char>, b: Seq<char>)
    ensures
        no_commas(a + b) == no_commas(a) + no_commas(b),
    decreases b.len(),
{
    if b.len() == 0 {
        assert(a + b =~= a);
        assert(no_commas(a) + no_commas(b) =~= no_commas(a));
    } else {
        lemma_no_commas_joined(a, b.drop_last());
        assert((a + b).drop_last() =~= a + b.drop_last());
        assert((a + b).last() == b.last());
        assert(no_commas(a + b) =~= no_commas(a) + no_commas(b));
    }
}

/// A text without brackets stays as it is.
pub proof fn law_no_bracket_no_change(s: Seq<char>)
    requires
        forall|i: int| 0 <= i < s.len() ==> #[trigger] s[i] != '}' && s[i] != ']',
    ensures
        uncommaed(s).0 == s,
    decreases s.len(),
{
    if s.len() > 0 {
        let front = s.drop_last();
        assert forall|i: int| 0 <= i < front.len() implies #[trigger] front[i] != '}' && front[i]
            != ']' by {
            assert(s[i] != '}');
        }
        law_no_bracket_no_change(front);
        assert(s[s.len() - 1] != '}');
        assert(front.push(s.last()) =~= s);
    }
}

} // verus!
