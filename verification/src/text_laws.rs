//! What holds of texts, and of the texts of numbers and booleans.

use vstd::prelude::*;

use crate::iac::bool_of_text;
use crate::text::ascii_lower;
use crate::text::ascii_lowered;
use crate::text::digit_run;
use crate::text::digits;
use crate::text::digits_value;
use crate::text::is_digit;
use crate::text::is_float_text;
use crate::text::split_at_char;
use crate::text::text_lt;
use crate::yaml::bool_text;
use crate::yaml::number_text;
use crate::yaml::scalar_text;
use crate::yaml::NumberView;
use crate::yaml::YamlView;

verus! {

// ---------------------------------------------------------------------------
// Numbers
// ---------------------------------------------------------------------------

/// The digits of a number write that number.
pub proof fn law_digits_write_the_number(n: nat)
    ensures
        digits_value(digits(n)) == Some(n),
        digits(n).len() > 0,
        forall|i: int| 0 <= i < digits(n).len() ==> is_digit(#[trigger] digits(n)[i]),
    decreases n,
{
    if n >= 10 {
        law_digits_write_the_number(n / 10);
        let d = digits(n);
        assert(d.drop_last() =~= digits(n / 10));
        assert forall|i: int| 0 <= i < d.len() implies is_digit(#[trigger] d[i]) by {
            if i < d.len() - 1 {
                assert(d[i] == digits(n / 10)[i]);
            }
        }
    }
}

/// Different integers have different texts: the digits, behind a sign where the
/// integer is negative.
pub proof fn law_integers_have_their_own_texts(a: i64, b: i64)
    ensures
        number_text(NumberView::NegInt(a)) == number_text(NumberView::NegInt(b)) ==> a == b,
        a < 0 ==> number_text(NumberView::NegInt(a))[0] == '-',
        a >= 0 ==> digits_value(number_text(NumberView::NegInt(a))) == Some(a as nat),
{
    let x: nat = if a < 0 {
        (-a) as nat
    } else {
        a as nat
    };
    let y: nat = if b < 0 {
        (-b) as nat
    } else {
        b as nat
    };
    law_digits_write_the_number(x);
    law_digits_write_the_number(y);
    let s = number_text(NumberView::NegInt(a));
    let t = number_text(NumberView::NegInt(b));
    assert(is_digit(digits(x)[0]));
    assert(is_digit(digits(y)[0]));
    if s == t && a < 0 && b < 0 {
        assert(s.drop_first() =~= digits(x));
        assert(t.drop_first() =~= digits(y));
    }
}

/// A natural number that is held as one is written by its digits.
pub proof fn law_natural_numbers_are_written(n: u64)
    ensures
        digits_value(number_text(NumberView::PosInt(n))) == Some(n as nat),
        scalar_text(YamlView::Number(NumberView::PosInt(n))) == Some(
            number_text(NumberView::PosInt(n)),
        ),
{
    law_digits_write_the_number(n as nat);
}

/// The text of a boolean names that boolean, and a string is its own text.
pub proof fn law_scalars_have_their_texts(b: bool, s: Seq<char>)
    ensures
        bool_of_text(bool_text(b)) == Some(b),
        scalar_text(YamlView::Bool(b)) == Some(bool_text(b)),
        scalar_text(YamlView::String(s)) == Some(s),
        scalar_text(YamlView::Null) is None,
{
    reveal_strlit("true");
    reveal_strlit("false");
    assert("true"@.len() == 4);
    assert("false"@.len() == 5);
}

/// The text is made of digits alone.
pub open spec fn all_digits(s: Seq<char>) -> bool {
    forall|i: int| 0 <= i < s.len() ==> is_digit(#[trigger] s[i])
}

proof fn lemma_digit_run(s: Seq<char>, i: int, e: int)
    requires
        0 <= i <= e <= s.len(),
        forall|k: int| i <= k < e ==> is_digit(#[trigger] s[k]),
        e == s.len() || !is_digit(s[e]),
    ensures
        digit_run(s, i) == e,
    decreases e - i,
{
    if i < e {
        assert(is_digit(s[i]));
        lemma_digit_run(s, i + 1, e);
    }
}

proof fn lemma_digit_run_bound(s: Seq<char>, i: int)
    requires
        0 <= i <= s.len(),
    ensures
        i <= digit_run(s, i) <= s.len(),
        forall|k: int| i <= k < digit_run(s, i) ==> is_digit(#[trigger] s[k]),
    decreases s.len() - i,
{
    if i < s.len() && is_digit(s[i]) {
        lemma_digit_run_bound(s, i + 1);
    }
}

/// Digits write a number, with or without a sign before them, a point and more
/// digits behind them, and an exponent behind those.
pub proof fn law_decimal_texts_write_numbers(
    sign: Seq<char>,
    whole: Seq<char>,
    fraction: Seq<char>,
    exponent: Seq<char>,
)
    requires
        sign == Seq::<char>::empty() || sign == seq!['+'] || sign == seq!['-'],
        all_digits(whole),
        whole.len() > 0,
        all_digits(fraction),
        all_digits(exponent),
        exponent.len() > 0,
    ensures
        is_float_text(sign + whole),
        is_float_text(sign + whole + seq!['.'] + fraction),
        is_float_text(sign + whole + seq!['.'] + fraction + seq!['e'] + exponent),
        is_float_text(sign + whole + seq!['.'] + fraction + seq!['E', '-'] + exponent),
{
    let i = sign.len() as int;
    let a = i + whole.len();
    let s = sign + whole;
    assert(whole[0] == s[i]);
    assert(crate::text::behind_sign(s, 0) == i);
    assert forall|k: int| i <= k < a implies is_digit(#[trigger] s[k]) by {
        assert(s[k] == whole[k - i]);
    }
    lemma_digit_run(s, i, a);
    let t = sign + whole + seq!['.'] + fraction;
    let f = a + 1 + fraction.len();
    assert(t[i] == whole[0]);
    assert(crate::text::behind_sign(t, 0) == i);
    assert forall|k: int| i <= k < a implies is_digit(#[trigger] t[k]) by {
        assert(t[k] == whole[k - i]);
    }
    assert(t[a] == '.');
    lemma_digit_run(t, i, a);
    assert forall|k: int| a + 1 <= k < f implies is_digit(#[trigger] t[k]) by {
        assert(t[k] == fraction[k - a - 1]);
    }
    lemma_digit_run(t, a + 1, f);
    let u = t + seq!['e'] + exponent;
    let n = u.len() as int;
    assert(u[i] == whole[0]);
    assert(crate::text::behind_sign(u, 0) == i);
    assert forall|k: int| i <= k < a implies is_digit(#[trigger] u[k]) by {
        assert(u[k] == whole[k - i]);
    }
    assert(u[a] == '.');
    lemma_digit_run(u, i, a);
    assert forall|k: int| a + 1 <= k < f implies is_digit(#[trigger] u[k]) by {
        assert(u[k] == fraction[k - a - 1]);
    }
    assert(u[f] == 'e');
    lemma_digit_run(u, a + 1, f);
    assert forall|k: int| f + 1 <= k < n implies is_digit(#[trigger] u[k]) by {
        assert(u[k] == exponent[k - f - 1]);
    }
    assert(is_digit(u[f + 1]));
    lemma_digit_run(u, f + 1, n);
    assert(crate::text::is_exponent_at(u, f));
    let v = t + seq!['E', '-'] + exponent;
    let m = v.len() as int;
    assert(v[i] == whole[0]);
    assert(crate::text::behind_sign(v, 0) == i);
    assert forall|k: int| i <= k < a implies is_digit(#[trigger] v[k]) by {
        assert(v[k] == whole[k - i]);
    }
    assert(v[a] == '.');
    lemma_digit_run(v, i, a);
    assert forall|k: int| a + 1 <= k < f implies is_digit(#[trigger] v[k]) by {
        assert(v[k] == fraction[k - a - 1]);
    }
    assert(v[f] == 'E');
    lemma_digit_run(v, a + 1, f);
    assert(v[f + 1] == '-');
    assert forall|k: int| f + 2 <= k < m implies is_digit(#[trigger] v[k]) by {
        assert(v[k] == exponent[k - f - 2]);
    }
    lemma_digit_run(v, f + 2, m);
    assert(crate::text::is_exponent_at(v, f));
    assert(t + seq!['e'] + exponent =~= sign + whole + seq!['.'] + fraction + seq!['e']
        + exponent);
    assert(t + seq!['E', '-'] + exponent =~= sign + whole + seq!['.'] + fraction + seq!['E', '-']
        + exponent);
}

/// A text without a digit writes a number only where it is one of the words for
/// infinity and for no number. The empty text writes none.
pub proof fn law_other_texts_write_no_number(s: Seq<char>)
    requires
        forall|k: int| 0 <= k < s.len() ==> !is_digit(#[trigger] s[k]),
        s.len() != 3 && s.len() != 4 && s.len() != 8 && s.len() != 9,
    ensures
        !is_float_text(s),
{
    let i = crate::text::behind_sign(s, 0);
    lemma_digit_run_bound(s, i);
    let a = digit_run(s, i);
    if a > i {
        assert(is_digit(s[i]));
    }
    if a < s.len() && s[a] == '.' {
        lemma_digit_run_bound(s, a + 1);
        if digit_run(s, a + 1) > a + 1 {
            assert(is_digit(s[a + 1]));
        }
    }
}

// ---------------------------------------------------------------------------
// Texts
// ---------------------------------------------------------------------------

/// A capital letter becomes the small letter at the same place of the alphabet, and
/// every other character stays.
pub proof fn law_lower_case(s: Seq<char>, i: int)
    requires
        0 <= i < s.len(),
    ensures
        ascii_lowered(s).len() == s.len(),
        'A' <= s[i] && s[i] <= 'Z' ==> 'a' <= ascii_lowered(s)[i] && ascii_lowered(s)[i] <= 'z'
            && ascii_lowered(s)[i] as int - 'a' as int == s[i] as int - 'A' as int,
        !('A' <= s[i] && s[i] <= 'Z') ==> ascii_lowered(s)[i] == s[i],
        ascii_lower(ascii_lower(s[i])) == ascii_lower(s[i]),
{
}

/// A text that is cut at a character is what stands before its first occurrence, the
/// character, and what stands behind it. Without the character it is not cut.
pub proof fn law_cut_at_the_first(a: Seq<char>, c: char, b: Seq<char>, s: Seq<char>)
    requires
        forall|i: int| 0 <= i < a.len() ==> #[trigger] a[i] != c,
        forall|i: int| 0 <= i < s.len() ==> #[trigger] s[i] != c,
    ensures
        split_at_char(a + seq![c] + b, c) == Some((a, b)),
        split_at_char(s, c) is None,
{
    let t = a + seq![c] + b;
    let n = a.len() as int;
    assert forall|j: int| 0 <= j < n implies !#[trigger] crate::text::occurs_at(t, seq![c], j) by {
        crate::text::lemma_occurs_char(t, c, j);
        assert(t[j] == a[j]);
    }
    crate::text::lemma_occurs_char(t, c, n);
    crate::text::lemma_find_from_is(t, seq![c], 0, n);
    assert(t.subrange(0, n) =~= a);
    assert(crate::text::tail(t, n + 1) =~= b);
    crate::text::lemma_find_from(s, seq![c], 0);
    if let Some(i) = crate::text::find_text(s, seq![c]) {
        crate::text::lemma_occurs_char(s, c, i);
    }
}

proof fn lemma_pieces_from(s: Seq<char>, sep: Seq<char>, from: int, i: int)
    requires
        sep.len() > 0,
        0 <= from <= s.len(),
        0 <= i < crate::text::pieces_from(s, sep, from).len(),
    ensures
        !crate::text::contains_text(crate::text::pieces_from(s, sep, from)[i], sep),
    decreases s.len() - from,
{
    crate::text::lemma_find_from(s, sep, from);
    let p = crate::text::pieces_from(s, sep, from)[i];
    match crate::text::find_from(s, sep, from) {
        Some(at) => {
            if i > 0 {
                lemma_pieces_from(s, sep, at + sep.len(), i - 1);
            } else if crate::text::contains_text(p, sep) {
                let j = choose|j: int| crate::text::occurs_at(p, sep, j);
                assert(s.subrange(from + j, from + j + sep.len()) =~= p.subrange(
                    j,
                    j + sep.len(),
                ));
                assert(crate::text::occurs_at(s, sep, from + j));
            }
        },
        None => {
            if crate::text::contains_text(p, sep) {
                let j = choose|j: int| crate::text::occurs_at(p, sep, j);
                assert(s.subrange(from + j, from + j + sep.len()) =~= p.subrange(
                    j,
                    j + sep.len(),
                ));
                assert(crate::text::occurs_at(s, sep, from + j));
            }
        },
    }
}

/// No piece of a text that is cut at a separator holds the separator.
pub proof fn law_pieces_hold_no_separator(s: Seq<char>, sep: Seq<char>, i: int)
    requires
        sep.len() > 0,
        0 <= i < crate::text::pieces(s, sep).len(),
    ensures
        !crate::text::contains_text(crate::text::pieces(s, sep)[i], sep),
{
    lemma_pieces_from(s, sep, 0, i);
}

/// Of two texts exactly one comes before the other, unless they are the same.
pub proof fn law_texts_are_ordered(a: Seq<char>, b: Seq<char>)
    ensures
        a == b ==> !text_lt(a, b) && !text_lt(b, a),
        a != b ==> text_lt(a, b) != text_lt(b, a),
    decreases a.len(),
{
    if a.len() == 0 && b.len() == 0 {
        assert(a =~= b);
    } else if a.len() > 0 && b.len() > 0 {
        law_texts_are_ordered(a.drop_first(), b.drop_first());
        if a[0] == b[0] && a.drop_first() == b.drop_first() {
            assert(a =~= seq![a[0]] + a.drop_first());
            assert(b =~= seq![b[0]] + b.drop_first());
        }
    }
}

/// The first character in which two texts differ decides their order, and a text
/// comes before those that it begins.
pub proof fn law_first_difference_decides(
    p: Seq<char>,
    c: char,
    d: char,
    x: Seq<char>,
    y: Seq<char>,
)
    requires
        (c as int) < (d as int),
    ensures
        text_lt(p + seq![c] + x, p + seq![d] + y),
        text_lt(p, p + seq![c] + x),
    decreases p.len(),
{
    let a = p + seq![c] + x;
    let b = p + seq![d] + y;
    if p.len() == 0 {
        assert(a[0] == c);
        assert(b[0] == d);
    } else {
        let q = p.drop_first();
        law_first_difference_decides(q, c, d, x, y);
        assert(a[0] == p[0]);
        assert(b[0] == p[0]);
        assert(a.drop_first() =~= q + seq![c] + x);
        assert(b.drop_first() =~= q + seq![d] + y);
    }
}

} // verus!
