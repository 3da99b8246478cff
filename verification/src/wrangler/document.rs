//! TOML documents as plain values.

use vstd::prelude::*;

use crate::text::chars_of;
use crate::text::ends_with;
use crate::text::text_of;

verus! {

/// Where a value stands in a text: the positions of its first byte and of the
/// first byte behind it.
#[derive(Debug, Clone, Copy, PartialEq, Eq, Structural)]
pub struct Place {
    pub start: usize,
    pub end: usize,
}

/// A TOML value, as far as a configuration can be read from it.
#[derive(Debug, PartialEq, Eq)]
pub enum Toml {
    Text(String),
    /// A number or a boolean, by what is said of it where something else was
    /// expected.
    Scalar(String),
    /// A number that is too large to be read, by what is said of it.
    Unreadable(String),
    Datetime,
    List(Vec<(Place, Toml)>),
    Table(Vec<(String, (Place, Toml))>),
}

/// A value with its place.
pub type Node = (Place, Toml);

/// The model of a [`Toml`] value.
#[verifier::ext_equal]
pub enum TomlView {
    Text(Seq<char>),
    Scalar(Seq<char>),
    Unreadable(Seq<char>),
    Datetime,
    List(Seq<(Place, TomlView)>),
    Table(Seq<(Seq<char>, (Place, TomlView))>),
}

/// The model of a [`Node`].
pub type NodeView = (Place, TomlView);

impl Toml {
    /// The model of the value.
    pub open spec fn view(&self) -> TomlView
        decreases self,
    {
        match self {
            Toml::Text(s) => TomlView::Text(s@),
            Toml::Scalar(s) => TomlView::Scalar(s@),
            Toml::Unreadable(s) => TomlView::Unreadable(s@),
            Toml::Datetime => TomlView::Datetime,
            Toml::List(v) => TomlView::List(
                Seq::new(
                    v@.len(),
                    |i: int|
                        if 0 <= i < v@.len() {
                            (v@[i].0, v@[i].1.view())
                        } else {
                            (Place { start: 0, end: 0 }, TomlView::Datetime)
                        },
                ),
            ),
            Toml::Table(v) => TomlView::Table(
                Seq::new(
                    v@.len(),
                    |i: int|
                        if 0 <= i < v@.len() {
                            (v@[i].0@, (v@[i].1.0, v@[i].1.1.view()))
                        } else {
                            (Seq::empty(), (Place { start: 0, end: 0 }, TomlView::Datetime))
                        },
                ),
            ),
        }
    }
}

/// The model of a value with its place.
pub open spec fn node_view(n: Node) -> NodeView {
    (n.0, n.1@)
}

/// The models of a sequence of values.
pub open spec fn toml_views(v: Seq<Node>) -> Seq<NodeView> {
    v.map_values(|n: Node| node_view(n))
}

/// The entries of a table.
pub open spec fn toml_entries(v: Seq<(String, Node)>) -> Seq<(Seq<char>, NodeView)> {
    v.map_values(|e: (String, Node)| (e.0@, node_view(e.1)))
}

// ---------------------------------------------------------------------------
// Reading
// ---------------------------------------------------------------------------

/// `toml::de::DeValue`, a parsed value whose numbers are not read yet.
#[verifier::external_type_specification]
#[verifier::external_body]
pub struct ExTomlValue<'i>(toml::de::DeValue<'i>);

/// What a parsed value holds.
pub uninterp spec fn toml_tree(v: toml::de::DeValue) -> TomlView;

/// What is said of a parsed value from which a string is to be read, where
/// none can be.
pub uninterp spec fn no_string(v: toml::de::DeValue) -> Seq<char>;

/// What `toml::de::DeTable::parse` reads from a text: the document with its
/// place, or the text of the error.
pub uninterp spec fn toml_document(content: Seq<char>) -> Result<NodeView, Seq<char>>;

/// The text of the error that a boolean stands at a place of a text where a
/// string was expected.
pub uninterp spec fn boolean_report(content: Seq<char>, start: usize, end: usize) -> Seq<char>;

/// One parsed value, with its children still unread.
enum TomlNode<'a, 'i> {
    Text(String),
    Scalar,
    Datetime,
    List(Vec<(Place, &'a toml::de::DeValue<'i>)>),
    Table(Vec<(String, Place, &'a toml::de::DeValue<'i>)>),
}

/// How what is said of a value goes on where a string was expected.
pub open spec fn string_expected() -> Seq<char> {
    ", expected a string"@
}

/// The text without `end` at its end, where it stands there.
pub open spec fn without_end(s: Seq<char>, end: Seq<char>) -> Seq<char> {
    if crate::text::has_suffix(s, end) {
        s.subrange(0, s.len() - end.len())
    } else {
        s
    }
}

/// A number or a boolean, by what is said of it where a string was expected. A
/// number that is too large is spoken of in another way.
pub open spec fn scalar_tree(said: Seq<char>) -> TomlView {
    if crate::text::has_suffix(said, string_expected()) {
        TomlView::Scalar(without_end(said, string_expected()))
    } else {
        TomlView::Unreadable(said)
    }
}

/// What a value holds, in terms of what its children hold.
spec fn toml_holds(v: toml::de::DeValue, n: TomlNode) -> TomlView {
    match n {
        TomlNode::Text(s) => TomlView::Text(s@),
        TomlNode::Scalar => scalar_tree(no_string(v)),
        TomlNode::Datetime => TomlView::Datetime,
        TomlNode::List(items) => TomlView::List(
            items@.map_values(|c: (Place, &toml::de::DeValue)| (c.0, toml_tree(*c.1))),
        ),
        TomlNode::Table(items) => TomlView::Table(
            items@.map_values(
                |e: (String, Place, &toml::de::DeValue)| (e.0@, (e.1, toml_tree(*e.2))),
            ),
        ),
    }
}

/// `toml::de::DeTable::parse`: the document that the text holds, as a value with
/// its place, or the text of the error. What it gives depends on the text alone.
#[verifier::external_body]
fn read_toml<'i>(content: &'i str) -> (r: Result<(Place, toml::de::DeValue<'i>), String>)
    ensures
        match r {
            Ok(d) => toml_document(content@) == Ok::<NodeView, Seq<char>>((d.0, toml_tree(d.1))),
            Err(e) => toml_document(content@) == Err::<NodeView, Seq<char>>(e@),
        },
{
    let table = toml::de::DeTable::parse(content).map_err(|e| e.to_string())?;
    let place = Place { start: table.span().start, end: table.span().end };
    Ok((place, toml::de::DeValue::Table(table.into_inner())))
}

/// The variant of a `toml::de::DeValue` with its fields: a string by its text,
/// the children of an array and of a table by reference, with their spans and
/// in order, the keys of a table by their text. Of a number, a boolean or a
/// date and time only the variant is told.
#[verifier::external_body]
fn open_toml<'a, 'i>(v: &'a toml::de::DeValue<'i>) -> (r: TomlNode<'a, 'i>)
    ensures
        toml_tree(*v) == toml_holds(*v, r),
{
    let place = |s: std::ops::Range<usize>| Place { start: s.start, end: s.end };
    match v {
        toml::de::DeValue::String(s) => TomlNode::Text(s.to_string()),
        toml::de::DeValue::Datetime(_) => TomlNode::Datetime,
        toml::de::DeValue::Array(v) => TomlNode::List(
            v.iter().map(|c| (place(c.span()), c.get_ref())).collect()
        ),
        toml::de::DeValue::Table(t) => TomlNode::Table(
            t.iter().map(|(k, c)| (k.get_ref().to_string(), place(c.span()), c.get_ref())).collect()
        ),
        _ => TomlNode::Scalar,
    }
}

/// `Deserialize` of `String`, from a `toml::de::DeValue`: what its error says,
/// and nothing where a string can be read. What it gives depends on the value
/// alone.
#[verifier::external_body]
fn say_no_string(v: &toml::de::DeValue) -> (r: String)
    ensures
        r@ == no_string(*v),
{
    let from = toml::de::ValueDeserializer::from(toml::Spanned::new(0..0, v.clone()));
    let read = <String as serde::Deserialize>::deserialize(from);
    read.map_or_else(|e| e.message().to_string(), |_| String::new())
}

/// `Display` of `toml::de::Error`, for the error that reading a string gives
/// where a boolean stands at the bytes from `start` to `end` of the text: the
/// place with the line around it, and what is said of the boolean. What it gives
/// depends on the text and the place alone.
#[verifier::external_body]
fn report_boolean(content: &str, start: usize, end: usize) -> (r: String)
    requires
        start <= end,
        start <= vstd::utf8::encode_utf8(content@).len(),
    ensures
        r@ == boolean_report(content@, start, end),
{
    let value = toml::Spanned::new(start..end, toml::de::DeValue::Boolean(true));
    let from = toml::de::ValueDeserializer::from(value);
    let read = <String as serde::Deserialize>::deserialize(from);
    read.map_or_else(|mut e| { e.set_input(Some(content)); e.to_string() }, |s| s)
}

/// The text without `end` at its end, where it stands there.
fn cut_end(s: &str, end: &str) -> (r: String)
    ensures
        r@ == without_end(s@, end@),
{
    if ends_with(s, end) {
        let chars = chars_of(s);
        let n: usize = chars_of(end).len();
        text_of(&chars, 0, chars.len() - n)
    } else {
        s.to_owned()
    }
}

/// A number or a boolean, by what is said of it.
fn scalar_of(said: &str) -> (r: Toml)
    ensures
        r@ == scalar_tree(said@),
{
    if ends_with(said, ", expected a string") {
        Toml::Scalar(cut_end(said, ", expected a string"))
    } else {
        Toml::Unreadable(said.to_owned())
    }
}

/// A parsed value as a plain value.
fn toml_of(v: &toml::de::DeValue) -> (r: Toml)
    ensures
        r@ == toml_tree(*v),
    decreases toml_tree(*v),
{
    match open_toml(v) {
        TomlNode::Text(s) => Toml::Text(s),
        TomlNode::Scalar => scalar_of(say_no_string(v).as_str()),
        TomlNode::Datetime => Toml::Datetime,
        TomlNode::List(items) => {
            let mut out: Vec<(Place, Toml)> = Vec::new();
            for i in 0..items.len()
                invariant
                    out@.len() == i,
                    toml_tree(*v) == toml_holds(*v, TomlNode::List(items)),
                    forall|j: int|
                        0 <= j < i ==> node_view(#[trigger] out@[j]) == (
                            items@[j].0,
                            toml_tree(*items@[j].1),
                        ),
            {
                proof {
                    let x = toml_tree(*v)->List_0[i as int];
                    assert(x.1 == toml_tree(*items@[i as int].1));
                    assert(decreases_to!(toml_tree(*v) => x));
                }
                out.push((items[i].0, toml_of(items[i].1)));
            }
            let r = Toml::List(out);
            assert forall|j: int| 0 <= j < out@.len() implies r@->List_0[j]
                == toml_tree(*v)->List_0[j] by {
                assert(r@->List_0[j] == node_view(out@[j]));
            }
            assert(r@->List_0 =~= toml_tree(*v)->List_0);
            r
        },
        TomlNode::Table(items) => {
            let mut out: Vec<(String, (Place, Toml))> = Vec::new();
            for i in 0..items.len()
                invariant
                    out@.len() == i,
                    toml_tree(*v) == toml_holds(*v, TomlNode::Table(items)),
                    forall|j: int|
                        0 <= j < i ==> (#[trigger] out@[j]).0@ == items@[j].0@ && node_view(
                            out@[j].1,
                        ) == (items@[j].1, toml_tree(*items@[j].2)),
            {
                proof {
                    let x = toml_tree(*v)->Table_0[i as int];
                    assert(x.1.1 == toml_tree(*items@[i as int].2));
                    assert(decreases_to!(toml_tree(*v) => x));
                    assert(decreases_to!(x => x.1));
                    assert(decreases_to!(x.1 => x.1.1));
                }
                out.push((items[i].0.clone(), (items[i].1, toml_of(items[i].2))));
            }
            let r = Toml::Table(out);
            assert forall|j: int| 0 <= j < out@.len() implies r@->Table_0[j]
                == toml_tree(*v)->Table_0[j] by {
                assert(r@->Table_0[j] == (out@[j].0@, node_view(out@[j].1)));
            }
            assert(r@->Table_0 =~= toml_tree(*v)->Table_0);
            r
        },
    }
}

/// The document that `content` holds, or the text of the error.
pub fn parse_toml(content: &str) -> (r: Result<Node, String>)
    ensures
        match r {
            Ok(n) => toml_document(content@) == Ok::<NodeView, Seq<char>>(node_view(n)),
            Err(e) => toml_document(content@) == Err::<NodeView, Seq<char>>(e@),
        },
{
    match read_toml(content) {
        Ok((place, v)) => Ok((place, toml_of(&v))),
        Err(e) => Err(e),
    }
}

// ---------------------------------------------------------------------------
// Reports
// ---------------------------------------------------------------------------

/// What the report of a boolean says of it.
pub open spec fn boolean_said() -> Seq<char> {
    "invalid type: boolean `true`, expected a string\n"@
}

/// The place, as far as it can stand in a text of `len` bytes: it starts in the
/// text or right behind it, and does not end before it starts.
pub open spec fn place_in(place: Place, len: nat) -> Place {
    let start = if place.start <= len {
        place.start
    } else {
        len as usize
    };
    Place {
        start,
        end: if place.end < start {
            start
        } else {
            place.end
        },
    }
}

/// What is reported of a place of a text: the place with the line around it,
/// and the message.
pub open spec fn report(content: Seq<char>, place: Place, message: Seq<char>) -> Seq<char> {
    let at = place_in(place, vstd::utf8::encode_utf8(content).len());
    without_end(boolean_report(content, at.start, at.end), boolean_said()) + message + "\n"@
}

/// What is reported of a place of a text.
pub fn report_of(content: &str, place: Place, message: &str) -> (r: String)
    ensures
        r@ == report(content@, place, message@),
{
    let len: usize = content.as_bytes().len();
    let start: usize = if place.start <= len {
        place.start
    } else {
        len
    };
    let end: usize = if place.end < start {
        start
    } else {
        place.end
    };
    let mut m = cut_end(
        report_boolean(content, start, end).as_str(),
        "invalid type: boolean `true`, expected a string\n",
    );
    m.append(message);
    m.append("\n");
    m
}

} // verus!
