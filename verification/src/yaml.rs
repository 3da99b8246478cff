//! YAML documents as plain values.

use vstd::prelude::*;

use serde_yaml_ng::value::Tag;
use serde_yaml_ng::value::TaggedValue;
use serde_yaml_ng::Value;

use crate::text::chars_of;
use crate::text::text_eq;
use crate::text::u64_text;

verus! {

// ---------------------------------------------------------------------------
// Numbers
// ---------------------------------------------------------------------------

/// A number as a document writes it.
#[derive(Debug, PartialEq, Eq)]
pub enum Number {
    /// An integer that is not negative.
    PosInt(u64),
    /// A negative integer.
    NegInt(i64),
    /// A binary64 number, by the shortest decimal text that reads back as it.
    Float(String),
}

/// The model of a [`Number`].
pub enum NumberView {
    PosInt(u64),
    NegInt(i64),
    Float(Seq<char>),
}

impl View for Number {
    type V = NumberView;

    open spec fn view(&self) -> NumberView {
        match self {
            Number::PosInt(n) => NumberView::PosInt(*n),
            Number::NegInt(n) => NumberView::NegInt(*n),
            Number::Float(t) => NumberView::Float(t@),
        }
    }
}

/// The text of a number: the digits of an integer, with a sign where it is
/// negative, or the text that a binary64 number is held by.
pub open spec fn number_text(n: NumberView) -> Seq<char> {
    match n {
        NumberView::PosInt(i) => crate::text::digits(i as nat),
        NumberView::NegInt(i) => if i < 0 {
            seq!['-'] + crate::text::digits((-i) as nat)
        } else {
            crate::text::digits(i as nat)
        },
        NumberView::Float(t) => t,
    }
}

impl Clone for Number {
    fn clone(&self) -> (r: Self)
        ensures
            r@ == self@,
    {
        match self {
            Number::PosInt(n) => Number::PosInt(*n),
            Number::NegInt(n) => Number::NegInt(*n),
            Number::Float(t) => Number::Float(t.clone()),
        }
    }
}

/// A text has a digit.
pub open spec fn has_digit(t: Seq<char>) -> bool {
    exists|i: int| 0 <= i < t.len() && #[trigger] crate::text::is_digit(t[i])
}

/// The number is finite. The text of a number that is not has no digit.
pub open spec fn is_finite_number(n: NumberView) -> bool {
    match n {
        NumberView::Float(t) => has_digit(t),
        _ => true,
    }
}

/// The digits of `n`, with a sign where it is negative.
pub fn i64_text(n: i64) -> (r: String)
    ensures
        r@ == number_text(NumberView::NegInt(n)),
{
    if n < 0 {
        let mut s = String::new();
        s.push('-');
        let magnitude: u64 = if n == i64::MIN {
            0x8000_0000_0000_0000
        } else {
            (-n) as u64
        };
        s.append(u64_text(magnitude).as_str());
        assert(s@ =~= seq!['-'] + crate::text::digits(magnitude as nat));
        s
    } else {
        u64_text(n as u64)
    }
}

impl Number {
    /// Whether the number is finite.
    pub fn is_finite(&self) -> (r: bool)
        ensures
            r == is_finite_number(self@),
    {
        match self {
            Number::Float(t) => {
                let chars = chars_of(t.as_str());
                for i in 0..chars.len()
                    invariant
                        chars@ == t@,
                        self@ == NumberView::Float(t@),
                        forall|j: int|
                            0 <= j < i ==> !#[trigger] crate::text::is_digit(chars@[j]),
                {
                    if '0' <= chars[i] && chars[i] <= '9' {
                        assert(crate::text::is_digit(t@[i as int]));
                        return true;
                    }
                }
                false
            },
            _ => true,
        }
    }

    /// The text of the number.
    pub fn to_text(&self) -> (r: String)
        ensures
            r@ == number_text(self@),
    {
        match self {
            Number::PosInt(n) => u64_text(*n),
            Number::NegInt(n) => i64_text(*n),
            Number::Float(t) => t.clone(),
        }
    }
}

/// The text of a boolean.
pub open spec fn bool_text(b: bool) -> Seq<char> {
    if b {
        "true"@
    } else {
        "false"@
    }
}

/// The text of a boolean.
pub fn bool_to_text(b: bool) -> (r: String)
    ensures
        r@ == bool_text(b),
{
    if b {
        "true".to_owned()
    } else {
        "false".to_owned()
    }
}

// ---------------------------------------------------------------------------
// Values
// ---------------------------------------------------------------------------

/// A YAML value.
#[derive(Debug, PartialEq, Eq)]
pub enum Yaml {
    Null,
    Bool(bool),
    Number(Number),
    String(String),
    Sequence(Vec<Yaml>),
    /// The entries of a mapping, in document order.
    Mapping(Vec<(Yaml, Yaml)>),
    /// A value under a tag. The tag is held with its leading `!`.
    Tagged(String, Box<Yaml>),
}

/// The model of a [`Yaml`] value.
#[verifier::ext_equal]
pub enum YamlView {
    Null,
    Bool(bool),
    Number(NumberView),
    String(Seq<char>),
    Sequence(Seq<YamlView>),
    Mapping(Seq<(YamlView, YamlView)>),
    Tagged(Seq<char>, Box<YamlView>),
}

impl Yaml {
    /// The model of the value.
    pub open spec fn view(&self) -> YamlView
        decreases self,
    {
        match self {
            Yaml::Null => YamlView::Null,
            Yaml::Bool(b) => YamlView::Bool(*b),
            Yaml::Number(n) => YamlView::Number(n@),
            Yaml::String(s) => YamlView::String(s@),
            Yaml::Sequence(v) => YamlView::Sequence(
                Seq::new(
                    v@.len(),
                    |i: int|
                        if 0 <= i < v@.len() {
                            v@[i].view()
                        } else {
                            YamlView::Null
                        },
                ),
            ),
            Yaml::Mapping(v) => YamlView::Mapping(
                Seq::new(
                    v@.len(),
                    |i: int|
                        if 0 <= i < v@.len() {
                            (v@[i].0.view(), v@[i].1.view())
                        } else {
                            (YamlView::Null, YamlView::Null)
                        },
                ),
            ),
            Yaml::Tagged(t, v) => YamlView::Tagged(t@, Box::new(v.view())),
        }
    }
}

impl Clone for Yaml {
    fn clone(&self) -> (r: Self)
        ensures
            r@ == self@,
        decreases self,
    {
        match self {
            Yaml::Null => Yaml::Null,
            Yaml::Bool(b) => Yaml::Bool(*b),
            Yaml::Number(n) => Yaml::Number(n.clone()),
            Yaml::String(s) => Yaml::String(s.clone()),
            Yaml::Sequence(v) => {
                let mut out: Vec<Yaml> = Vec::new();
                for i in 0..v.len()
                    invariant
                        out@.len() == i,
                        self is Sequence,
                        self->Sequence_0 == v,
                        forall|j: int| 0 <= j < i ==> (#[trigger] out@[j])@ == v@[j]@,
                {
                    out.push((&v[i]).clone());
                }
                let r = Yaml::Sequence(out);
                assert(r@->Sequence_0 =~= self@->Sequence_0);
                r
            },
            Yaml::Mapping(v) => {
                let mut out: Vec<(Yaml, Yaml)> = Vec::new();
                for i in 0..v.len()
                    invariant
                        out@.len() == i,
                        self is Mapping,
                        self->Mapping_0 == v,
                        forall|j: int|
                            0 <= j < i ==> (#[trigger] out@[j]).0@ == v@[j].0@ && out@[j].1@
                                == v@[j].1@,
                {
                    out.push(((&v[i].0).clone(), (&v[i].1).clone()));
                }
                let r = Yaml::Mapping(out);
                assert(r@->Mapping_0 =~= self@->Mapping_0);
                r
            },
            Yaml::Tagged(t, v) => Yaml::Tagged(t.clone(), Box::new((&**v).clone())),
        }
    }
}

/// A value without the tags around it.
pub open spec fn untagged(v: YamlView) -> YamlView
    decreases v,
{
    match v {
        YamlView::Tagged(_, inner) => untagged(*inner),
        _ => v,
    }
}

/// A value without the tags around it is the value itself or stands inside it.
pub proof fn lemma_untagged(v: YamlView)
    ensures
        untagged(v) == v || decreases_to!(v => untagged(v)),
        !(untagged(v) is Tagged),
    decreases v,
{
    if let YamlView::Tagged(_, inner) = v {
        lemma_untagged(*inner);
        assert(decreases_to!(v => *inner));
    }
}

/// The text of a string value, tagged or not.
pub open spec fn yaml_str(v: YamlView) -> Option<Seq<char>> {
    match untagged(v) {
        YamlView::String(s) => Some(s),
        _ => None,
    }
}

/// The items of a sequence value, tagged or not.
pub open spec fn yaml_items(v: YamlView) -> Option<Seq<YamlView>> {
    match untagged(v) {
        YamlView::Sequence(s) => Some(s),
        _ => None,
    }
}

/// The items of a sequence value stand inside it.
pub proof fn lemma_items_inside(v: YamlView)
    ensures
        yaml_items(v) matches Some(s) ==> decreases_to!(v => s) && forall|i: int|
            0 <= i < s.len() ==> decreases_to!(v => #[trigger] s[i]),
{
    lemma_untagged(v);
    if let YamlView::Sequence(s) = untagged(v) {
        assert(decreases_to!(untagged(v) => s));
        assert forall|i: int| 0 <= i < s.len() implies decreases_to!(v => #[trigger] s[i]) by {
            assert(decreases_to!(s => s[i]));
        }
    }
}

/// The entries of a mapping value, tagged or not.
pub open spec fn yaml_entries(v: YamlView) -> Option<Seq<(YamlView, YamlView)>> {
    match untagged(v) {
        YamlView::Mapping(s) => Some(s),
        _ => None,
    }
}

/// The value of the first entry whose key is the string `key`.
pub open spec fn yaml_get(m: Seq<(YamlView, YamlView)>, key: Seq<char>) -> Option<YamlView>
    decreases m.len(),
{
    if m.len() == 0 {
        None
    } else if m[0].0 == YamlView::String(key) {
        Some(m[0].1)
    } else {
        yaml_get(m.drop_first(), key)
    }
}

/// The text of a scalar: a string is its own text, a number and a boolean
/// have the text that writes them.
pub open spec fn scalar_text(v: YamlView) -> Option<Seq<char>> {
    match v {
        YamlView::String(s) => Some(s),
        YamlView::Number(n) => Some(number_text(n)),
        YamlView::Bool(b) => Some(bool_text(b)),
        _ => None,
    }
}

/// The strings among `items`, in order.
pub open spec fn strings_of(items: Seq<YamlView>) -> Seq<Seq<char>>
    decreases items.len(),
{
    if items.len() == 0 {
        Seq::empty()
    } else {
        match yaml_str(items.last()) {
            Some(s) => strings_of(items.drop_last()).push(s),
            None => strings_of(items.drop_last()),
        }
    }
}

/// The models of a sequence of values.
pub open spec fn yaml_views(v: Seq<Yaml>) -> Seq<YamlView> {
    v.map_values(|y: Yaml| y@)
}

/// The models of the entries of a mapping.
pub open spec fn entry_views(v: Seq<(Yaml, Yaml)>) -> Seq<(YamlView, YamlView)> {
    v.map_values(|e: (Yaml, Yaml)| (e.0@, e.1@))
}

/// `yaml_get` finds the entry at `i` where no earlier entry has its key.
pub proof fn lemma_yaml_get_at(m: Seq<(YamlView, YamlView)>, key: Seq<char>, i: int)
    requires
        0 <= i < m.len(),
        m[i].0 == YamlView::String(key),
        forall|j: int| 0 <= j < i ==> (#[trigger] m[j]).0 != YamlView::String(key),
    ensures
        yaml_get(m, key) == Some(m[i].1),
    decreases m.len(),
{
    if i > 0 {
        assert(m[0].0 != YamlView::String(key));
        assert forall|j: int| 0 <= j < i - 1 implies (#[trigger] m.drop_first()[j]).0
            != YamlView::String(key) by {
            assert(m[j + 1].0 != YamlView::String(key));
        }
        lemma_yaml_get_at(m.drop_first(), key, i - 1);
    }
}

/// `yaml_get` finds nothing where no entry has the key.
pub proof fn lemma_yaml_get_none(m: Seq<(YamlView, YamlView)>, key: Seq<char>)
    requires
        forall|j: int| 0 <= j < m.len() ==> (#[trigger] m[j]).0 != YamlView::String(key),
    ensures
        yaml_get(m, key) is None,
    decreases m.len(),
{
    if m.len() > 0 {
        assert(m[0].0 != YamlView::String(key));
        assert forall|j: int| 0 <= j < m.drop_first().len() implies (
        #[trigger] m.drop_first()[j]).0 != YamlView::String(key) by {
            assert(m[j + 1].0 != YamlView::String(key));
        }
        lemma_yaml_get_none(m.drop_first(), key);
    }
}

/// The value of the first entry whose key is the string `key`.
pub fn mapping_get<'a>(m: &'a Vec<(Yaml, Yaml)>, key: &str) -> (r: Option<&'a Yaml>)
    ensures
        match r {
            Some(v) => yaml_get(entry_views(m@), key@) == Some(v@),
            None => yaml_get(entry_views(m@), key@) is None,
        },
        r is Some ==> exists|i: int| 0 <= i < m@.len() && (#[trigger] m@[i]).1 == *r->Some_0,
{
    let mut i: usize = 0;
    while i < m.len()
        invariant
            i <= m@.len(),
            forall|j: int| 0 <= j < i ==> (#[trigger] m@[j]).0@ != YamlView::String(key@),
        decreases m@.len() - i,
    {
        let found: bool = match &m[i].0 {
            Yaml::String(s) => text_eq(s.as_str(), key),
            _ => false,
        };
        if found {
            proof {
                let s = entry_views(m@);
                assert forall|j: int| 0 <= j < i implies (#[trigger] s[j]).0 != YamlView::String(
                    key@,
                ) by {
                    assert(m@[j].0@ != YamlView::String(key@));
                }
                lemma_yaml_get_at(s, key@, i as int);
                assert(m@[i as int].1 == m@[i as int].1);
            }
            return Some(&m[i].1);
        }
        i = i + 1;
    }
    proof {
        let s = entry_views(m@);
        assert forall|j: int| 0 <= j < s.len() implies (#[trigger] s[j]).0 != YamlView::String(
            key@,
        ) by {
            assert(m@[j].0@ != YamlView::String(key@));
        }
        lemma_yaml_get_none(s, key@);
    }
    None
}

impl Yaml {
    /// The value without the tags around it.
    pub fn untag_ref(&self) -> (r: &Yaml)
        ensures
            r@ == untagged(self@),
            *r == *self || decreases_to!(*self => *r),
        decreases self,
    {
        match self {
            Yaml::Tagged(_, inner) => (&**inner).untag_ref(),
            _ => self,
        }
    }

    /// The text of a string value, tagged or not.
    pub fn as_str(&self) -> (r: Option<&str>)
        ensures
            match r {
                Some(s) => yaml_str(self@) == Some(s@),
                None => yaml_str(self@) is None,
            },
    {
        match self.untag_ref() {
            Yaml::String(s) => Some(s.as_str()),
            _ => None,
        }
    }

    /// The items of a sequence value, tagged or not.
    pub fn as_sequence(&self) -> (r: Option<&Vec<Yaml>>)
        ensures
            match r {
                Some(v) => yaml_items(self@) == Some(yaml_views(v@)) && decreases_to!(*self => *v),
                None => yaml_items(self@) is None,
            },
    {
        let bare = self.untag_ref();
        match bare {
            Yaml::Sequence(v) => {
                proof {
                    assert(bare@->Sequence_0 =~= yaml_views(v@));
                    assert(decreases_to!(*bare => *v));
                }
                Some(v)
            },
            _ => None,
        }
    }

    /// The entries of a mapping value, tagged or not.
    pub fn as_mapping(&self) -> (r: Option<&Vec<(Yaml, Yaml)>>)
        ensures
            match r {
                Some(v) => yaml_entries(self@) == Some(entry_views(v@)) && decreases_to!(
                    *self => *v
                ),
                None => yaml_entries(self@) is None,
            },
    {
        let bare = self.untag_ref();
        match bare {
            Yaml::Mapping(v) => {
                proof {
                    assert(bare@->Mapping_0 =~= entry_views(v@));
                    assert(decreases_to!(*bare => *v));
                }
                Some(v)
            },
            _ => None,
        }
    }

    /// The text of a scalar value.
    pub fn scalar(&self) -> (r: Option<String>)
        ensures
            match r {
                Some(s) => scalar_text(self@) == Some(s@),
                None => scalar_text(self@) is None,
            },
    {
        match self {
            Yaml::String(s) => Some(s.clone()),
            Yaml::Number(n) => Some(n.to_text()),
            Yaml::Bool(b) => Some(bool_to_text(*b)),
            _ => None,
        }
    }
}

/// The strings among `items`, in order.
pub fn collect_strings(items: &Vec<Yaml>) -> (r: Vec<String>)
    ensures
        crate::text::texts(r@) == strings_of(yaml_views(items@)),
{
    let mut out: Vec<String> = Vec::new();
    let mut i: usize = 0;
    while i < items.len()
        invariant
            i <= items@.len(),
            crate::text::texts(out@) == strings_of(yaml_views(items@).subrange(0, i as int)),
        decreases items@.len() - i,
    {
        let ghost before = out@;
        match items[i].as_str() {
            Some(s) => {
                out.push(s.to_owned());
                assert(crate::text::texts(out@) =~= crate::text::texts(before).push(s@));
            },
            None => {},
        }
        i = i + 1;
        proof {
            let now = yaml_views(items@).subrange(0, i as int);
            assert(now.drop_last() =~= yaml_views(items@).subrange(0, i - 1));
            assert(now.last() == items@[i - 1]@);
        }
    }
    assert(yaml_views(items@).subrange(0, i as int) =~= yaml_views(items@));
    out
}

// ---------------------------------------------------------------------------
// Reading
// ---------------------------------------------------------------------------

/// `serde_yaml_ng::Value`, a node of a parsed YAML document.
#[verifier::external_type_specification]
#[verifier::external_body]
pub struct ExYamlValue(serde_yaml_ng::Value);

/// What a node of a parsed YAML document holds.
pub uninterp spec fn node_tree(v: serde_yaml_ng::Value) -> YamlView;

/// What `serde_yaml_ng::from_str` reads from a text: the document, or the
/// text of the error.
pub uninterp spec fn yaml_document(content: Seq<char>) -> Result<YamlView, Seq<char>>;

/// One node of a parsed YAML document, with its children still unread.
enum Node<'a> {
    Null,
    Bool(bool),
    Number(Number),
    String(String),
    Sequence(Vec<&'a serde_yaml_ng::Value>),
    Mapping(Vec<(&'a serde_yaml_ng::Value, &'a serde_yaml_ng::Value)>),
    Tagged(String, &'a serde_yaml_ng::Value),
}

/// What a node holds, in terms of what its children hold.
spec fn node_holds(n: Node) -> YamlView {
    match n {
        Node::Null => YamlView::Null,
        Node::Bool(b) => YamlView::Bool(b),
        Node::Number(x) => YamlView::Number(x@),
        Node::String(s) => YamlView::String(s@),
        Node::Sequence(v) => YamlView::Sequence(
            v@.map_values(|c: &serde_yaml_ng::Value| node_tree(*c)),
        ),
        Node::Mapping(v) => YamlView::Mapping(
            v@.map_values(
                |e: (&serde_yaml_ng::Value, &serde_yaml_ng::Value)|
                    (node_tree(*e.0), node_tree(*e.1)),
            ),
        ),
        Node::Tagged(t, c) => YamlView::Tagged(t@, Box::new(node_tree(*c))),
    }
}

/// `serde_yaml_ng::from_str` at the type `serde_yaml_ng::Value`: the document
/// that the text holds, or the text of the error. What it gives depends on
/// the text alone.
#[verifier::external_body]
fn read_yaml(content: &str) -> (r: Result<serde_yaml_ng::Value, String>)
    ensures
        match r {
            Ok(v) => yaml_document(content@) == Ok::<YamlView, Seq<char>>(node_tree(v)),
            Err(e) => yaml_document(content@) == Err::<YamlView, Seq<char>>(e@),
        },
{
    serde_yaml_ng::from_str::<serde_yaml_ng::Value>(content).map_err(|e| e.to_string())
}

/// The variant of a `serde_yaml_ng::Value` with its fields: scalars by value,
/// children by reference and in order. A number is told apart by
/// `Number::as_u64` and `Number::as_i64`, and is otherwise held by its text.
#[verifier::external_body]
fn open_node<'a>(v: &'a serde_yaml_ng::Value) -> (r: Node<'a>)
    ensures
        node_tree(*v) == node_holds(r),
{
    match v {
        Value::Null => Node::Null,
        Value::Bool(b) => Node::Bool(*b),
        Value::Number(n) => Node::Number(match (n.as_u64(), n.as_i64()) {
            (Some(i), _) => Number::PosInt(i),
            (None, Some(i)) => Number::NegInt(i),
            (None, None) => Number::Float(n.to_string()),
        }),
        Value::String(s) => Node::String(s.clone()),
        Value::Sequence(s) => Node::Sequence(s.iter().collect()),
        Value::Mapping(m) => Node::Mapping(m.iter().collect()),
        Value::Tagged(t) => Node::Tagged(t.tag.to_string(), &t.value),
    }
}

/// A node of a parsed document as a plain value.
fn yaml_of(v: &serde_yaml_ng::Value) -> (r: Yaml)
    ensures
        r@ == node_tree(*v),
    decreases node_tree(*v),
{
    match open_node(v) {
        Node::Null => Yaml::Null,
        Node::Bool(b) => Yaml::Bool(b),
        Node::Number(n) => Yaml::Number(n),
        Node::String(s) => Yaml::String(s),
        Node::Sequence(items) => {
            let mut out: Vec<Yaml> = Vec::new();
            for i in 0..items.len()
                invariant
                    out@.len() == i,
                    node_tree(*v) == node_holds(Node::Sequence(items)),
                    forall|j: int| 0 <= j < i ==> (#[trigger] out@[j])@ == node_tree(*items@[j]),
            {
                proof {
                    assert(node_tree(*v)->Sequence_0[i as int] == node_tree(*items@[i as int]));
                }
                out.push(yaml_of(items[i]));
            }
            let r = Yaml::Sequence(out);
            assert(r@->Sequence_0 =~= node_tree(*v)->Sequence_0);
            r
        },
        Node::Mapping(items) => {
            let mut out: Vec<(Yaml, Yaml)> = Vec::new();
            for i in 0..items.len()
                invariant
                    out@.len() == i,
                    node_tree(*v) == node_holds(Node::Mapping(items)),
                    forall|j: int|
                        0 <= j < i ==> (#[trigger] out@[j]).0@ == node_tree(*items@[j].0)
                            && out@[j].1@ == node_tree(*items@[j].1),
            {
                proof {
                    let e = node_tree(*v)->Mapping_0[i as int];
                    assert(e.0 == node_tree(*items@[i as int].0));
                    assert(e.1 == node_tree(*items@[i as int].1));
                    assert(decreases_to!(node_tree(*v) => e));
                }
                out.push((yaml_of(items[i].0), yaml_of(items[i].1)));
            }
            let r = Yaml::Mapping(out);
            assert(r@->Mapping_0 =~= node_tree(*v)->Mapping_0);
            r
        },
        Node::Tagged(t, c) => {
            proof {
                assert(node_tree(*v)->Tagged_1 == node_tree(*c));
                assert(decreases_to!(node_tree(*v) => node_tree(*v)->Tagged_1));
            }
            Yaml::Tagged(t, Box::new(yaml_of(c)))
        },
    }
}

/// The YAML document that `content` holds, or the text of the error.
pub fn parse_yaml(content: &str) -> (r: Result<Yaml, String>)
    ensures
        match r {
            Ok(v) => yaml_document(content@) == Ok::<YamlView, Seq<char>>(v@),
            Err(e) => yaml_document(content@) == Err::<YamlView, Seq<char>>(e@),
        },
{
    match read_yaml(content) {
        Ok(v) => Ok(yaml_of(&v)),
        Err(e) => Err(e),
    }
}

// ---------------------------------------------------------------------------
// Unresolved values as text
// ---------------------------------------------------------------------------

/// The `serde_yaml_ng::Value` that stands for a plain value.
pub uninterp spec fn rebuilt(y: YamlView) -> serde_yaml_ng::Value;

/// What the `Debug` implementation of `serde_yaml_ng::Value` writes.
pub uninterp spec fn debug_text(v: serde_yaml_ng::Value) -> Seq<char>;

/// The parts from which one `serde_yaml_ng::Value` is built.
enum Parts {
    Null,
    Bool(bool),
    Number(Number),
    String(String),
    Sequence(Vec<serde_yaml_ng::Value>),
    Mapping(Vec<(serde_yaml_ng::Value, serde_yaml_ng::Value)>),
    Tagged(String, serde_yaml_ng::Value),
}

/// The name of a tag: YAML has no empty one.
pub open spec fn tag_name(t: Seq<char>) -> Seq<char> {
    if t.len() == 0 {
        seq!['!']
    } else {
        t
    }
}

/// The parts are those of the plain value `y`.
spec fn parts_of(p: Parts, y: YamlView) -> bool {
    match p {
        Parts::Null => y == YamlView::Null,
        Parts::Bool(b) => y == YamlView::Bool(b),
        Parts::Number(n) => y == YamlView::Number(n@),
        Parts::String(s) => y == YamlView::String(s@),
        Parts::Sequence(v) => y is Sequence && y->Sequence_0.len() == v@.len() && forall|i: int|
            0 <= i < v@.len() ==> #[trigger] v@[i] == rebuilt(y->Sequence_0[i]),
        Parts::Mapping(v) => y is Mapping && y->Mapping_0.len() == v@.len() && forall|i: int|
            0 <= i < v@.len() ==> (#[trigger] v@[i]).0 == rebuilt(y->Mapping_0[i].0) && v@[i].1
                == rebuilt(y->Mapping_0[i].1),
        Parts::Tagged(t, v) => y is Tagged && tag_name(y->Tagged_0) == t@ && v == rebuilt(
            *y->Tagged_1,
        ),
    }
}

/// Builds the `serde_yaml_ng::Value` that has the given parts, with the
/// constructors of that type. A binary64 number is read from its text by
/// `serde_yaml_ng::Number::from_str`; a text that is none stays a string.
#[verifier::external_body]
fn close_node(p: Parts) -> (r: serde_yaml_ng::Value)
    requires
        p matches Parts::Tagged(t, _) ==> t@.len() > 0,
    ensures
        forall|y: YamlView| #[trigger] parts_of(p, y) ==> r == rebuilt(y),
{
    match p {
        Parts::Null => Value::Null,
        Parts::Bool(b) => Value::Bool(b),
        Parts::Number(Number::PosInt(i)) => Value::Number(i.into()),
        Parts::Number(Number::NegInt(i)) => Value::Number(i.into()),
        Parts::Number(Number::Float(t)) => t.parse().map_or(Value::String(t), Value::Number),
        Parts::String(s) => Value::String(s),
        Parts::Sequence(v) => Value::Sequence(v),
        Parts::Mapping(v) => Value::Mapping(v.into_iter().collect()),
        Parts::Tagged(t, v) => Value::Tagged(Box::new(TaggedValue { tag: Tag::new(t), value: v })),
    }
}

/// What the `Debug` implementation of `serde_yaml_ng::Value` writes. It
/// depends on the value alone.
#[verifier::external_body]
fn debug_of(v: &serde_yaml_ng::Value) -> (r: String)
    ensures
        r@ == debug_text(*v),
{
    format!("{v:?}")
}

/// The `serde_yaml_ng::Value` that stands for a plain value.
fn rebuild(y: &Yaml) -> (r: serde_yaml_ng::Value)
    ensures
        r == rebuilt(y@),
    decreases y,
{
    let parts = match y {
        Yaml::Null => Parts::Null,
        Yaml::Bool(b) => Parts::Bool(*b),
        Yaml::Number(n) => Parts::Number(n.clone()),
        Yaml::String(s) => Parts::String(s.clone()),
        Yaml::Sequence(v) => {
            let mut out: Vec<serde_yaml_ng::Value> = Vec::new();
            for i in 0..v.len()
                invariant
                    out@.len() == i,
                    y is Sequence,
                    y->Sequence_0 == v,
                    forall|j: int| 0 <= j < i ==> #[trigger] out@[j] == rebuilt(v@[j]@),
            {
                out.push(rebuild(&v[i]));
            }
            Parts::Sequence(out)
        },
        Yaml::Mapping(v) => {
            let mut out: Vec<(serde_yaml_ng::Value, serde_yaml_ng::Value)> = Vec::new();
            for i in 0..v.len()
                invariant
                    out@.len() == i,
                    y is Mapping,
                    y->Mapping_0 == v,
                    forall|j: int|
                        0 <= j < i ==> (#[trigger] out@[j]).0 == rebuilt(v@[j].0@) && out@[j].1
                            == rebuilt(v@[j].1@),
            {
                out.push((rebuild(&v[i].0), rebuild(&v[i].1)));
            }
            Parts::Mapping(out)
        },
        Yaml::Tagged(t, v) => {
            let mut name = t.clone();
            if name.as_str().is_empty() {
                name.push('!');
                assert(name@ =~= seq!['!']);
            }
            Parts::Tagged(name, rebuild(&**v))
        },
    };
    assert(parts_of(parts, y@));
    close_node(parts)
}

/// The text that stands for a value that could not be resolved.
pub fn unresolved_text(y: &Yaml) -> (r: String)
    ensures
        r@ == debug_text(rebuilt(y@)),
{
    debug_of(&rebuild(y))
}

} // verus!
