//! Typed representation of resolved `CloudFormation` property values.
//!
//! References to resources cannot be resolved from a template alone. They are
//! kept as typed variants of [`ResolvedValue`] up to the adapter boundary.

use vstd::prelude::*;

use crate::cfn::sentinel::RefView;
use crate::strmap::vec_get;
use crate::text::quote;
use crate::yaml::unresolved_text;
use crate::yaml::Yaml;
use crate::yaml::YamlView;

verus! {

// ---------------------------------------------------------------------------
// Parts of an interpolated string
// ---------------------------------------------------------------------------

/// One segment of an interpolated string.
#[derive(Debug, PartialEq, Eq)]
pub enum StringPart {
    /// Literal text (including pseudo-parameter placeholders left verbatim).
    Literal(String),
    /// A `${LogicalId}` resource reference.
    Ref(String),
    /// A `${LogicalId.Attr}` resource attribute reference.
    GetAtt { logical_id: String, attr: String },
}

/// The model of a [`StringPart`].
pub enum PartView {
    Literal(Seq<char>),
    Ref(Seq<char>),
    GetAtt { logical_id: Seq<char>, attr: Seq<char> },
}

impl View for StringPart {
    type V = PartView;

    open spec fn view(&self) -> PartView {
        match self {
            StringPart::Literal(s) => PartView::Literal(s@),
            StringPart::Ref(id) => PartView::Ref(id@),
            StringPart::GetAtt { logical_id, attr } => PartView::GetAtt {
                logical_id: logical_id@,
                attr: attr@,
            },
        }
    }
}

impl Clone for StringPart {
    fn clone(&self) -> (r: Self)
        ensures
            r@ == self@,
    {
        match self {
            StringPart::Literal(s) => StringPart::Literal(s.clone()),
            StringPart::Ref(id) => StringPart::Ref(id.clone()),
            StringPart::GetAtt { logical_id, attr } => StringPart::GetAtt {
                logical_id: logical_id.clone(),
                attr: attr.clone(),
            },
        }
    }
}

/// The models of a sequence of parts.
pub open spec fn part_views(parts: Seq<StringPart>) -> Seq<PartView> {
    parts.map_values(|p: StringPart| p@)
}

/// Copies parts.
pub fn clone_parts(parts: &Vec<StringPart>) -> (r: Vec<StringPart>)
    ensures
        part_views(r@) == part_views(parts@),
{
    let mut out: Vec<StringPart> = Vec::new();
    for i in 0..parts.len()
        invariant
            part_views(out@) == part_views(parts@).subrange(0, i as int),
    {
        let ghost before = out@;
        out.push(parts[i].clone());
        assert(part_views(out@) =~= part_views(before).push(parts@[i as int]@));
        assert(part_views(out@) =~= part_views(parts@).subrange(0, i + 1));
    }
    assert(part_views(parts@).subrange(0, parts@.len() as int) =~= part_views(parts@));
    out
}

/// The text of a reference in the `${...}` syntax of `CloudFormation`.
pub open spec fn ref_text(id: Seq<char>) -> Seq<char> {
    seq!['$', '{'] + id + seq!['}']
}

/// The text of an attribute reference in the `${...}` syntax.
pub open spec fn getatt_text(id: Seq<char>, attr: Seq<char>) -> Seq<char> {
    seq!['$', '{'] + id + seq!['.'] + attr + seq!['}']
}

/// The text of one part.
pub open spec fn part_text(p: PartView) -> Seq<char> {
    match p {
        PartView::Literal(s) => s,
        PartView::Ref(id) => ref_text(id),
        PartView::GetAtt { logical_id, attr } => getatt_text(logical_id, attr),
    }
}

/// The text of parts: the texts of the parts in order.
pub open spec fn parts_text(parts: Seq<PartView>) -> Seq<char>
    decreases parts.len(),
{
    if parts.len() == 0 {
        Seq::empty()
    } else {
        parts_text(parts.drop_last()) + part_text(parts.last())
    }
}

/// The reference that a part is, if it is one.
pub open spec fn part_ref(p: PartView) -> Option<RefView> {
    match p {
        PartView::Literal(_) => None,
        PartView::Ref(id) => Some(RefView { logical_id: id, attr: None }),
        PartView::GetAtt { logical_id, attr } => Some(
            RefView { logical_id, attr: Some(attr) },
        ),
    }
}

/// The references among parts, in order.
pub open spec fn parts_refs(parts: Seq<PartView>) -> Seq<RefView>
    decreases parts.len(),
{
    if parts.len() == 0 {
        Seq::empty()
    } else {
        match part_ref(parts.last()) {
            Some(r) => parts_refs(parts.drop_last()).push(r),
            None => parts_refs(parts.drop_last()),
        }
    }
}

/// The parts with each run of literals made one literal.
pub open spec fn merged(parts: Seq<PartView>) -> Seq<PartView>
    decreases parts.len(),
{
    if parts.len() == 0 {
        Seq::empty()
    } else {
        merge_one(merged(parts.drop_last()), parts.last())
    }
}

/// Merged parts with one more part behind them.
pub open spec fn merge_one(m: Seq<PartView>, p: PartView) -> Seq<PartView> {
    if m.len() > 0 && m.last() is Literal && p is Literal {
        m.drop_last().push(PartView::Literal(m.last()->Literal_0 + p->Literal_0))
    } else {
        m.push(p)
    }
}

/// Every part is a literal.
pub open spec fn all_literal(parts: Seq<PartView>) -> bool {
    forall|i: int| 0 <= i < parts.len() ==> (#[trigger] parts[i]) is Literal
}

// ---------------------------------------------------------------------------
// Resolved values
// ---------------------------------------------------------------------------

/// A property value after intrinsic resolution.
///
/// Containers are held structurally, so that references can be found without
/// reading strings again. `Concrete` holds YAML values (scalars, plus rare
/// pass-through values such as unresolvable tagged intrinsics) that contain
/// no resource references.
#[derive(Debug, PartialEq, Eq)]
pub enum ResolvedValue {
    /// A statically-resolved value containing no resource references.
    Concrete(Yaml),
    /// An unresolved `!Ref LogicalId` to a resource in the same template.
    Ref(String),
    /// An unresolved `!GetAtt LogicalId.Attr`.
    GetAtt { logical_id: String, attr: String },
    /// A string produced by `Fn::Sub` / `Fn::Join` in which one or more
    /// resource references are interleaved with literal text.
    Interpolated(Vec<StringPart>),
    /// A sequence whose elements may contain references.
    Sequence(Vec<ResolvedValue>),
    /// A mapping whose values may contain references, in the order of its
    /// keys.
    Mapping(Vec<(String, ResolvedValue)>),
}

/// The model of a [`ResolvedValue`].
#[verifier::ext_equal]
pub enum ResolvedView {
    Concrete(YamlView),
    Ref(Seq<char>),
    GetAtt { logical_id: Seq<char>, attr: Seq<char> },
    Interpolated(Seq<PartView>),
    Sequence(Seq<ResolvedView>),
    Mapping(Seq<(Seq<char>, ResolvedView)>),
}

impl ResolvedValue {
    /// The model of the value.
    pub open spec fn view(&self) -> ResolvedView
        decreases self,
    {
        match self {
            ResolvedValue::Concrete(y) => ResolvedView::Concrete(y@),
            ResolvedValue::Ref(id) => ResolvedView::Ref(id@),
            ResolvedValue::GetAtt { logical_id, attr } => ResolvedView::GetAtt {
                logical_id: logical_id@,
                attr: attr@,
            },
            ResolvedValue::Interpolated(parts) => ResolvedView::Interpolated(part_views(parts@)),
            ResolvedValue::Sequence(v) => ResolvedView::Sequence(
                Seq::new(
                    v@.len(),
                    |i: int|
                        if 0 <= i < v@.len() {
                            v@[i].view()
                        } else {
                            ResolvedView::Ref(Seq::empty())
                        },
                ),
            ),
            ResolvedValue::Mapping(v) => ResolvedView::Mapping(
                Seq::new(
                    v@.len(),
                    |i: int|
                        if 0 <= i < v@.len() {
                            (v@[i].0@, v@[i].1.view())
                        } else {
                            (Seq::empty(), ResolvedView::Ref(Seq::empty()))
                        },
                ),
            ),
        }
    }
}

impl Clone for ResolvedValue {
    fn clone(&self) -> (r: Self)
        ensures
            r@ == self@,
        decreases self,
    {
        match self {
            ResolvedValue::Concrete(y) => ResolvedValue::Concrete(y.clone()),
            ResolvedValue::Ref(id) => ResolvedValue::Ref(id.clone()),
            ResolvedValue::GetAtt { logical_id, attr } => ResolvedValue::GetAtt {
                logical_id: logical_id.clone(),
                attr: attr.clone(),
            },
            ResolvedValue::Interpolated(parts) => ResolvedValue::Interpolated(clone_parts(parts)),
            ResolvedValue::Sequence(v) => {
                let mut out: Vec<ResolvedValue> = Vec::new();
                for i in 0..v.len()
                    invariant
                        out@.len() == i,
                        self is Sequence,
                        self->Sequence_0 == v,
                        forall|j: int| 0 <= j < i ==> (#[trigger] out@[j])@ == v@[j]@,
                {
                    out.push((&v[i]).clone());
                }
                let r = ResolvedValue::Sequence(out);
                assert(r@->Sequence_0 =~= self@->Sequence_0);
                r
            },
            ResolvedValue::Mapping(v) => {
                let mut out: Vec<(String, ResolvedValue)> = Vec::new();
                for i in 0..v.len()
                    invariant
                        out@.len() == i,
                        self is Mapping,
                        self->Mapping_0 == v,
                        forall|j: int|
                            0 <= j < i ==> (#[trigger] out@[j]).0@ == v@[j].0@ && out@[j].1@
                                == v@[j].1@,
                {
                    out.push((v[i].0.clone(), (&v[i].1).clone()));
                }
                let r = ResolvedValue::Mapping(out);
                assert(r@->Mapping_0 =~= self@->Mapping_0);
                r
            },
        }
    }
}

/// The models of a sequence of values.
pub open spec fn resolved_views(v: Seq<ResolvedValue>) -> Seq<ResolvedView> {
    v.map_values(|x: ResolvedValue| x@)
}

/// The models of the entries of a mapping.
pub open spec fn resolved_entries(v: Seq<(String, ResolvedValue)>) -> Seq<
    (Seq<char>, ResolvedView),
> {
    v.map_values(|e: (String, ResolvedValue)| (e.0@, e.1@))
}

/// A string value.
pub open spec fn concrete_text(s: Seq<char>) -> ResolvedView {
    ResolvedView::Concrete(YamlView::String(s))
}

/// The value that interpolation parts make: text where every part is literal,
/// a typed reference where one reference stands alone, and otherwise the
/// merged parts.
pub open spec fn value_of_parts(parts: Seq<PartView>) -> ResolvedView {
    let m = merged(parts);
    if all_literal(parts) {
        concrete_text(parts_text(parts))
    } else if m.len() == 1 {
        match m[0] {
            PartView::Ref(id) => ResolvedView::Ref(id),
            PartView::GetAtt { logical_id, attr } => ResolvedView::GetAtt { logical_id, attr },
            PartView::Literal(s) => concrete_text(s),
        }
    } else {
        ResolvedView::Interpolated(m)
    }
}

/// The text of a string value.
pub open spec fn resolved_str(v: ResolvedView) -> Option<Seq<char>> {
    match v {
        ResolvedView::Concrete(YamlView::String(s)) => Some(s),
        _ => None,
    }
}

/// The value under `key` of a mapping.
pub open spec fn resolved_get(v: ResolvedView, key: Seq<char>) -> Option<ResolvedView> {
    match v {
        ResolvedView::Mapping(m) => crate::strmap::lookup(m, key),
        _ => None,
    }
}

/// The elements of a sequence.
pub open spec fn resolved_items(v: ResolvedView) -> Option<Seq<ResolvedView>> {
    match v {
        ResolvedView::Sequence(s) => Some(s),
        _ => None,
    }
}

/// The elements of a value in the shape of a sequence: a structural one, or a
/// concrete YAML sequence.
pub open spec fn resolved_list(v: ResolvedView) -> Option<Seq<ResolvedView>> {
    match v {
        ResolvedView::Sequence(s) => Some(s),
        ResolvedView::Concrete(YamlView::Sequence(s)) => Some(
            s.map_values(|y: YamlView| ResolvedView::Concrete(y)),
        ),
        _ => None,
    }
}

/// The references that a value carries directly.
pub open spec fn resolved_refs(v: ResolvedView) -> Seq<RefView> {
    match v {
        ResolvedView::Ref(id) => seq![RefView { logical_id: id, attr: None }],
        ResolvedView::GetAtt { logical_id, attr } => seq![
            RefView { logical_id, attr: Some(attr) },
        ],
        ResolvedView::Interpolated(parts) => parts_refs(parts),
        _ => Seq::empty(),
    }
}

/// A reference to another resource extracted from a [`ResolvedValue`].
#[derive(Debug, Clone, PartialEq, Eq)]
pub struct Reference {
    /// The logical ID of the referenced resource.
    pub logical_id: String,
    /// `Some(attr)` for `!GetAtt`, `None` for `!Ref`.
    pub attr: Option<String>,
}

impl View for Reference {
    type V = RefView;

    open spec fn view(&self) -> RefView {
        RefView {
            logical_id: self.logical_id@,
            attr: match self.attr {
                Some(a) => Some(a@),
                None => None,
            },
        }
    }
}

/// The models of a sequence of references.
pub open spec fn ref_views(v: Seq<Reference>) -> Seq<RefView> {
    v.map_values(|r: Reference| r@)
}

// ---------------------------------------------------------------------------
// Values in messages
// ---------------------------------------------------------------------------

/// An attribute reference in a message.
pub open spec fn getatt_form(id: Seq<char>, attr: Seq<char>) -> Seq<char> {
    "GetAtt { logical_id: "@ + crate::text::quoted(id) + ", attr: "@ + crate::text::quoted(attr)
        + " }"@
}

/// A part in a message.
pub open spec fn part_form(p: PartView) -> Seq<char> {
    match p {
        PartView::Literal(s) => "Literal("@ + crate::text::quoted(s) + ")"@,
        PartView::Ref(id) => "Ref("@ + crate::text::quoted(id) + ")"@,
        PartView::GetAtt { logical_id, attr } => getatt_form(logical_id, attr),
    }
}

/// What stands before the item at `i` of a list in a message.
pub open spec fn comma(i: int) -> Seq<char> {
    if i == 0 {
        Seq::empty()
    } else {
        ", "@
    }
}

/// Parts in a message, with commas between them.
pub open spec fn part_forms(parts: Seq<PartView>) -> Seq<char>
    decreases parts.len(),
{
    if parts.len() == 0 {
        Seq::empty()
    } else {
        part_forms(parts.drop_last()) + comma(parts.len() - 1) + part_form(parts.last())
    }
}

/// A value in a message: the name of its kind, and what it holds.
pub open spec fn value_form(v: ResolvedView) -> Seq<char>
    decreases v,
{
    match v {
        ResolvedView::Concrete(y) => "Concrete("@ + crate::yaml::debug_text(
            crate::yaml::rebuilt(y),
        ) + ")"@,
        ResolvedView::Ref(id) => "Ref("@ + crate::text::quoted(id) + ")"@,
        ResolvedView::GetAtt { logical_id, attr } => getatt_form(logical_id, attr),
        ResolvedView::Interpolated(parts) => "Interpolated(["@ + part_forms(parts) + "])"@,
        ResolvedView::Sequence(s) => "Seq(["@ + value_forms(s) + "])"@,
        ResolvedView::Mapping(m) => "Map({"@ + entry_forms(m) + "})"@,
    }
}

/// Values in a message, with commas between them.
pub open spec fn value_forms(s: Seq<ResolvedView>) -> Seq<char>
    decreases s,
{
    if s.len() == 0 {
        Seq::empty()
    } else {
        value_forms(s.drop_last()) + comma(s.len() - 1) + value_form(s[s.len() - 1])
    }
}

/// Entries in a message, with commas between them.
pub open spec fn entry_forms(m: Seq<(Seq<char>, ResolvedView)>) -> Seq<char>
    decreases m,
{
    if m.len() == 0 {
        Seq::empty()
    } else {
        entry_forms(m.drop_last()) + comma(m.len() - 1) + crate::text::quoted(m[m.len() - 1].0)
            + ": "@ + value_form(m[m.len() - 1].1)
    }
}

/// An attribute reference in a message.
fn getatt_message(id: &str, attr: &str) -> (r: String)
    ensures
        r@ == getatt_form(id@, attr@),
{
    let mut out = "GetAtt { logical_id: ".to_owned();
    out.append(quote(id).as_str());
    out.append(", attr: ");
    out.append(quote(attr).as_str());
    out.append(" }");
    out
}

/// A text in a message, inside the name of its kind.
fn named_message(name: &str, s: &str) -> (r: String)
    ensures
        r@ == name@ + crate::text::quoted(s@) + ")"@,
{
    let mut out = name.to_owned();
    out.append(quote(s).as_str());
    out.append(")");
    out
}

/// A part in a message.
fn part_message(p: &StringPart) -> (r: String)
    ensures
        r@ == part_form(p@),
{
    match p {
        StringPart::Literal(s) => named_message("Literal(", s.as_str()),
        StringPart::Ref(id) => named_message("Ref(", id.as_str()),
        StringPart::GetAtt { logical_id, attr } => getatt_message(
            logical_id.as_str(),
            attr.as_str(),
        ),
    }
}

/// Parts in a message.
fn parts_message(parts: &Vec<StringPart>) -> (r: String)
    ensures
        r@ == "Interpolated(["@ + part_forms(part_views(parts@)) + "])"@,
{
    let mut out = "Interpolated([".to_owned();
    let ghost s = part_views(parts@);
    assert(s.subrange(0, 0) =~= Seq::empty());
    assert(out@ =~= "Interpolated(["@ + part_forms(s.subrange(0, 0)));
    for i in 0..parts.len()
        invariant
            s == part_views(parts@),
            out@ == "Interpolated(["@ + part_forms(s.subrange(0, i as int)),
    {
        let ghost before = out@;
        if i > 0 {
            out.append(", ");
        }
        out.append(part_message(&parts[i]).as_str());
        proof {
            let t = s.subrange(0, i + 1);
            assert(t.drop_last() =~= s.subrange(0, i as int));
            assert(t.last() == parts@[i as int]@);
            assert(out@ =~= before + comma(i as int) + part_form(t.last()));
            assert(out@ =~= "Interpolated(["@ + part_forms(t));
        }
    }
    out.append("])");
    assert(s.subrange(0, parts@.len() as int) =~= s);
    out
}

/// A value in a message.
pub fn value_message(v: &ResolvedValue) -> (r: String)
    ensures
        r@ == value_form(v@),
    decreases v,
{
    match v {
        ResolvedValue::Concrete(y) => {
            let mut out = "Concrete(".to_owned();
            out.append(unresolved_text(y).as_str());
            out.append(")");
            out
        },
        ResolvedValue::Ref(id) => named_message("Ref(", id.as_str()),
        ResolvedValue::GetAtt { logical_id, attr } => getatt_message(
            logical_id.as_str(),
            attr.as_str(),
        ),
        ResolvedValue::Interpolated(parts) => parts_message(parts),
        ResolvedValue::Sequence(items) => {
            let mut out = "Seq([".to_owned();
            let ghost s = v@->Sequence_0;
            assert(s.subrange(0, 0) =~= Seq::empty());
            assert(out@ =~= "Seq(["@ + value_forms(s.subrange(0, 0)));
            for i in 0..items.len()
                invariant
                    v is Sequence,
                    v->Sequence_0 == items,
                    s == v@->Sequence_0,
                    s.len() == items@.len(),
                    out@ == "Seq(["@ + value_forms(s.subrange(0, i as int)),
            {
                let ghost before = out@;
                if i > 0 {
                    out.append(", ");
                }
                out.append(value_message(&items[i]).as_str());
                proof {
                    let t = s.subrange(0, i + 1);
                    assert(t.drop_last() =~= s.subrange(0, i as int));
                    assert(t[t.len() - 1] == items@[i as int]@);
                    assert(out@ =~= before + comma(i as int) + value_form(t[t.len() - 1]));
                    assert(out@ =~= "Seq(["@ + value_forms(t));
                }
            }
            out.append("])");
            assert(s.subrange(0, items@.len() as int) =~= s);
            out
        },
        ResolvedValue::Mapping(entries) => {
            let mut out = "Map({".to_owned();
            let ghost m = v@->Mapping_0;
            assert(m.subrange(0, 0) =~= Seq::empty());
            assert(out@ =~= "Map({"@ + entry_forms(m.subrange(0, 0)));
            for i in 0..entries.len()
                invariant
                    v is Mapping,
                    v->Mapping_0 == entries,
                    m == v@->Mapping_0,
                    m.len() == entries@.len(),
                    out@ == "Map({"@ + entry_forms(m.subrange(0, i as int)),
            {
                let ghost before = out@;
                if i > 0 {
                    out.append(", ");
                }
                out.append(quote(entries[i].0.as_str()).as_str());
                out.append(": ");
                out.append(value_message(&entries[i].1).as_str());
                proof {
                    let t = m.subrange(0, i + 1);
                    let e = t[t.len() - 1];
                    assert(t.drop_last() =~= m.subrange(0, i as int));
                    assert(e.0 == entries@[i as int].0@ && e.1 == entries@[i as int].1@);
                    assert(out@ =~= before + comma(i as int) + crate::text::quoted(e.0) + ": "@
                        + value_form(e.1));
                    assert(out@ =~= "Map({"@ + entry_forms(t));
                }
            }
            out.append("})");
            assert(m.subrange(0, entries@.len() as int) =~= m);
            out
        },
    }
}

// ---------------------------------------------------------------------------
// Lemmas
// ---------------------------------------------------------------------------

/// Merging keeps the text and the references, leaves no literal next to
/// another, and gives at most one part where every part is literal.
proof fn lemma_merged(parts: Seq<PartView>)
    ensures
        parts_text(merged(parts)) == parts_text(parts),
        parts_refs(merged(parts)) == parts_refs(parts),
        all_literal(merged(parts)) == all_literal(parts),
        forall|i: int|
            0 <= i < merged(parts).len() - 1 ==> !(#[trigger] merged(parts)[i] is Literal
                && merged(parts)[i + 1] is Literal),
    decreases parts.len(),
{
    if parts.len() > 0 {
        let rest = parts.drop_last();
        let p = parts.last();
        let m = merged(rest);
        let r = merge_one(m, p);
        lemma_merged(rest);
        assert(parts =~= rest.push(p));
        assert(all_literal(parts) == (all_literal(rest) && p is Literal)) by {
            if all_literal(rest) && p is Literal {
                assert forall|i: int| 0 <= i < parts.len() implies (
                #[trigger] parts[i]) is Literal by {
                    if i < rest.len() {
                        assert(rest[i] is Literal);
                    }
                }
            }
            if all_literal(parts) {
                assert forall|i: int| 0 <= i < rest.len() implies (
                #[trigger] rest[i]) is Literal by {
                    assert(parts[i] is Literal);
                }
                assert(parts[parts.len() - 1] is Literal);
            }
        }
        if m.len() > 0 && m.last() is Literal && p is Literal {
            assert(r.drop_last() =~= m.drop_last());
            assert(parts_text(r) =~= parts_text(m) + part_text(p));
            assert(parts_refs(r) == parts_refs(m));
            assert(all_literal(r) == all_literal(m)) by {
                if all_literal(m) {
                    assert forall|i: int| 0 <= i < r.len() implies (#[trigger] r[i]) is Literal by {
                        if i < m.len() - 1 {
                            assert(m[i] is Literal);
                        }
                    }
                }
                if all_literal(r) {
                    assert forall|i: int| 0 <= i < m.len() implies (#[trigger] m[i]) is Literal by {
                        if i < m.len() - 1 {
                            assert(r[i] is Literal);
                        }
                    }
                }
            }
            assert forall|i: int| 0 <= i < r.len() - 1 implies !(#[trigger] r[i] is Literal && r[i
                + 1] is Literal) by {
                assert(m[i] is Literal ==> !(m[i + 1] is Literal));
                assert(r[i] == m[i]);
            }
        } else {
            assert(r.drop_last() =~= m);
            assert(all_literal(r) == (all_literal(m) && p is Literal)) by {
                if all_literal(m) && p is Literal {
                    assert forall|i: int| 0 <= i < r.len() implies (#[trigger] r[i]) is Literal by {
                        if i < m.len() {
                            assert(m[i] is Literal);
                        }
                    }
                }
                if all_literal(r) {
                    assert forall|i: int| 0 <= i < m.len() implies (#[trigger] m[i]) is Literal by {
                        assert(r[i] is Literal);
                    }
                    assert(r[r.len() - 1] is Literal);
                }
            }
            assert forall|i: int| 0 <= i < r.len() - 1 implies !(#[trigger] r[i] is Literal && r[i
                + 1] is Literal) by {
                if i < m.len() - 1 {
                    assert(m[i] is Literal ==> !(m[i + 1] is Literal));
                }
            }
        }
    }
}

// ---------------------------------------------------------------------------
// Operations
// ---------------------------------------------------------------------------

impl ResolvedValue {
    /// Builds a string-valued `ResolvedValue` from interpolation parts,
    /// normalizing degenerate shapes:
    ///
    /// - adjacent literals are merged
    /// - all-literal parts collapse to `Concrete(String)`
    /// - a single bare `Ref` / `GetAtt` part is promoted to the corresponding
    ///   typed variant
    pub fn from_parts(parts: Vec<StringPart>) -> (r: Self)
        ensures
            r@ == value_of_parts(part_views(parts@)),
    {
        let mut m: Vec<StringPart> = Vec::new();
        let mut literal_only: bool = true;
        let ghost pv = part_views(parts@);
        let mut i: usize = 0;
        while i < parts.len()
            invariant
                i <= parts@.len(),
                pv == part_views(parts@),
                part_views(m@) == merged(pv.subrange(0, i as int)),
                literal_only == all_literal(pv.subrange(0, i as int)),
            decreases parts@.len() - i,
        {
            let ghost before = m@;
            let part = parts[i].clone();
            let ghost seen = pv.subrange(0, i as int);
            let ghost now = pv.subrange(0, i + 1);
            proof {
                assert(now.drop_last() =~= seen);
                assert(now.last() == part@);
                if all_literal(now) {
                    assert(now[i as int] is Literal);
                    assert forall|k: int| 0 <= k < seen.len() implies (
                    #[trigger] seen[k]) is Literal by {
                        assert(now[k] is Literal);
                    }
                }
                if all_literal(seen) && part@ is Literal {
                    assert forall|k: int| 0 <= k < now.len() implies (
                    #[trigger] now[k]) is Literal by {
                        if k < i {
                            assert(seen[k] is Literal);
                        }
                    }
                }
            }
            match part {
                StringPart::Literal(next) => {
                    let extends: bool = m.len() > 0 && match &m[m.len() - 1] {
                        StringPart::Literal(_) => true,
                        _ => false,
                    };
                    if extends {
                        let last = m.pop();
                        if let Some(StringPart::Literal(prev)) = last {
                            let mut text = prev;
                            text.append(next.as_str());
                            m.push(StringPart::Literal(text));
                            assert(part_views(m@) =~= merge_one(
                                part_views(before),
                                PartView::Literal(next@),
                            ));
                        }
                    } else {
                        m.push(StringPart::Literal(next));
                        assert(part_views(m@) =~= merge_one(
                            part_views(before),
                            PartView::Literal(next@),
                        ));
                    }
                },
                other => {
                    literal_only = false;
                    m.push(other);
                    assert(part_views(m@) =~= merge_one(part_views(before), other@));
                },
            }
            i = i + 1;
        }
        proof {
            assert(pv.subrange(0, i as int) =~= pv);
            lemma_merged(pv);
        }
        if literal_only {
            let ghost mv = part_views(m@);
            if m.len() == 0 {
                assert(parts_text(mv) =~= Seq::empty());
                return ResolvedValue::Concrete(Yaml::String(String::new()));
            }
            proof {
                assert(m@.len() == 1) by {
                    if m@.len() > 1 {
                        assert(mv[0] is Literal);
                        assert(mv[1] is Literal);
                        assert(!(merged(pv)[0] is Literal && merged(pv)[1] is Literal));
                    }
                }
                reveal_with_fuel(parts_text, 2);
                assert(mv.drop_last() =~= Seq::empty());
                assert(mv[0] is Literal);
                assert(parts_text(mv) =~= mv[0]->Literal_0);
            }
            match &m[0] {
                StringPart::Literal(s) => {
                    return ResolvedValue::Concrete(Yaml::String(s.clone()));
                },
                _ => {
                    assert(false);
                },
            }
        }
        if m.len() == 1 {
            return match &m[0] {
                StringPart::Ref(id) => ResolvedValue::Ref(id.clone()),
                StringPart::GetAtt { logical_id, attr } => ResolvedValue::GetAtt {
                    logical_id: logical_id.clone(),
                    attr: attr.clone(),
                },
                StringPart::Literal(s) => ResolvedValue::Concrete(Yaml::String(s.clone())),
            };
        }
        ResolvedValue::Interpolated(m)
    }

    /// The string slice for `Concrete(Yaml::String)` values.
    pub fn as_str(&self) -> (r: Option<&str>)
        ensures
            match r {
                Some(s) => resolved_str(self@) == Some(s@),
                None => resolved_str(self@) is None,
            },
    {
        match self {
            ResolvedValue::Concrete(Yaml::String(s)) => Some(s.as_str()),
            _ => None,
        }
    }

    /// Lookup by string key (`Mapping` variant only).
    pub fn get(&self, key: &str) -> (r: Option<&ResolvedValue>)
        ensures
            match r {
                Some(v) => resolved_get(self@, key@) == Some(v@),
                None => resolved_get(self@, key@) is None,
            },
    {
        match self {
            ResolvedValue::Mapping(map) => {
                proof {
                    assert(self@->Mapping_0 =~= resolved_entries(map@));
                    lemma_lookup_views(map@, key@);
                }
                vec_get(map, key)
            },
            _ => None,
        }
    }

    /// The elements of the `Sequence` variant.
    pub fn as_seq(&self) -> (r: Option<&Vec<ResolvedValue>>)
        ensures
            match r {
                Some(v) => resolved_items(self@) == Some(resolved_views(v@)),
                None => resolved_items(self@) is None,
            },
    {
        match self {
            ResolvedValue::Sequence(items) => {
                assert(self@->Sequence_0 =~= resolved_views(items@));
                Some(items)
            },
            _ => None,
        }
    }

    /// The elements of a value in the shape of a sequence: the structural
    /// `Sequence` variant, or a `Concrete` YAML sequence.
    pub fn into_seq(self) -> (r: Option<Vec<ResolvedValue>>)
        ensures
            match r {
                Some(v) => resolved_list(self@) == Some(resolved_views(v@)),
                None => resolved_list(self@) is None,
            },
    {
        match self {
            ResolvedValue::Sequence(items) => {
                assert(self@->Sequence_0 =~= resolved_views(items@));
                Some(items)
            },
            ResolvedValue::Concrete(Yaml::Sequence(items)) => {
                let mut out: Vec<ResolvedValue> = Vec::new();
                for i in 0..items.len()
                    invariant
                        out@.len() == i,
                        forall|j: int|
                            0 <= j < i ==> (#[trigger] out@[j])@ == ResolvedView::Concrete(
                                items@[j]@,
                            ),
                {
                    out.push(ResolvedValue::Concrete(items[i].clone()));
                }
                proof {
                    let s = self@->Concrete_0->Sequence_0;
                    assert(resolved_views(out@) =~= s.map_values(
                        |y: YamlView| ResolvedView::Concrete(y),
                    ));
                }
                Some(out)
            },
            _ => None,
        }
    }

    /// All resource references carried *directly* by this value: `Ref` /
    /// `GetAtt` yield one reference, `Interpolated` yields every non-literal
    /// part in order, everything else yields none.
    ///
    /// This does not look into containers.
    pub fn references(&self) -> (r: Vec<Reference>)
        ensures
            ref_views(r@) == resolved_refs(self@),
    {
        let mut out: Vec<Reference> = Vec::new();
        match self {
            ResolvedValue::Ref(id) => {
                out.push(Reference { logical_id: id.clone(), attr: None });
            },
            ResolvedValue::GetAtt { logical_id, attr } => {
                out.push(Reference { logical_id: logical_id.clone(), attr: Some(attr.clone()) });
            },
            ResolvedValue::Interpolated(parts) => {
                let ghost pv = part_views(parts@);
                for i in 0..parts.len()
                    invariant
                        pv == part_views(parts@),
                        ref_views(out@) == parts_refs(pv.subrange(0, i as int)),
                {
                    let ghost before = out@;
                    proof {
                        let now = pv.subrange(0, i + 1);
                        assert(now.drop_last() =~= pv.subrange(0, i as int));
                        assert(now.last() == parts@[i as int]@);
                    }
                    match &parts[i] {
                        StringPart::Literal(_) => {},
                        StringPart::Ref(id) => {
                            let r = Reference { logical_id: id.clone(), attr: None };
                            out.push(r);
                            assert(ref_views(out@) =~= ref_views(before).push(r@));
                        },
                        StringPart::GetAtt { logical_id, attr } => {
                            let r = Reference {
                                logical_id: logical_id.clone(),
                                attr: Some(attr.clone()),
                            };
                            out.push(r);
                            assert(ref_views(out@) =~= ref_views(before).push(r@));
                        },
                    }
                }
                assert(pv.subrange(0, parts@.len() as int) =~= pv);
            },
            _ => {},
        }
        assert(ref_views(out@) =~= resolved_refs(self@));
        out
    }
}

/// Looking up and taking the model is taking the model and looking up.
pub proof fn lemma_lookup_views(v: Seq<(String, ResolvedValue)>, key: Seq<char>)
    ensures
        crate::strmap::lookup(resolved_entries(v), key) == match crate::strmap::lookup(
            crate::strmap::pairs(v),
            key,
        ) {
            Some(x) => Some(x@),
            None => None,
        },
    decreases v.len(),
{
    if v.len() > 0 {
        assert(resolved_entries(v).drop_first() =~= resolved_entries(v.drop_first()));
        assert(crate::strmap::pairs(v).drop_first() =~= crate::strmap::pairs(v.drop_first()));
        lemma_lookup_views(v.drop_first(), key);
    }
}

/// Appends a reference in the `${...}` syntax.
fn push_ref(out: &mut String, id: &str)
    ensures
        final(out)@ == old(out)@ + ref_text(id@),
{
    out.push('$');
    out.push('{');
    out.append(id);
    out.push('}');
    assert(out@ =~= old(out)@ + ref_text(id@));
}

/// Appends an attribute reference in the `${...}` syntax.
fn push_getatt(out: &mut String, id: &str, attr: &str)
    ensures
        final(out)@ == old(out)@ + getatt_text(id@, attr@),
{
    out.push('$');
    out.push('{');
    out.append(id);
    out.push('.');
    out.append(attr);
    out.push('}');
    assert(out@ =~= old(out)@ + getatt_text(id@, attr@));
}

/// Renders interpolation parts to a `CloudFormation`-native string, using the
/// `${LogicalId}` / `${LogicalId.Attr}` substitution syntax for references.
pub fn render_parts(parts: &Vec<StringPart>) -> (r: String)
    ensures
        r@ == parts_text(part_views(parts@)),
{
    let mut out = String::new();
    let ghost pv = part_views(parts@);
    for i in 0..parts.len()
        invariant
            pv == part_views(parts@),
            out@ == parts_text(pv.subrange(0, i as int)),
    {
        proof {
            let now = pv.subrange(0, i + 1);
            assert(now.drop_last() =~= pv.subrange(0, i as int));
            assert(now.last() == parts@[i as int]@);
        }
        match &parts[i] {
            StringPart::Literal(s) => {
                out.append(s.as_str());
            },
            StringPart::Ref(id) => {
                push_ref(&mut out, id.as_str());
            },
            StringPart::GetAtt { logical_id, attr } => {
                push_getatt(&mut out, logical_id.as_str(), attr.as_str());
            },
        }
    }
    assert(pv.subrange(0, parts@.len() as int) =~= pv);
    out
}

/// Renders a lone reference.
pub fn render_ref(id: &str) -> (r: String)
    ensures
        r@ == ref_text(id@),
{
    let mut out = String::new();
    push_ref(&mut out, id);
    assert(out@ =~= ref_text(id@));
    out
}

/// Renders a lone attribute reference.
pub fn render_getatt(id: &str, attr: &str) -> (r: String)
    ensures
        r@ == getatt_text(id@, attr@),
{
    let mut out = String::new();
    push_getatt(&mut out, id, attr);
    assert(out@ =~= getatt_text(id@, attr@));
    out
}

// ---------------------------------------------------------------------------
// Laws
// ---------------------------------------------------------------------------

/// The text of a string-shaped value, its references in the `${...}` syntax.
pub open spec fn resolved_text(v: ResolvedView) -> Option<Seq<char>> {
    match v {
        ResolvedView::Concrete(YamlView::String(s)) => Some(s),
        ResolvedView::Ref(id) => Some(ref_text(id)),
        ResolvedView::GetAtt { logical_id, attr } => Some(getatt_text(logical_id, attr)),
        ResolvedView::Interpolated(parts) => Some(parts_text(parts)),
        _ => None,
    }
}

/// Building a value from parts changes neither its text nor the references
/// that it carries.
pub proof fn law_from_parts_keeps(parts: Seq<PartView>)
    ensures
        resolved_text(value_of_parts(parts)) == Some(parts_text(parts)),
        resolved_refs(value_of_parts(parts)) == parts_refs(parts),
{
    lemma_merged(parts);
    let m = merged(parts);
    if all_literal(parts) {
        lemma_literals_have_no_refs(parts);
    } else if m.len() == 1 {
        reveal_with_fuel(parts_text, 2);
        reveal_with_fuel(parts_refs, 2);
        assert(m.drop_last() =~= Seq::empty());
        assert(!all_literal(m));
        assert(parts_text(m) =~= part_text(m[0]));
        assert(parts_refs(m) =~= seq![part_ref(m[0])->Some_0]);
    }
}

/// Literals carry no references.
proof fn lemma_literals_have_no_refs(parts: Seq<PartView>)
    requires
        all_literal(parts),
    ensures
        parts_refs(parts) == Seq::<RefView>::empty(),
    decreases parts.len(),
{
    if parts.len() > 0 {
        assert(parts[parts.len() - 1] is Literal);
        assert forall|i: int| 0 <= i < parts.drop_last().len() implies (
        #[trigger] parts.drop_last()[i]) is Literal by {
            assert(parts[i] is Literal);
        }
        lemma_literals_have_no_refs(parts.drop_last());
    }
}

/// A value built from parts is interpolated only where it holds a reference
/// next to something else, and then no two literals stand side by side.
pub proof fn law_from_parts_normalizes(parts: Seq<PartView>)
    ensures
        value_of_parts(parts) matches ResolvedView::Interpolated(m) ==> m.len() >= 2
            && parts_refs(m).len() >= 1 && forall|i: int|
            0 <= i < m.len() - 1 ==> !(#[trigger] m[i] is Literal && m[i + 1] is Literal),
{
    lemma_merged(parts);
    let m = merged(parts);
    if !all_literal(parts) {
        lemma_some_ref(m);
        if m.len() == 0 {
            assert(all_literal(m));
        }
    }
}

/// Parts that are not all literal carry a reference.
proof fn lemma_some_ref(parts: Seq<PartView>)
    requires
        !all_literal(parts),
    ensures
        parts_refs(parts).len() >= 1,
    decreases parts.len(),
{
    if parts.len() > 0 && parts.last() is Literal {
        assert(!all_literal(parts.drop_last())) by {
            if all_literal(parts.drop_last()) {
                assert forall|i: int| 0 <= i < parts.len() implies (
                #[trigger] parts[i]) is Literal by {
                    if i < parts.len() - 1 {
                        assert(parts.drop_last()[i] is Literal);
                    }
                }
            }
        }
        lemma_some_ref(parts.drop_last());
    }
}

} // verus!
