//! What holds of the JSON and the properties that values of a template become.

use vstd::prelude::*;

use crate::cfn::convert::json_of;
use crate::cfn::convert::json_of_yaml;
use crate::cfn::convert::properties_of;
use crate::cfn::convert::property_of;
use crate::cfn::resolved::parts_refs;
use crate::cfn::resolved::parts_text;
use crate::cfn::resolved::PartView;
use crate::cfn::resolved::ResolvedView;
use crate::cfn::sentinel::RefView;
use crate::iac::PropertyView;
use crate::json::JsonView;
use crate::strmap::lookup;
use crate::yaml::yaml_str;
use crate::yaml::YamlView;

verus! {

/// The entry at `i` is the last with a string key.
pub open spec fn last_with_key(m: Seq<(YamlView, YamlView)>, i: int, key: Seq<char>) -> bool {
    &&& 0 <= i < m.len()
    &&& m[i].0 == YamlView::String(key)
    &&& forall|j: int| i < j < m.len() ==> yaml_str((#[trigger] m[j]).0) != Some(key)
}

/// No entry has a string key.
pub open spec fn no_key(m: Seq<(YamlView, YamlView)>, key: Seq<char>) -> bool {
    forall|j: int| 0 <= j < m.len() ==> yaml_str((#[trigger] m[j]).0) != Some(key)
}

proof fn lemma_jsons(s: Seq<YamlView>)
    ensures
        crate::cfn::convert::jsons_of_yaml(s).len() == s.len(),
        forall|i: int|
            0 <= i < s.len() ==> #[trigger] crate::cfn::convert::jsons_of_yaml(s)[i]
                == json_of_yaml(s[i]),
    decreases s.len(),
{
    if s.len() > 0 {
        lemma_jsons(s.drop_last());
    }
}

proof fn lemma_object(m: Seq<(YamlView, YamlView)>, key: Seq<char>, i: int)
    ensures
        last_with_key(m, i, key) ==> lookup(crate::cfn::convert::object_of_yaml(m), key) == Some(
            json_of_yaml(m[i].1),
        ),
        no_key(m, key) ==> lookup(crate::cfn::convert::object_of_yaml(m), key) is None,
    decreases m.len(),
{
    if m.len() == 0 {
        crate::strmap::lemma_lookup_none(crate::cfn::convert::object_of_yaml(m), key);
    } else {
        let t = m.drop_last();
        let last = m.last();
        lemma_object(t, key, i);
        assert(m[m.len() - 1] == last);
        assert(yaml_str(YamlView::String(key)) == Some(key));
        if let Some(k) = yaml_str(last.0) {
            crate::strmap::lemma_lookup_inserted(
                crate::cfn::convert::object_of_yaml(t),
                k,
                json_of_yaml(last.1),
                key,
            );
        }
        if no_key(m, key) {
            assert(no_key(t, key)) by {
                assert forall|j: int| 0 <= j < t.len() implies yaml_str((#[trigger] t[j]).0)
                    != Some(key) by {
                    assert(t[j] == m[j]);
                }
            }
        }
        if last_with_key(m, i, key) && i < m.len() - 1 {
            assert(t[i] == m[i]);
            assert forall|j: int| i < j < t.len() implies yaml_str((#[trigger] t[j]).0) != Some(
                key,
            ) by {
                assert(t[j] == m[j]);
            }
        }
    }
}

/// The JSON of a YAML list is the list of the JSON of its items. That of a mapping
/// has under each string key the JSON of the last value with that key, and nothing
/// under any other key.
pub proof fn law_json_follows_the_yaml(
    s: Seq<YamlView>,
    m: Seq<(YamlView, YamlView)>,
    key: Seq<char>,
    i: int,
)
    ensures
        json_of_yaml(YamlView::Sequence(s)) matches JsonView::Array(a) && a.len() == s.len() && (
        forall|k: int| 0 <= k < s.len() ==> #[trigger] a[k] == json_of_yaml(s[k])),
        json_of_yaml(YamlView::Mapping(m)) matches JsonView::Object(o) && (last_with_key(m, i, key)
            ==> lookup(o, key) == Some(json_of_yaml(m[i].1))) && (no_key(m, key) ==> lookup(
            o,
            key,
        ) is None),
{
    lemma_jsons(s);
    lemma_object(m, key, i);
}

proof fn lemma_yaml_properties(m: Seq<(YamlView, YamlView)>, key: Seq<char>, i: int)
    ensures
        last_with_key(m, i, key) ==> lookup(crate::cfn::convert::properties_of_yaml(m), key)
            == Some(PropertyView::Concrete(json_of_yaml(m[i].1))),
        no_key(m, key) ==> lookup(crate::cfn::convert::properties_of_yaml(m), key) is None,
    decreases m.len(),
{
    if m.len() == 0 {
        crate::strmap::lemma_lookup_none(crate::cfn::convert::properties_of_yaml(m), key);
    } else {
        let t = m.drop_last();
        let last = m.last();
        lemma_yaml_properties(t, key, i);
        assert(m[m.len() - 1] == last);
        assert(yaml_str(YamlView::String(key)) == Some(key));
        if let Some(k) = yaml_str(last.0) {
            crate::strmap::lemma_lookup_inserted(
                crate::cfn::convert::properties_of_yaml(t),
                k,
                PropertyView::Concrete(json_of_yaml(last.1)),
                key,
            );
        }
        if no_key(m, key) {
            assert(no_key(t, key)) by {
                assert forall|j: int| 0 <= j < t.len() implies yaml_str((#[trigger] t[j]).0)
                    != Some(key) by {
                    assert(t[j] == m[j]);
                }
            }
        }
        if last_with_key(m, i, key) && i < m.len() - 1 {
            assert(t[i] == m[i]);
            assert forall|j: int| i < j < t.len() implies yaml_str((#[trigger] t[j]).0) != Some(
                key,
            ) by {
                assert(t[j] == m[j]);
            }
        }
    }
}

/// Properties that hold no reference are read as JSON under their keys, and what is
/// no mapping has no properties.
pub proof fn law_plain_properties(
    m: Seq<(YamlView, YamlView)>,
    key: Seq<char>,
    i: int,
    s: Seq<char>,
)
    ensures
        last_with_key(m, i, key) ==> lookup(
            properties_of(ResolvedView::Concrete(YamlView::Mapping(m))),
            key,
        ) == Some(PropertyView::Concrete(json_of_yaml(m[i].1))),
        no_key(m, key) ==> lookup(
            properties_of(ResolvedView::Concrete(YamlView::Mapping(m))),
            key,
        ) is None,
        properties_of(ResolvedView::Concrete(YamlView::String(s))).len() == 0,
        properties_of(ResolvedView::Concrete(YamlView::Null)).len() == 0,
{
    lemma_yaml_properties(m, key, i);
}

/// The text of parts is their texts one after the other: a literal as it is, a
/// reference as `${id}`, and one to an attribute as `${id.attr}`.
pub proof fn law_parts_are_rendered(
    parts: Seq<PartView>,
    literal: Seq<char>,
    id: Seq<char>,
    attr: Seq<char>,
)
    ensures
        parts_text(Seq::empty()).len() == 0,
        parts_text(parts.push(PartView::Literal(literal))) == parts_text(parts) + literal,
        parts_text(parts.push(PartView::Ref(id))) == parts_text(parts) + (seq!['$', '{'] + id + seq![
            '}',
        ]),
        parts_text(parts.push(PartView::GetAtt { logical_id: id, attr })) == parts_text(parts) + (
        seq!['$', '{'] + id + seq!['.'] + attr + seq!['}']),
{
    let a = parts.push(PartView::Literal(literal));
    assert(a.drop_last() =~= parts);
    let b = parts.push(PartView::Ref(id));
    assert(b.drop_last() =~= parts);
    let c = parts.push(PartView::GetAtt { logical_id: id, attr });
    assert(c.drop_last() =~= parts);
}

/// The references of parts are those of the parts that are references, in order,
/// and literals have none.
pub proof fn law_parts_carry_references(
    parts: Seq<PartView>,
    literal: Seq<char>,
    id: Seq<char>,
    attr: Seq<char>,
)
    ensures
        parts_refs(Seq::empty()).len() == 0,
        parts_refs(parts.push(PartView::Literal(literal))) == parts_refs(parts),
        parts_refs(parts.push(PartView::Ref(id))) == parts_refs(parts).push(
            RefView { logical_id: id, attr: None },
        ),
        parts_refs(parts.push(PartView::GetAtt { logical_id: id, attr })) == parts_refs(
            parts,
        ).push(RefView { logical_id: id, attr: Some(attr) }),
{
    let a = parts.push(PartView::Literal(literal));
    assert(a.drop_last() =~= parts);
    let b = parts.push(PartView::Ref(id));
    assert(b.drop_last() =~= parts);
    let c = parts.push(PartView::GetAtt { logical_id: id, attr });
    assert(c.drop_last() =~= parts);
}

/// A text with references becomes the text of its parts. One that is a single
/// reference stays that, and lists and mappings become their JSON.
pub proof fn law_properties_of_texts(
    parts: Seq<PartView>,
    s: Seq<ResolvedView>,
    m: Seq<(Seq<char>, ResolvedView)>,
    id: Seq<char>,
    attr: Seq<char>,
)
    ensures
        parts.len() > 1 ==> property_of(ResolvedView::Interpolated(parts))
            == PropertyView::Concrete(JsonView::String(parts_text(parts))),
        property_of(ResolvedView::Interpolated(seq![PartView::Ref(id)]))
            == (PropertyView::ResourceRef { logical_id: id }),
        property_of(
            ResolvedView::Interpolated(seq![PartView::GetAtt { logical_id: id, attr }]),
        ) == (PropertyView::ResourceAttr { logical_id: id, attr }),
        property_of(ResolvedView::Sequence(s)) == PropertyView::Concrete(
            json_of(ResolvedView::Sequence(s)),
        ),
        property_of(ResolvedView::Mapping(m)) == PropertyView::Concrete(
            json_of(ResolvedView::Mapping(m)),
        ),
        json_of(ResolvedView::Interpolated(parts)) == JsonView::String(parts_text(parts)),
{
}

} // verus!
