//! What holds of the properties that adapters read.

use vstd::prelude::*;

use crate::iac::concrete_property;
use crate::iac::concrete_text;
use crate::iac::described_properties;
use crate::iac::property_bool;
use crate::iac::property_number;
use crate::iac::property_text;
use crate::iac::PropertyView;
use crate::json::JsonView;
use crate::strmap::lookup;
use crate::yaml::NumberView;

verus! {

/// A property that is a string gives its text, and one that is interpolated gives
/// its rendered form to templates alone. Nothing else gives a text.
pub proof fn law_texts(p: PropertyView)
    ensures
        p matches PropertyView::Concrete(JsonView::String(s)) ==> property_text(Some(p)) == Some(s)
            && concrete_text(Some(p)) == Some(s),
        p matches PropertyView::Interpolated { parts, rendered } ==> property_text(Some(p)) == Some(
            rendered,
        ) && concrete_text(Some(p)) is None,
        p is ResourceRef || p is ResourceAttr ==> property_text(Some(p)) is None && concrete_text(
            Some(p),
        ) is None,
        p matches PropertyView::Concrete(j) && !(j is String) ==> property_text(Some(p)) is None
            && concrete_text(Some(p)) is None,
        property_text(None) is None,
        concrete_text(None) is None,
{
}

/// A property that is a number gives it, and so does a string that writes one, as it
/// is written. Nothing else gives a number.
pub proof fn law_numbers(p: PropertyView)
    ensures
        p matches PropertyView::Concrete(JsonView::Number(n)) ==> property_number(Some(p)) == Some(
            n,
        ),
        p matches PropertyView::Concrete(JsonView::String(s)) ==> property_number(Some(p)) == if crate::text::is_float_text(
            s,
        ) {
            Some(NumberView::Float(s))
        } else {
            None
        },
        p matches PropertyView::Concrete(j) && !(j is String) && !(j is Number)
            ==> property_number(Some(p)) is None,
        !(p is Concrete) ==> property_number(Some(p)) is None,
        property_number(None) is None,
{
}

/// A property that is a boolean gives it, and so does a string that says `true` or
/// `false` in any case. Nothing else gives a boolean.
pub proof fn law_booleans(p: PropertyView)
    ensures
        p matches PropertyView::Concrete(JsonView::Bool(b)) ==> property_bool(Some(p)) == Some(b),
        p matches PropertyView::Concrete(JsonView::String(s)) ==> {
            &&& crate::text::lowercase(s) == "true"@ ==> property_bool(Some(p)) == Some(true)
            &&& crate::text::lowercase(s) == "false"@ ==> property_bool(Some(p)) == Some(false)
            &&& crate::text::lowercase(s) != "true"@ && crate::text::lowercase(s) != "false"@
                ==> property_bool(Some(p)) is None
        },
        p matches PropertyView::Concrete(j) && !(j is String) && !(j is Bool) ==> property_bool(
            Some(p),
        ) is None,
        !(p is Concrete) ==> property_bool(Some(p)) is None,
        property_bool(None) is None,
{
    reveal_strlit("true");
    reveal_strlit("false");
    assert("true"@.len() == 4);
    assert("false"@.len() == 5);
}

/// Every entry of an object is a concrete property under its key, where no later
/// entry has the key, and there is no property under another key. What is no object
/// has no properties.
pub proof fn law_described_properties(j: JsonView, m: Seq<(Seq<char>, JsonView)>, key: Seq<char>)
    ensures
        j == JsonView::Object(m) ==> ({
            let found = lookup(described_properties(j), key);
            &&& forall|i: int|
                0 <= i < m.len() && (#[trigger] m[i]).0 == key && (forall|k: int|
                    i < k < m.len() ==> (#[trigger] m[k]).0 != key) ==> concrete_property(found)
                    == Some(m[i].1)
            &&& (forall|i: int| 0 <= i < m.len() ==> (#[trigger] m[i]).0 != key) ==> found is None
        }),
        !(j is Object) ==> lookup(described_properties(j), key) is None,
    decreases m.len(),
{
    if j == JsonView::Object(m) {
        if m.len() > 0 {
            let rest = m.drop_last();
            let last = m.last();
            law_described_properties(JsonView::Object(rest), rest, key);
            let before = crate::iac::concrete_entries(rest);
            crate::strmap::lemma_lookup_inserted(
                before,
                last.0,
                PropertyView::Concrete(last.1),
                key,
            );
            let found = lookup(described_properties(j), key);
            assert forall|i: int|
                0 <= i < m.len() && (#[trigger] m[i]).0 == key && (forall|k: int|
                    i < k < m.len() ==> (#[trigger] m[k]).0 != key) implies concrete_property(found)
                == Some(m[i].1) by {
                if i < m.len() - 1 {
                    assert(m[m.len() - 1].0 != key);
                    assert(rest[i] == m[i]);
                    assert forall|k: int| i < k < rest.len() implies (#[trigger] rest[k]).0
                        != key by {
                        assert(rest[k] == m[k]);
                    }
                }
            }
            if forall|i: int| 0 <= i < m.len() ==> (#[trigger] m[i]).0 != key {
                assert(m[m.len() - 1].0 != key);
                assert forall|i: int| 0 <= i < rest.len() implies (#[trigger] rest[i]).0
                    != key by {
                    assert(rest[i] == m[i]);
                }
            }
        } else {
            crate::strmap::lemma_lookup_none(Seq::<(Seq<char>, PropertyView)>::empty(), key);
        }
    } else if !(j is Object) {
        crate::strmap::lemma_lookup_none(Seq::<(Seq<char>, PropertyView)>::empty(), key);
    }
}

} // verus!
