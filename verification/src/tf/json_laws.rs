//! What holds of the JSON that values of a configuration become.

use vstd::prelude::*;

use crate::json::JsonView;
use crate::strmap::lookup;
use crate::tf::convert::json_of;
use crate::tf::convert::raw_of;
use crate::tf::parser::TfResourceView;
use crate::tf::parser::TfView;
use crate::tf::resolver::TfEntries;

verus! {

proof fn lemma_items_join(a: Seq<TfView>, b: Seq<TfView>)
    ensures
        crate::tf::convert::json_items(a + b) == crate::tf::convert::json_items(a)
            + crate::tf::convert::json_items(b),
    decreases b.len(),
{
    if b.len() == 0 {
        assert(a + b =~= a);
        assert(crate::tf::convert::json_items(a) + crate::tf::convert::json_items(b)
            =~= crate::tf::convert::json_items(a));
    } else {
        lemma_items_join(a, b.drop_last());
        assert((a + b).drop_last() =~= a + b.drop_last());
        assert((a + b).last() == b.last());
        assert(crate::tf::convert::json_items(a + b) =~= crate::tf::convert::json_items(a)
            + crate::tf::convert::json_items(b));
    }
}

/// An array of one value becomes an array of its JSON, and an empty one where it has
/// none. The JSON of joined arrays is the arrays of both, joined.
pub proof fn law_arrays_become_arrays(v: TfView, a: Seq<TfView>, b: Seq<TfView>)
    ensures
        json_of(TfView::Array(seq![v])) matches Some(JsonView::Array(s)) && match json_of(v) {
            Some(j) => s.len() == 1 && s[0] == j,
            None => s.len() == 0,
        },
        match (
            json_of(TfView::Array(a)),
            json_of(TfView::Array(b)),
            json_of(TfView::Array(a + b)),
        ) {
            (
                Some(JsonView::Array(x)),
                Some(JsonView::Array(y)),
                Some(JsonView::Array(z)),
            ) => z == x + y,
            _ => false,
        },
{
    let one = seq![v];
    assert(one.drop_last() =~= Seq::empty());
    assert(one.last() == v);
    assert(crate::tf::convert::json_items(Seq::empty()).len() == 0);
    lemma_items_join(a, b);
}

proof fn lemma_fields(m: TfEntries, key: Seq<char>)
    requires
        crate::strmap::keys_rise(m),
    ensures
        lookup(crate::tf::convert::json_fields(m), key) == match lookup(m, key) {
            Some(v) => json_of(v),
            None => None,
        },
    decreases m.len(),
{
    if m.len() == 0 {
        crate::strmap::lemma_lookup_none(crate::tf::convert::json_fields(m), key);
        crate::strmap::lemma_lookup_none(m, key);
    } else {
        let t = m.drop_last();
        let last = m.last();
        assert forall|i: int, j: int| 0 <= i < j < t.len() implies crate::text::text_lt(
            #[trigger] t[i].0,
            #[trigger] t[j].0,
        ) by {
            assert(crate::text::text_lt(m[i].0, m[j].0));
        }
        lemma_fields(t, key);
        assert(t.push(last) =~= m);
        if key != last.0 {
            crate::cfn::laws::lemma_lookup_push(t, last, key);
        } else {
            crate::strmap::lemma_lookup_sorted(m, m.len() - 1);
            if json_of(last.1) is None {
                crate::strmap::lemma_lookup(t, key);
                if lookup(t, key) is Some {
                    let i = choose|i: int| 0 <= i < t.len() && (#[trigger] t[i]).0 == key;
                    assert(crate::text::text_lt(m[i].0, m[m.len() - 1].0));
                    crate::text::lemma_text_lt_irreflexive(key);
                }
            }
        }
        if let Some(j) = json_of(last.1) {
            crate::strmap::lemma_lookup_inserted(
                crate::tf::convert::json_fields(t),
                last.0,
                j,
                key,
            );
        }
    }
}

/// An object has under each key the JSON of the value under that key, and nothing
/// under a key whose value has none.
pub proof fn law_objects_become_objects(m: TfEntries, key: Seq<char>)
    requires
        crate::strmap::keys_rise(m),
    ensures
        json_of(TfView::Object(m)) matches Some(JsonView::Object(o)) && lookup(o, key)
            == match lookup(m, key) {
            Some(v) => json_of(v),
            None => None,
        },
{
    lemma_fields(m, key);
}

/// The blocks of a resource are given to its adapter under their names, each body
/// with the JSON of its attributes.
pub proof fn law_adapters_are_given_the_blocks(
    r: TfResourceView,
    id: Seq<char>,
    block: Seq<char>,
    i: int,
    key: Seq<char>,
)
    requires
        lookup(r.blocks, block) is Some,
        0 <= i < lookup(r.blocks, block)->Some_0.len(),
        crate::strmap::keys_rise(lookup(r.blocks, block)->Some_0[i]),
    ensures
        lookup(raw_of(r, id).blocks, block) matches Some(bodies) && bodies.len() == lookup(
            r.blocks,
            block,
        )->Some_0.len() && lookup(bodies[i], key) == match lookup(
            lookup(r.blocks, block)->Some_0[i],
            key,
        ) {
            Some(v) => json_of(v),
            None => None,
        },
{
    crate::strmap::lemma_lookup_mapped(
        r.blocks,
        |s: Seq<TfEntries>| s.map_values(|m: TfEntries| crate::tf::convert::json_fields(m)),
        block,
    );
    lemma_fields(lookup(r.blocks, block)->Some_0[i], key);
}

} // verus!
