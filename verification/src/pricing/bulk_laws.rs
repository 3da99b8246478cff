//! What holds of bulk price files and of what is found in them.

use vstd::prelude::*;

use crate::pricing::bulk_api::dimension_of;
use crate::pricing::bulk_api::entries_of;
use crate::pricing::bulk_api::file_currency;
use crate::pricing::bulk_api::found_entries;
use crate::pricing::bulk_api::found_in_family;
use crate::pricing::bulk_api::offered_dimensions;
use crate::pricing::bulk_api::product_currency;
use crate::pricing::bulk_api::selected;
use crate::pricing::bulk_api::term_currency;
use crate::pricing::bulk_api::terms_currency;
use crate::pricing::bulk_api::BulkDimensionView;
use crate::pricing::bulk_api::BulkFileView;
use crate::pricing::bulk_api::DimensionEntries;
use crate::pricing::bulk_api::EntryView;
use crate::pricing::bulk_api::OfferEntries;
use crate::pricing::registry::pair_rate_in;
use crate::strmap::lookup;

verus! {

// ---------------------------------------------------------------------------
// Lookups
// ---------------------------------------------------------------------------

proof fn lemma_selected(entries: Seq<EntryView>, p: spec_fn(EntryView) -> bool, e: EntryView)
    ensures
        selected(entries, p).contains(e) <==> entries.contains(e) && p(e),
    decreases entries.len(),
{
    if entries.len() > 0 {
        let t = entries.drop_last();
        let last = entries.last();
        lemma_selected(t, p, e);
        let found = selected(t, p);
        assert(entries =~= t.push(last));
        if t.contains(e) {
            let i = choose|i: int| 0 <= i < t.len() && t[i] == e;
            assert(entries[i] == e);
        }
        if entries.contains(e) && e != last {
            let i = choose|i: int| 0 <= i < entries.len() && entries[i] == e;
            assert(t[i] == e);
        }
        assert(entries[entries.len() - 1] == last);
        if found.contains(e) {
            let i = choose|i: int| 0 <= i < found.len() && found[i] == e;
            assert(found.push(last)[i] == e);
        }
        assert(found.push(last)[found.len() as int] == last);
        if found.push(last).contains(e) && e != last {
            let i = choose|i: int| 0 <= i < found.push(last).len() && found.push(last)[i] == e;
            assert(found[i] == e);
        }
    }
}

proof fn lemma_selected_splits(
    a: Seq<EntryView>,
    b: Seq<EntryView>,
    p: spec_fn(EntryView) -> bool,
)
    ensures
        selected(a + b, p) == selected(a, p) + selected(b, p),
    decreases b.len(),
{
    if b.len() == 0 {
        assert(a + b =~= a);
        assert(selected(a, p) + selected(b, p) =~= selected(a, p));
    } else {
        lemma_selected_splits(a, b.drop_last(), p);
        assert((a + b).drop_last() =~= a + b.drop_last());
        assert((a + b).last() == b.last());
        assert(selected(a + b, p) =~= selected(a, p) + selected(b, p));
    }
}

/// The entries that are found are those listed which have, for every filter, the
/// attribute with the value that it asks for. Of a family, they are those of that
/// family too.
pub proof fn law_found_entries_pass_every_filter(
    entries: Seq<EntryView>,
    family: Seq<char>,
    filters: Seq<(Seq<char>, Seq<char>)>,
    e: EntryView,
)
    ensures
        found_entries(entries, filters).contains(e) <==> entries.contains(e) && forall|i: int|
            0 <= i < filters.len() ==> lookup(e.attributes, (#[trigger] filters[i]).0) == Some(
                filters[i].1,
            ),
        found_in_family(entries, family, filters).contains(e) <==> found_entries(
            entries,
            filters,
        ).contains(e) && e.product_family == family,
{
    lemma_selected(entries, |x: EntryView| crate::pricing::bulk_api::passes(x, filters), e);
    lemma_selected(
        entries,
        |x: EntryView|
            x.product_family == family && crate::pricing::bulk_api::passes(x, filters),
        e,
    );
}

/// What is found stands in the order of the entries: what is found among the first
/// comes before what is found among the others.
pub proof fn law_found_entries_keep_their_order(
    first: Seq<EntryView>,
    others: Seq<EntryView>,
    family: Seq<char>,
    filters: Seq<(Seq<char>, Seq<char>)>,
)
    ensures
        found_entries(first + others, filters) == found_entries(first, filters) + found_entries(
            others,
            filters,
        ),
        found_in_family(first + others, family, filters) == found_in_family(
            first,
            family,
            filters,
        ) + found_in_family(others, family, filters),
{
    lemma_selected_splits(
        first,
        others,
        |x: EntryView| crate::pricing::bulk_api::passes(x, filters),
    );
    lemma_selected_splits(
        first,
        others,
        |x: EntryView|
            x.product_family == family && crate::pricing::bulk_api::passes(x, filters),
    );
}

// ---------------------------------------------------------------------------
// Entries
// ---------------------------------------------------------------------------

proof fn lemma_offered(offers: OfferEntries, t: int, d: int)
    requires
        0 <= t < offers.len(),
        0 <= d < offers[t].1.len(),
    ensures
        offered_dimensions(offers).contains(dimension_of(offers[t].1[d].1)),
    decreases offers.len(),
{
    let g = |e: (Seq<char>, BulkDimensionView)| dimension_of(e.1);
    let rest = offered_dimensions(offers.drop_last());
    let last = offers.last().1.map_values(g);
    let want = dimension_of(offers[t].1[d].1);
    if t == offers.len() - 1 {
        assert(last[d] == want);
        assert((rest + last)[rest.len() + d] == want);
    } else {
        assert(offers.drop_last()[t] == offers[t]);
        lemma_offered(offers.drop_last(), t, d);
        let i = choose|i: int| 0 <= i < rest.len() && rest[i] == want;
        assert((rest + last)[i] == want);
    }
}

/// The number of dimensions that the terms have together.
pub open spec fn dimension_count(offers: OfferEntries) -> nat
    decreases offers.len(),
{
    if offers.len() == 0 {
        0
    } else {
        offers[0].1.len() + dimension_count(offers.drop_first())
    }
}

proof fn lemma_count_last(offers: OfferEntries)
    requires
        offers.len() > 0,
    ensures
        dimension_count(offers) == dimension_count(offers.drop_last()) + offers.last().1.len(),
    decreases offers.len(),
{
    if offers.len() > 1 {
        lemma_count_last(offers.drop_first());
        assert(offers.drop_first().drop_last() =~= offers.drop_last().drop_first());
        assert(offers.drop_first().last() == offers.last());
    } else {
        assert(offers.drop_first() =~= Seq::empty());
        assert(offers.drop_last() =~= Seq::empty());
        assert(dimension_count(Seq::empty()) == 0);
    }
}

proof fn lemma_offered_len(offers: OfferEntries)
    ensures
        offered_dimensions(offers).len() == dimension_count(offers),
    decreases offers.len(),
{
    if offers.len() > 0 {
        lemma_count_last(offers);
        lemma_offered_len(offers.drop_last());
    }
}

/// The entry of a product has every dimension of every term under its key, and as
/// many as those terms have together. A product without terms has none.
pub proof fn law_entries_carry_the_dimensions(
    file: BulkFileView,
    i: int,
    offers: OfferEntries,
    t: int,
    d: int,
)
    requires
        0 <= i < file.products.len(),
    ensures
        lookup(file.on_demand, file.products[i].0) is None ==> entries_of(file)[i].dimensions.len()
            == 0,
        lookup(file.on_demand, file.products[i].0) == Some(offers) ==> entries_of(
            file,
        )[i].dimensions.len() == dimension_count(offers) && (0 <= t < offers.len() && 0 <= d
            < offers[t].1.len() ==> entries_of(file)[i].dimensions.contains(
            dimension_of(offers[t].1[d].1),
        )),
{
    if lookup(file.on_demand, file.products[i].0) == Some(offers) {
        lemma_offered_len(offers);
        if 0 <= t < offers.len() && 0 <= d < offers[t].1.len() {
            lemma_offered(offers, t, d);
        }
    }
}

// ---------------------------------------------------------------------------
// Currency
// ---------------------------------------------------------------------------

/// Every price of a dimension is in a currency.
pub open spec fn prices_in(d: BulkDimensionView, currency: Seq<char>) -> bool {
    forall|i: int| 0 <= i < d.price_per_unit.len() ==> (#[trigger] d.price_per_unit[i]).0 == currency
}

/// The dimension under the given indices.
pub open spec fn dimension_at(
    terms: Seq<(Seq<char>, OfferEntries)>,
    p: int,
    t: int,
    d: int,
) -> BulkDimensionView {
    terms[p].1[t].1[d].1
}

/// The indices are those of a dimension.
pub open spec fn has_dimension(
    terms: Seq<(Seq<char>, OfferEntries)>,
    p: int,
    t: int,
    d: int,
) -> bool {
    0 <= p < terms.len() && 0 <= t < terms[p].1.len() && 0 <= d < terms[p].1[t].1.len()
}

proof fn lemma_term_currency(dims: DimensionEntries, currency: Seq<char>)
    requires
        forall|d: int| 0 <= d < dims.len() ==> prices_in((#[trigger] dims[d]).1, currency),
    ensures
        term_currency(dims) == None::<Seq<char>> || term_currency(dims) == Some(currency),
        term_currency(dims) is None <==> forall|d: int|
            0 <= d < dims.len() ==> (#[trigger] dims[d]).1.price_per_unit.len() == 0,
    decreases dims.len(),
{
    if dims.len() > 0 {
        let rest = dims.drop_first();
        assert forall|d: int| 0 <= d < rest.len() implies prices_in(
            (#[trigger] rest[d]).1,
            currency,
        ) by {
            assert(rest[d] == dims[d + 1]);
        }
        lemma_term_currency(rest, currency);
        assert(prices_in(dims[0].1, currency));
        if dims[0].1.price_per_unit.len() > 0 {
            assert(dims[0].1.price_per_unit[0].0 == currency);
        } else {
            assert forall|d: int|
                term_currency(rest) is None && 0 <= d < dims.len() implies (
            #[trigger] dims[d]).1.price_per_unit.len() == 0 by {
                if d > 0 {
                    assert(rest[d - 1] == dims[d]);
                }
            }
            if forall|d: int|
                0 <= d < dims.len() ==> (#[trigger] dims[d]).1.price_per_unit.len() == 0 {
                assert forall|d: int| 0 <= d < rest.len() implies (
                #[trigger] rest[d]).1.price_per_unit.len() == 0 by {
                    assert(rest[d] == dims[d + 1]);
                }
            }
        }
    }
}

proof fn lemma_product_currency(offers: OfferEntries, currency: Seq<char>)
    requires
        forall|t: int, d: int|
            0 <= t < offers.len() && 0 <= d < offers[t].1.len() ==> prices_in(
                (#[trigger] offers[t].1[d]).1,
                currency,
            ),
    ensures
        product_currency(offers) == None::<Seq<char>> || product_currency(offers) == Some(
            currency,
        ),
        product_currency(offers) is None <==> forall|t: int, d: int|
            0 <= t < offers.len() && 0 <= d < offers[t].1.len() ==> (
            #[trigger] offers[t].1[d]).1.price_per_unit.len() == 0,
    decreases offers.len(),
{
    if offers.len() > 0 {
        let rest = offers.drop_first();
        assert forall|t: int, d: int|
            0 <= t < rest.len() && 0 <= d < rest[t].1.len() implies prices_in(
            (#[trigger] rest[t].1[d]).1,
            currency,
        ) by {
            assert(rest[t] == offers[t + 1]);
            assert(prices_in(offers[t + 1].1[d].1, currency));
        }
        lemma_product_currency(rest, currency);
        let dims = offers[0].1;
        assert forall|d: int| 0 <= d < dims.len() implies prices_in(
            (#[trigger] dims[d]).1,
            currency,
        ) by {
            assert(prices_in(offers[0].1[d].1, currency));
        }
        lemma_term_currency(dims, currency);
        if product_currency(offers) is None {
            assert forall|t: int, d: int|
                0 <= t < offers.len() && 0 <= d < offers[t].1.len() implies (
            #[trigger] offers[t].1[d]).1.price_per_unit.len() == 0 by {
                if t > 0 {
                    assert(rest[t - 1] == offers[t]);
                    assert(rest[t - 1].1[d].1.price_per_unit.len() == 0);
                } else {
                    assert(dims[d].1.price_per_unit.len() == 0);
                }
            }
        }
        if forall|t: int, d: int|
            0 <= t < offers.len() && 0 <= d < offers[t].1.len() ==> (
            #[trigger] offers[t].1[d]).1.price_per_unit.len() == 0 {
            assert forall|d: int| 0 <= d < dims.len() implies (
            #[trigger] dims[d]).1.price_per_unit.len() == 0 by {
                assert(offers[0].1[d].1.price_per_unit.len() == 0);
            }
            assert forall|t: int, d: int|
                0 <= t < rest.len() && 0 <= d < rest[t].1.len() implies (
            #[trigger] rest[t].1[d]).1.price_per_unit.len() == 0 by {
                assert(rest[t] == offers[t + 1]);
                assert(offers[t + 1].1[d].1.price_per_unit.len() == 0);
            }
        }
    }
}

proof fn lemma_terms_currency(
    terms: Seq<(Seq<char>, OfferEntries)>,
    currency: Seq<char>,
)
    requires
        forall|p: int, t: int, d: int| #[trigger]
            has_dimension(terms, p, t, d) ==> prices_in(dimension_at(terms, p, t, d), currency),
    ensures
        terms_currency(terms) == None::<Seq<char>> || terms_currency(terms) == Some(currency),
        terms_currency(terms) is None ==> forall|p: int, t: int, d: int| #[trigger]
            has_dimension(terms, p, t, d) ==> dimension_at(terms, p, t, d).price_per_unit.len()
                == 0,
    decreases terms.len(),
{
    if terms.len() > 0 {
        let rest = terms.drop_first();
        assert forall|p: int, t: int, d: int| #[trigger]
            has_dimension(rest, p, t, d) implies prices_in(
            dimension_at(rest, p, t, d),
            currency,
        ) by {
            assert(rest[p] == terms[p + 1]);
            assert(has_dimension(terms, p + 1, t, d));
        }
        lemma_terms_currency(rest, currency);
        let offers = terms[0].1;
        assert forall|t: int, d: int|
            0 <= t < offers.len() && 0 <= d < offers[t].1.len() implies prices_in(
            (#[trigger] offers[t].1[d]).1,
            currency,
        ) by {
            assert(has_dimension(terms, 0, t, d));
        }
        lemma_product_currency(offers, currency);
        if terms_currency(terms) is None {
            assert forall|p: int, t: int, d: int| #[trigger]
                has_dimension(terms, p, t, d) implies dimension_at(
                terms,
                p,
                t,
                d,
            ).price_per_unit.len() == 0 by {
                if p > 0 {
                    assert(rest[p - 1] == terms[p]);
                    assert(has_dimension(rest, p - 1, t, d));
                } else {
                    assert(offers[t].1[d].1.price_per_unit.len() == 0);
                }
            }
        }
    }
}

/// A file whose prices are all in one currency is in that currency, where it has a
/// price at all.
pub proof fn law_file_currency(
    file: BulkFileView,
    currency: Seq<char>,
    p: int,
    t: int,
    d: int,
)
    requires
        forall|x: int, y: int, z: int| #[trigger]
            has_dimension(file.on_demand, x, y, z) ==> prices_in(
                dimension_at(file.on_demand, x, y, z),
                currency,
            ),
        has_dimension(file.on_demand, p, t, d),
        dimension_at(file.on_demand, p, t, d).price_per_unit.len() > 0,
    ensures
        file_currency(file) == currency,
{
    lemma_terms_currency(file.on_demand, currency);
}

/// A file without a price is in dollars.
pub proof fn law_file_without_prices(file: BulkFileView)
    requires
        forall|x: int, y: int, z: int| #[trigger]
            has_dimension(file.on_demand, x, y, z) ==> dimension_at(
                file.on_demand,
                x,
                y,
                z,
            ).price_per_unit.len() == 0,
    ensures
        file_currency(file) == "USD"@,
{
    assert forall|x: int, y: int, z: int| #[trigger]
        has_dimension(file.on_demand, x, y, z) implies prices_in(
        dimension_at(file.on_demand, x, y, z),
        "USD"@,
    ) by {}
    lemma_terms_currency(file.on_demand, "USD"@);
}

// ---------------------------------------------------------------------------
// Tables under two keys
// ---------------------------------------------------------------------------

/// A listed rate is found under its two keys, where no earlier row has both.
pub proof fn law_listed_pair_is_found(
    table: Seq<(&'static str, &'static str, u64, u32)>,
    i: int,
)
    requires
        0 <= i < table.len(),
        forall|j: int|
            0 <= j < i ==> (#[trigger] table[j]).0@ != table[i].0@ || table[j].1@ != table[i].1@,
    ensures
        pair_rate_in(table, table[i].0@, table[i].1@) == Some(
            crate::amount::Amount::Decimal { units: table[i].2, scale: table[i].3, per: 1 },
        ),
    decreases table.len(),
{
    if i > 0 {
        let rest = table.drop_first();
        assert(table[0].0@ != table[i].0@ || table[0].1@ != table[i].1@);
        assert forall|j: int| 0 <= j < i - 1 implies (#[trigger] rest[j]).0@ != rest[i - 1].0@
            || rest[j].1@ != rest[i - 1].1@ by {
            assert(rest[j] == table[j + 1]);
        }
        law_listed_pair_is_found(rest, i - 1);
    }
}

/// Two keys that no row has together are not found.
pub proof fn law_unlisted_pair_is_not_found(
    table: Seq<(&'static str, &'static str, u64, u32)>,
    first: Seq<char>,
    second: Seq<char>,
)
    requires
        forall|j: int|
            0 <= j < table.len() ==> (#[trigger] table[j]).0@ != first || table[j].1@ != second,
    ensures
        pair_rate_in(table, first, second) is None,
    decreases table.len(),
{
    if table.len() > 0 {
        let rest = table.drop_first();
        assert(table[0].0@ != first || table[0].1@ != second);
        assert forall|j: int| 0 <= j < rest.len() implies (#[trigger] rest[j]).0@ != first
            || rest[j].1@ != second by {
            assert(rest[j] == table[j + 1]);
        }
        law_unlisted_pair_is_not_found(rest, first, second);
    }
}

} // verus!
