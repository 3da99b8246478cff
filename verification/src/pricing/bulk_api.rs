//! Bulk price files.
//!
//! A file lists products by key, and under the same keys the terms on which
//! they are offered, each with the dimensions in which it is priced.

use vstd::prelude::*;

use crate::amount::whole;
use crate::amount::Amount;
use crate::amount::Numeral;
use crate::amount::NumeralView;
use crate::strmap::clone_text_map;
use crate::strmap::text_get;
use crate::strmap::StrMap;
use crate::text::text_eq;

verus! {

// ---------------------------------------------------------------------------
// Files
// ---------------------------------------------------------------------------

/// One dimension in which a term is priced.
#[derive(Debug, PartialEq, Eq)]
pub struct BulkPriceDimension {
    pub description: String,
    pub begin_range: Numeral,
    pub end_range: Numeral,
    pub unit: String,
    /// The price in each currency.
    pub price_per_unit: StrMap<Numeral>,
}

/// A term on which a product is offered.
#[derive(Debug, PartialEq, Eq)]
pub struct BulkOfferTerm {
    pub sku: String,
    pub price_dimensions: StrMap<BulkPriceDimension>,
}

/// The terms on which products are offered.
#[derive(Debug, PartialEq, Eq)]
pub struct BulkTerms {
    pub on_demand: StrMap<StrMap<BulkOfferTerm>>,
}

/// A product.
#[derive(Debug, PartialEq, Eq)]
pub struct BulkProduct {
    pub sku: String,
    pub product_family: String,
    pub attributes: StrMap<String>,
}

/// A bulk price file.
#[derive(Debug, PartialEq, Eq)]
pub struct BulkPricingFile {
    pub offer_code: String,
    pub publication_date: Option<String>,
    pub version: Option<String>,
    pub products: StrMap<BulkProduct>,
    pub terms: BulkTerms,
}

/// The model of a [`BulkPriceDimension`].
#[verifier::ext_equal]
pub struct BulkDimensionView {
    pub description: Seq<char>,
    pub begin_range: NumeralView,
    pub end_range: NumeralView,
    pub unit: Seq<char>,
    pub price_per_unit: Seq<(Seq<char>, NumeralView)>,
}

impl View for BulkPriceDimension {
    type V = BulkDimensionView;

    open spec fn view(&self) -> BulkDimensionView {
        BulkDimensionView {
            description: self.description@,
            begin_range: self.begin_range@,
            end_range: self.end_range@,
            unit: self.unit@,
            price_per_unit: crate::strmap::mapped(self.price_per_unit@, |n: Numeral| n@),
        }
    }
}

/// The dimensions of a term, by key.
pub type DimensionEntries = Seq<(Seq<char>, BulkDimensionView)>;

/// The terms of a product, by key.
pub type OfferEntries = Seq<(Seq<char>, DimensionEntries)>;

/// The dimensions of a term.
pub open spec fn offer_view(t: BulkOfferTerm) -> DimensionEntries {
    crate::strmap::mapped(t.price_dimensions@, |d: BulkPriceDimension| d@)
}

/// The terms of a product.
pub open spec fn offers_view(m: StrMap<BulkOfferTerm>) -> OfferEntries {
    crate::strmap::mapped(m@, |t: BulkOfferTerm| offer_view(t))
}

/// The model of a [`BulkProduct`].
#[verifier::ext_equal]
pub struct BulkProductView {
    pub product_family: Seq<char>,
    pub attributes: Seq<(Seq<char>, Seq<char>)>,
}

impl View for BulkProduct {
    type V = BulkProductView;

    open spec fn view(&self) -> BulkProductView {
        BulkProductView {
            product_family: self.product_family@,
            attributes: crate::strmap::text_entries(self.attributes@),
        }
    }
}

/// The model of a [`BulkPricingFile`].
#[verifier::ext_equal]
pub struct BulkFileView {
    pub publication_date: Option<Seq<char>>,
    pub version: Option<Seq<char>>,
    pub products: Seq<(Seq<char>, BulkProductView)>,
    pub on_demand: Seq<(Seq<char>, OfferEntries)>,
}

impl View for BulkPricingFile {
    type V = BulkFileView;

    open spec fn view(&self) -> BulkFileView {
        BulkFileView {
            publication_date: crate::tf::document::opt_view(self.publication_date),
            version: crate::tf::document::opt_view(self.version),
            products: crate::strmap::mapped(self.products@, |p: BulkProduct| p@),
            on_demand: crate::strmap::mapped(
                self.terms.on_demand@,
                |m: StrMap<BulkOfferTerm>| offers_view(m),
            ),
        }
    }
}

/// The price of a dimension in dollars: zero where there is none, or where it
/// does not read as a number.
pub open spec fn dollars(d: BulkDimensionView) -> Amount {
    match crate::strmap::lookup(d.price_per_unit, "USD"@) {
        None => whole(0),
        Some(n) => match crate::amount::numeral_value(n) {
            Some(x) => x,
            None => whole(0),
        },
    }
}

impl BulkPriceDimension {
    /// The price in dollars: zero where there is none, or where it does not
    /// read as a number.
    pub fn usd_price(&self) -> (r: Amount)
        ensures
            r == dollars(self@),
    {
        proof {
            crate::strmap::lemma_lookup_mapped(
                self.price_per_unit@,
                |n: Numeral| n@,
                "USD"@,
            );
        }
        match self.price_per_unit.get("USD") {
            None => whole(0),
            Some(n) => match n.value() {
                Some(x) => x,
                None => whole(0),
            },
        }
    }
}

// ---------------------------------------------------------------------------
// Entries
// ---------------------------------------------------------------------------

/// One dimension of a price.
#[derive(Debug, PartialEq, Eq)]
pub struct PricingDimension {
    pub description: String,
    pub unit: String,
    pub price_usd: Amount,
    pub begin_range: Amount,
    pub end_range: Option<Amount>,
}

/// The model of a [`PricingDimension`].
#[verifier::ext_equal]
pub struct DimensionView {
    pub description: Seq<char>,
    pub unit: Seq<char>,
    pub price_usd: Amount,
    pub begin_range: Amount,
    pub end_range: Option<Amount>,
}

impl View for PricingDimension {
    type V = DimensionView;

    open spec fn view(&self) -> DimensionView {
        DimensionView {
            description: self.description@,
            unit: self.unit@,
            price_usd: self.price_usd,
            begin_range: self.begin_range,
            end_range: self.end_range,
        }
    }
}

/// The models of a sequence of dimensions.
pub open spec fn dimension_views(v: Seq<PricingDimension>) -> Seq<DimensionView> {
    v.map_values(|d: PricingDimension| d@)
}

/// A product with its prices.
#[derive(Debug, PartialEq, Eq)]
pub struct PricingEntry {
    pub sku: String,
    pub product_family: String,
    pub attributes: StrMap<String>,
    pub dimensions: Vec<PricingDimension>,
}

/// The model of a [`PricingEntry`].
#[verifier::ext_equal]
pub struct EntryView {
    pub sku: Seq<char>,
    pub product_family: Seq<char>,
    pub attributes: Seq<(Seq<char>, Seq<char>)>,
    pub dimensions: Seq<DimensionView>,
}

impl View for PricingEntry {
    type V = EntryView;

    open spec fn view(&self) -> EntryView {
        EntryView {
            sku: self.sku@,
            product_family: self.product_family@,
            attributes: crate::strmap::text_entries(self.attributes@),
            dimensions: dimension_views(self.dimensions@),
        }
    }
}

/// The models of a sequence of entries.
pub open spec fn pricing_views(v: Seq<PricingEntry>) -> Seq<EntryView> {
    v.map_values(|e: PricingEntry| e@)
}

/// The models of a sequence of borrowed entries.
pub open spec fn found_views(v: Seq<&PricingEntry>) -> Seq<EntryView> {
    v.map_values(|e: &PricingEntry| e@)
}

/// A dimension with its numbers read: a range that does not read as a number
/// begins at zero, and one that ends at `Inf`, or at what is no number, has no
/// end.
pub open spec fn dimension_of(d: BulkDimensionView) -> DimensionView {
    DimensionView {
        description: d.description,
        unit: d.unit,
        price_usd: dollars(d),
        begin_range: match crate::amount::numeral_value(d.begin_range) {
            Some(x) => x,
            None => whole(0),
        },
        end_range: if d.end_range.text == "Inf"@ {
            None
        } else {
            crate::amount::numeral_value(d.end_range)
        },
    }
}

/// The dimensions of all terms of a product, term by term.
pub open spec fn offered_dimensions(offers: OfferEntries) -> Seq<DimensionView>
    decreases offers.len(),
{
    if offers.len() == 0 {
        Seq::empty()
    } else {
        offered_dimensions(offers.drop_last()) + offers.last().1.map_values(
            |e: (Seq<char>, BulkDimensionView)| dimension_of(e.1),
        )
    }
}

/// The dimensions of a product: none where it has no terms.
pub open spec fn product_dimensions(file: BulkFileView, sku: Seq<char>) -> Seq<DimensionView> {
    match crate::strmap::lookup(file.on_demand, sku) {
        Some(offers) => offered_dimensions(offers),
        None => Seq::empty(),
    }
}

/// The entries of a file: one for each product.
pub open spec fn entries_of(file: BulkFileView) -> Seq<EntryView> {
    file.products.map_values(
        |e: (Seq<char>, BulkProductView)|
            EntryView {
                sku: e.0,
                product_family: e.1.product_family,
                attributes: e.1.attributes,
                dimensions: product_dimensions(file, e.0),
            },
    )
}

/// A dimension with its numbers read.
fn read_dimension(d: &BulkPriceDimension) -> (r: PricingDimension)
    ensures
        r@ == dimension_of(d@),
{
    let begin_range = match d.begin_range.value() {
        Some(x) => x,
        None => whole(0),
    };
    let end_range = if text_eq(d.end_range.text.as_str(), "Inf") {
        None
    } else {
        d.end_range.value()
    };
    PricingDimension {
        description: d.description.clone(),
        unit: d.unit.clone(),
        price_usd: d.usd_price(),
        begin_range,
        end_range,
    }
}

/// The dimensions of all terms of a product.
fn read_offers(offers: &StrMap<BulkOfferTerm>) -> (r: Vec<PricingDimension>)
    ensures
        dimension_views(r@) == offered_dimensions(offers_view(*offers)),
{
    let ghost all = offers_view(*offers);
    let mut out: Vec<PricingDimension> = Vec::new();
    assert(dimension_views(out@) =~= Seq::empty());
    let n: usize = offers.len();
    for i in 0..n
        invariant
            n == offers@.len(),
            all == offers_view(*offers),
            dimension_views(out@) == offered_dimensions(all.subrange(0, i as int)),
    {
        let term = offers.value_at(i);
        let ghost dims = offer_view(*term);
        let ghost g = |e: (Seq<char>, BulkDimensionView)| dimension_of(e.1);
        let ghost read = dims.map_values(g);
        let ghost before = dimension_views(out@);
        proof {
            let now = all.subrange(0, i + 1);
            assert(now.drop_last() =~= all.subrange(0, i as int));
            assert(now.last() == (offers@[i as int].0, dims));
        }
        assert(dimension_views(out@) =~= before + read.subrange(0, 0));
        let m: usize = term.price_dimensions.len();
        for k in 0..m
            invariant
                m == term.price_dimensions@.len(),
                dims == offer_view(*term),
                g == (|e: (Seq<char>, BulkDimensionView)| dimension_of(e.1)),
                read == dims.map_values(g),
                dimension_views(out@) == before + read.subrange(0, k as int),
        {
            let ghost held = out@;
            let d = read_dimension(term.price_dimensions.value_at(k));
            out.push(d);
            proof {
                assert(dims[k as int].1 == term.price_dimensions@[k as int].1@);
                assert(read[k as int] == d@);
                assert(dimension_views(out@) =~= dimension_views(held).push(d@));
                assert(dimension_views(out@) =~= before + read.subrange(0, k + 1));
            }
        }
        assert(read.subrange(0, m as int) =~= read);
    }
    assert(all.subrange(0, n as int) =~= all);
    out
}

/// The entries of a file: one for each product, with the dimensions of all its
/// on-demand terms.
pub fn parse_bulk_pricing(file: &BulkPricingFile) -> (r: Vec<PricingEntry>)
    ensures
        pricing_views(r@) == entries_of(file@),
{
    let ghost fv = file@;
    let ghost all = entries_of(fv);
    let mut out: Vec<PricingEntry> = Vec::new();
    assert(pricing_views(out@) =~= all.subrange(0, 0));
    let n: usize = file.products.len();
    for i in 0..n
        invariant
            n == file.products@.len(),
            fv == file@,
            all == entries_of(fv),
            pricing_views(out@) == all.subrange(0, i as int),
    {
        let sku = file.products.key_at(i);
        let product = file.products.value_at(i);
        proof {
            crate::strmap::lemma_lookup_mapped(
                file.terms.on_demand@,
                |m: StrMap<BulkOfferTerm>| offers_view(m),
                sku@,
            );
        }
        let dimensions = match file.terms.on_demand.get(sku.as_str()) {
            Some(offers) => read_offers(offers),
            None => {
                let none: Vec<PricingDimension> = Vec::new();
                assert(dimension_views(none@) =~= Seq::empty());
                none
            },
        };
        let entry = PricingEntry {
            sku: sku.clone(),
            product_family: product.product_family.clone(),
            attributes: clone_text_map(&product.attributes),
            dimensions,
        };
        let ghost before = out@;
        out.push(entry);
        proof {
            assert(fv.products[i as int] == (sku@, product@));
            assert(entry@ == all[i as int]);
            assert(pricing_views(out@) =~= pricing_views(before).push(entry@));
            assert(all.subrange(0, i + 1) =~= all.subrange(0, i as int).push(all[i as int]));
        }
    }
    assert(all.subrange(0, n as int) =~= all);
    out
}

// ---------------------------------------------------------------------------
// Metadata
// ---------------------------------------------------------------------------

/// Where the prices of a file come from.
#[derive(Debug, PartialEq, Eq)]
pub struct BulkMetadata {
    pub publication_date: Option<String>,
    pub version: Option<String>,
    /// The currency in which the file gives prices.
    pub currency: String,
}

/// The first currency that a dimension of a term gives a price in.
pub open spec fn term_currency(dims: DimensionEntries) -> Option<Seq<char>>
    decreases dims.len(),
{
    if dims.len() == 0 {
        None
    } else if dims[0].1.price_per_unit.len() > 0 {
        Some(dims[0].1.price_per_unit[0].0)
    } else {
        term_currency(dims.drop_first())
    }
}

/// The first currency that a term of a product gives a price in.
pub open spec fn product_currency(offers: OfferEntries) -> Option<Seq<char>>
    decreases offers.len(),
{
    if offers.len() == 0 {
        None
    } else {
        match term_currency(offers[0].1) {
            Some(c) => Some(c),
            None => product_currency(offers.drop_first()),
        }
    }
}

/// The first currency that the terms of any product give a price in.
pub open spec fn terms_currency(terms: Seq<(Seq<char>, OfferEntries)>) -> Option<Seq<char>>
    decreases terms.len(),
{
    if terms.len() == 0 {
        None
    } else {
        match product_currency(terms[0].1) {
            Some(c) => Some(c),
            None => terms_currency(terms.drop_first()),
        }
    }
}

/// The currency of a file: dollars where it gives no price.
pub open spec fn file_currency(file: BulkFileView) -> Seq<char> {
    match terms_currency(file.on_demand) {
        Some(c) => c,
        None => "USD"@,
    }
}

/// The first currency that a dimension of a term gives a price in.
fn find_term_currency(dims: &StrMap<BulkPriceDimension>) -> (r: Option<String>)
    ensures
        crate::tf::document::opt_view(r) == term_currency(
            crate::strmap::mapped(dims@, |d: BulkPriceDimension| d@),
        ),
{
    let ghost all = crate::strmap::mapped(dims@, |d: BulkPriceDimension| d@);
    let n: usize = dims.len();
    let mut i: usize = 0;
    assert(all.subrange(0, all.len() as int) =~= all);
    while i < n
        invariant
            i <= n == dims@.len(),
            all == crate::strmap::mapped(dims@, |d: BulkPriceDimension| d@),
            term_currency(all) == term_currency(all.subrange(i as int, all.len() as int)),
        decreases n - i,
    {
        proof {
            let rest = all.subrange(i as int, all.len() as int);
            assert(rest[0] == all[i as int]);
            assert(rest.drop_first() =~= all.subrange(i + 1, all.len() as int));
        }
        let d = dims.value_at(i);
        assert(all[i as int].1 == d@);
        if d.price_per_unit.len() > 0 {
            return Some(d.price_per_unit.key_at(0).clone());
        }
        i = i + 1;
    }
    None
}

/// The first currency that a term of a product gives a price in.
fn find_product_currency(offers: &StrMap<BulkOfferTerm>) -> (r: Option<String>)
    ensures
        crate::tf::document::opt_view(r) == product_currency(offers_view(*offers)),
{
    let ghost all = offers_view(*offers);
    let n: usize = offers.len();
    let mut i: usize = 0;
    assert(all.subrange(0, all.len() as int) =~= all);
    while i < n
        invariant
            i <= n == offers@.len(),
            all == offers_view(*offers),
            product_currency(all) == product_currency(all.subrange(i as int, all.len() as int)),
        decreases n - i,
    {
        proof {
            let rest = all.subrange(i as int, all.len() as int);
            assert(rest[0] == all[i as int]);
            assert(rest.drop_first() =~= all.subrange(i + 1, all.len() as int));
        }
        let term = offers.value_at(i);
        assert(all[i as int].1 == offer_view(*term));
        if let Some(c) = find_term_currency(&term.price_dimensions) {
            return Some(c);
        }
        i = i + 1;
    }
    None
}

/// The currency of a file.
fn find_currency(file: &BulkPricingFile) -> (r: String)
    ensures
        r@ == file_currency(file@),
{
    let ghost all = file@.on_demand;
    let n: usize = file.terms.on_demand.len();
    let mut i: usize = 0;
    assert(all.subrange(0, all.len() as int) =~= all);
    while i < n
        invariant
            i <= n == file.terms.on_demand@.len(),
            all == file@.on_demand,
            terms_currency(all) == terms_currency(all.subrange(i as int, all.len() as int)),
        decreases n - i,
    {
        proof {
            let rest = all.subrange(i as int, all.len() as int);
            assert(rest[0] == all[i as int]);
            assert(rest.drop_first() =~= all.subrange(i + 1, all.len() as int));
        }
        let offers = file.terms.on_demand.value_at(i);
        assert(all[i as int].1 == offers_view(*offers));
        if let Some(c) = find_product_currency(offers) {
            return c;
        }
        i = i + 1;
    }
    "USD".to_owned()
}

/// Copies an optional text.
fn clone_opt(s: &Option<String>) -> (r: Option<String>)
    ensures
        crate::tf::document::opt_view(r) == crate::tf::document::opt_view(*s),
{
    match s {
        Some(t) => Some(t.clone()),
        None => None,
    }
}

/// The entries of a file, and where they come from.
pub fn parse_bulk_pricing_full(file: &BulkPricingFile) -> (r: (Vec<PricingEntry>, BulkMetadata))
    ensures
        pricing_views(r.0@) == entries_of(file@),
        crate::tf::document::opt_view(r.1.publication_date) == file@.publication_date,
        crate::tf::document::opt_view(r.1.version) == file@.version,
        r.1.currency@ == file_currency(file@),
{
    let entries = parse_bulk_pricing(file);
    let metadata = BulkMetadata {
        publication_date: clone_opt(&file.publication_date),
        version: clone_opt(&file.version),
        currency: find_currency(file),
    };
    (entries, metadata)
}

// ---------------------------------------------------------------------------
// Lookups
// ---------------------------------------------------------------------------

/// The texts of filters.
pub open spec fn filter_views(filters: Seq<(&str, &str)>) -> Seq<(Seq<char>, Seq<char>)> {
    filters.map_values(|f: (&str, &str)| (f.0@, f.1@))
}

/// The entry has every attribute with the value that a filter asks for.
pub open spec fn passes(e: EntryView, filters: Seq<(Seq<char>, Seq<char>)>) -> bool {
    forall|i: int|
        0 <= i < filters.len() ==> crate::strmap::lookup(
            e.attributes,
            (#[trigger] filters[i]).0,
        ) == Some(filters[i].1)
}

/// The entries for which `p` holds, in order.
pub open spec fn selected(entries: Seq<EntryView>, p: spec_fn(EntryView) -> bool) -> Seq<EntryView>
    decreases entries.len(),
{
    if entries.len() == 0 {
        Seq::empty()
    } else if p(entries.last()) {
        selected(entries.drop_last(), p).push(entries.last())
    } else {
        selected(entries.drop_last(), p)
    }
}

/// The entries that have the value that each filter asks for.
pub open spec fn found_entries(
    entries: Seq<EntryView>,
    filters: Seq<(Seq<char>, Seq<char>)>,
) -> Seq<EntryView> {
    selected(entries, |e: EntryView| passes(e, filters))
}

/// The entries of a family that have the value that each filter asks for.
pub open spec fn found_in_family(
    entries: Seq<EntryView>,
    family: Seq<char>,
    filters: Seq<(Seq<char>, Seq<char>)>,
) -> Seq<EntryView> {
    selected(entries, |e: EntryView| e.product_family == family && passes(e, filters))
}

/// Whether an entry has the value that each filter asks for.
pub fn has_attributes(e: &PricingEntry, filters: &[(&str, &str)]) -> (r: bool)
    ensures
        r == passes(e@, filter_views(filters@)),
{
    let ghost fv = filter_views(filters@);
    for i in 0..filters.len()
        invariant
            fv == filter_views(filters@),
            forall|j: int|
                0 <= j < i ==> crate::strmap::lookup(e@.attributes, (#[trigger] fv[j]).0) == Some(
                    fv[j].1,
                ),
    {
        let (key, value) = filters[i];
        assert(fv[i as int] == (key@, value@));
        match text_get(&e.attributes, key) {
            Some(v) => {
                if !text_eq(v.as_str(), value) {
                    return false;
                }
            },
            None => {
                return false;
            },
        }
    }
    true
}

/// The entries that have the value that each filter asks for.
pub fn find_entries<'a>(entries: &'a [PricingEntry], filters: &[(&str, &str)]) -> (r: Vec<
    &'a PricingEntry,
>)
    ensures
        found_views(r@) == found_entries(pricing_views(entries@), filter_views(filters@)),
{
    let ghost all = pricing_views(entries@);
    let ghost p = |e: EntryView| passes(e, filter_views(filters@));
    assert(selected(all, p) == found_entries(all, filter_views(filters@)));
    let mut out: Vec<&'a PricingEntry> = Vec::new();
    assert(found_views(out@) =~= Seq::empty());
    for i in 0..entries.len()
        invariant
            all == pricing_views(entries@),
            p == (|e: EntryView| passes(e, filter_views(filters@))),
            found_views(out@) == selected(all.subrange(0, i as int), p),
    {
        let ghost before = out@;
        proof {
            let now = all.subrange(0, i + 1);
            assert(now.drop_last() =~= all.subrange(0, i as int));
            assert(now.last() == entries@[i as int]@);
        }
        if has_attributes(&entries[i], filters) {
            out.push(&entries[i]);
            assert(found_views(out@) =~= found_views(before).push(entries@[i as int]@));
        }
    }
    assert(all.subrange(0, entries@.len() as int) =~= all);
    out
}

/// The entries of a family that have the value that each filter asks for.
pub fn find_entries_by_family<'a>(
    entries: &'a [PricingEntry],
    product_family: &str,
    filters: &[(&str, &str)],
) -> (r: Vec<&'a PricingEntry>)
    ensures
        found_views(r@) == found_in_family(
            pricing_views(entries@),
            product_family@,
            filter_views(filters@),
        ),
{
    let ghost all = pricing_views(entries@);
    let ghost p = |e: EntryView|
        e.product_family == product_family@ && passes(e, filter_views(filters@));
    assert(selected(all, p) == found_in_family(all, product_family@, filter_views(filters@)));
    let mut out: Vec<&'a PricingEntry> = Vec::new();
    assert(found_views(out@) =~= Seq::empty());
    for i in 0..entries.len()
        invariant
            all == pricing_views(entries@),
            p == (|e: EntryView|
                e.product_family == product_family@ && passes(e, filter_views(filters@))),
            found_views(out@) == selected(all.subrange(0, i as int), p),
    {
        let ghost before = out@;
        proof {
            let now = all.subrange(0, i + 1);
            assert(now.drop_last() =~= all.subrange(0, i as int));
            assert(now.last() == entries@[i as int]@);
        }
        if text_eq(entries[i].product_family.as_str(), product_family) && has_attributes(
            &entries[i],
            filters,
        ) {
            out.push(&entries[i]);
            assert(found_views(out@) =~= found_views(before).push(entries@[i as int]@));
        }
    }
    assert(all.subrange(0, entries@.len() as int) =~= all);
    out
}

/// The first price above zero.
pub open spec fn positive_price(dims: Seq<DimensionView>) -> Option<Amount>
    decreases dims.len(),
{
    if dims.len() == 0 {
        None
    } else if dims[0].price_usd.positive() {
        Some(dims[0].price_usd)
    } else {
        positive_price(dims.drop_first())
    }
}

/// The first price of an entry above zero.
pub fn first_price(entry: &PricingEntry) -> (r: Option<Amount>)
    ensures
        r == positive_price(entry@.dimensions),
{
    let ghost all = entry@.dimensions;
    let mut i: usize = 0;
    assert(all.subrange(0, all.len() as int) =~= all);
    while i < entry.dimensions.len()
        invariant
            i <= entry.dimensions@.len(),
            all == entry@.dimensions,
            positive_price(all) == positive_price(all.subrange(i as int, all.len() as int)),
        decreases entry.dimensions@.len() - i,
    {
        proof {
            let rest = all.subrange(i as int, all.len() as int);
            assert(rest[0] == all[i as int]);
            assert(all[i as int] == entry.dimensions@[i as int]@);
            assert(rest.drop_first() =~= all.subrange(i + 1, all.len() as int));
        }
        if entry.dimensions[i].price_usd.is_positive() {
            return Some(entry.dimensions[i].price_usd);
        }
        i = i + 1;
    }
    None
}

// ---------------------------------------------------------------------------
// Laws
// ---------------------------------------------------------------------------

/// A price that is found is above zero, and is one of the entry's prices; none
/// is found exactly where no price is above zero.
pub proof fn law_found_price_is_positive(dims: Seq<DimensionView>)
    ensures
        match positive_price(dims) {
            Some(x) => x.positive() && exists|i: int|
                0 <= i < dims.len() && (#[trigger] dims[i]).price_usd == x,
            None => forall|i: int| 0 <= i < dims.len() ==> !(#[trigger] dims[i]).price_usd.positive(),
        },
    decreases dims.len(),
{
    if dims.len() > 0 {
        let rest = dims.drop_first();
        law_found_price_is_positive(rest);
        if dims[0].price_usd.positive() {
            assert(dims[0].price_usd == positive_price(dims)->Some_0);
        } else {
            match positive_price(rest) {
                Some(x) => {
                    let i = choose|i: int|
                        0 <= i < rest.len() && (#[trigger] rest[i]).price_usd == x;
                    assert(dims[i + 1].price_usd == x);
                },
                None => {
                    assert forall|i: int| 0 <= i < dims.len() implies !(
                    #[trigger] dims[i]).price_usd.positive() by {
                        if i > 0 {
                            assert(!rest[i - 1].price_usd.positive());
                        }
                    }
                },
            }
        }
    }
}

/// A file gives one entry for each product, in the order of their keys, also
/// for a product without terms.
pub proof fn law_one_entry_per_product(file: BulkFileView, i: int)
    requires
        0 <= i < file.products.len(),
    ensures
        entries_of(file).len() == file.products.len(),
        entries_of(file)[i].sku == file.products[i].0,
        crate::strmap::lookup(file.on_demand, file.products[i].0) is None ==> entries_of(
            file,
        )[i].dimensions.len() == 0,
{
}

} // verus!
