//! Price catalogs and the records that they hold.
//!
//! A [`PriceCatalog`] gives records that name their currency. Inside a
//! provider, where the currency is fixed, [`TypedPriceRecord`] carries it in
//! its type.

use vstd::prelude::*;

use std::marker::PhantomData;

use crate::amount::Amount;
use crate::cost::Tier;
use crate::pricing::error::PricingError;
use crate::pricing::error::PricingErrorView;
use crate::pricing::noop::NoopCatalog;

verus! {

// ---------------------------------------------------------------------------
// Keys
// ---------------------------------------------------------------------------

/// The key of a price record.
#[derive(Debug, PartialEq, Eq, Hash)]
pub struct Sku {
    pub text: String,
}

impl View for Sku {
    type V = Seq<char>;

    open spec fn view(&self) -> Seq<char> {
        self.text@
    }
}

impl Clone for Sku {
    fn clone(&self) -> (r: Self)
        ensures
            r@ == self@,
    {
        Sku { text: self.text.clone() }
    }
}

impl Sku {
    /// The key with the given text.
    pub fn new(s: &'static str) -> (r: Self)
        ensures
            r@ == s@,
    {
        Sku { text: s.to_owned() }
    }

    /// The key with the given text.
    pub fn dynamic(s: &str) -> (r: Self)
        ensures
            r@ == s@,
    {
        Sku { text: s.to_owned() }
    }

    /// The text of the key.
    pub fn as_str(&self) -> (r: &str)
        ensures
            r@ == self@,
    {
        self.text.as_str()
    }
}

// ---------------------------------------------------------------------------
// Records
// ---------------------------------------------------------------------------

/// One tier of a tiered record.
#[derive(Debug, Clone, Copy, PartialEq, Eq, Structural)]
pub struct PricedTier {
    pub upper_limit: Option<Amount>,
    pub unit_price: Amount,
}

/// A price record, with its currency.
#[derive(Debug, PartialEq, Eq)]
pub enum PricedValue {
    /// A flat price for each unit.
    Scalar { value: Amount, currency: String },
    /// A tiered price. All tiers share the currency.
    Tiered { tiers: Vec<PricedTier>, currency: String },
}

/// The former name of [`PricedValue`].
pub type PriceRecord = PricedValue;

/// The model of a [`PricedValue`].
#[verifier::ext_equal]
pub enum PriceView {
    Scalar { value: Amount, currency: Seq<char> },
    Tiered { tiers: Seq<PricedTier>, currency: Seq<char> },
}

impl View for PricedValue {
    type V = PriceView;

    open spec fn view(&self) -> PriceView {
        match self {
            PricedValue::Scalar { value, currency } => PriceView::Scalar {
                value: *value,
                currency: currency@,
            },
            PricedValue::Tiered { tiers, currency } => PriceView::Tiered {
                tiers: tiers@,
                currency: currency@,
            },
        }
    }
}

/// The currency of a record.
pub open spec fn currency_of(p: PriceView) -> Seq<char> {
    match p {
        PriceView::Scalar { currency, .. } => currency,
        PriceView::Tiered { currency, .. } => currency,
    }
}

/// The flat price of a record, or the error where the record is tiered.
pub open spec fn flat_price(p: PriceView) -> Result<Amount, PricingErrorView> {
    match p {
        PriceView::Scalar { value, .. } => Ok(value),
        PriceView::Tiered { .. } => Err(
            PricingErrorView::NotFound {
                service: "expected scalar price but got tiered"@,
                region: Seq::empty(),
            },
        ),
    }
}

/// A tier of a record as a tier of a cost expression.
pub open spec fn cost_tier(t: PricedTier) -> Tier {
    Tier { upper_limit: t.upper_limit, unit_price: t.unit_price }
}

/// The tiers of a record, or the error where the record is flat.
pub open spec fn tiered_price(p: PriceView) -> Result<Seq<Tier>, PricingErrorView> {
    match p {
        PriceView::Tiered { tiers, .. } => Ok(tiers.map_values(|t: PricedTier| cost_tier(t))),
        PriceView::Scalar { .. } => Err(
            PricingErrorView::NotFound {
                service: "expected tiered price but got scalar"@,
                region: Seq::empty(),
            },
        ),
    }
}

/// The model of an amount or an error.
pub open spec fn amount_outcome(r: Result<Amount, PricingError>) -> Result<
    Amount,
    PricingErrorView,
> {
    match r {
        Ok(x) => Ok(x),
        Err(e) => Err(e@),
    }
}

/// The model of a record or an error.
pub open spec fn price_outcome(r: Result<PricedValue, PricingError>) -> Result<
    PriceView,
    PricingErrorView,
> {
    match r {
        Ok(x) => Ok(x@),
        Err(e) => Err(e@),
    }
}

impl PricedValue {
    /// A flat record.
    pub fn scalar(value: Amount, currency: &str) -> (r: Self)
        ensures
            r@ == (PriceView::Scalar { value, currency: currency@ }),
    {
        PricedValue::Scalar { value, currency: currency.to_owned() }
    }

    /// A tiered record.
    pub fn tiered(tiers: Vec<PricedTier>, currency: &str) -> (r: Self)
        ensures
            r@ == (PriceView::Tiered { tiers: tiers@, currency: currency@ }),
    {
        PricedValue::Tiered { tiers, currency: currency.to_owned() }
    }

    /// The currency of the record.
    pub fn currency(&self) -> (r: &str)
        ensures
            r@ == currency_of(self@),
    {
        match self {
            PricedValue::Scalar { currency, .. } => currency.as_str(),
            PricedValue::Tiered { currency, .. } => currency.as_str(),
        }
    }

    /// The former name of [`PricedValue::as_scalar`].
    pub fn as_flat(&self) -> (r: Result<Amount, PricingError>)
        ensures
            amount_outcome(r) == flat_price(self@),
    {
        self.as_scalar()
    }

    /// The flat price, or an error for a tiered record.
    pub fn as_scalar(&self) -> (r: Result<Amount, PricingError>)
        ensures
            amount_outcome(r) == flat_price(self@),
    {
        match self {
            PricedValue::Scalar { value, .. } => Ok(*value),
            PricedValue::Tiered { .. } => {
                let e = PricingError::NotFound {
                    service: "expected scalar price but got tiered".to_owned(),
                    region: String::new(),
                };
                assert(e@->region =~= Seq::empty());
                Err(e)
            },
        }
    }

    /// The tiers, or an error for a flat record.
    pub fn as_tiered(&self) -> (r: Result<Vec<Tier>, PricingError>)
        ensures
            match r {
                Ok(v) => tiered_price(self@) == Ok::<Seq<Tier>, PricingErrorView>(v@),
                Err(e) => tiered_price(self@) == Err::<Seq<Tier>, PricingErrorView>(e@),
            },
    {
        match self {
            PricedValue::Tiered { tiers, .. } => {
                let ghost all = tiers@.map_values(|t: PricedTier| cost_tier(t));
                let mut out: Vec<Tier> = Vec::new();
                for i in 0..tiers.len()
                    invariant
                        all == tiers@.map_values(|t: PricedTier| cost_tier(t)),
                        out@ == all.subrange(0, i as int),
                {
                    out.push(
                        Tier {
                            upper_limit: tiers[i].upper_limit,
                            unit_price: tiers[i].unit_price,
                        },
                    );
                    assert(out@ =~= all.subrange(0, i + 1));
                }
                assert(all.subrange(0, tiers@.len() as int) =~= all);
                Ok(out)
            },
            PricedValue::Scalar { .. } => {
                let e = PricingError::NotFound {
                    service: "expected tiered price but got scalar".to_owned(),
                    region: String::new(),
                };
                assert(e@->region =~= Seq::empty());
                Err(e)
            },
        }
    }
}

// ---------------------------------------------------------------------------
// Catalogs
// ---------------------------------------------------------------------------

/// Prices by key.
///
/// Of an implementation that does not say what its models are, nothing is known
/// but that they are what its methods give.
pub trait PriceCatalog {
    /// The region whose prices the catalog holds.
    closed spec fn region_name(&self) -> Seq<char> {
        arbitrary()
    }

    /// What the catalog holds under a key.
    closed spec fn price(&self, sku: Seq<char>) -> Result<PriceView, PricingErrorView> {
        arbitrary()
    }

    /// The region whose prices the catalog holds.
    fn region(&self) -> (r: &str)
        ensures
            r@ == self.region_name(),
    ;

    /// The record under a key.
    fn lookup(&self, sku: &Sku) -> (r: Result<PricedValue, PricingError>)
        ensures
            price_outcome(r) == self.price(sku@),
    ;

    /// The flat price under a key.
    fn lookup_f64(&self, sku: &Sku) -> (r: Result<Amount, PricingError>)
        ensures
            amount_outcome(r) == match self.price(sku@) {
                Ok(p) => flat_price(p),
                Err(e) => Err(e),
            },
    {
        match self.lookup(sku) {
            Ok(p) => p.as_scalar(),
            Err(e) => Err(e),
        }
    }
}

/// A catalog that can be shared.
pub struct SharedCatalog {
    pub catalog: std::sync::Arc<dyn PriceCatalog>,
}

/// A catalog: one of the library's own, or one that the host supplies.
pub enum CatalogHandle {
    Noop(NoopCatalog),
    Shared(SharedCatalog),
}

impl PriceCatalog for CatalogHandle {
    open spec fn region_name(&self) -> Seq<char> {
        match self {
            CatalogHandle::Noop(c) => c.region_name(),
            CatalogHandle::Shared(c) => c.catalog.region_name(),
        }
    }

    open spec fn price(&self, sku: Seq<char>) -> Result<PriceView, PricingErrorView> {
        match self {
            CatalogHandle::Noop(c) => c.price(sku),
            CatalogHandle::Shared(c) => c.catalog.price(sku),
        }
    }

    fn region(&self) -> (r: &str) {
        match self {
            CatalogHandle::Noop(c) => c.region(),
            CatalogHandle::Shared(c) => c.catalog.region(),
        }
    }

    fn lookup(&self, sku: &Sku) -> (r: Result<PricedValue, PricingError>) {
        match self {
            CatalogHandle::Noop(c) => c.lookup(sku),
            CatalogHandle::Shared(c) => c.catalog.lookup(sku),
        }
    }
}

// ---------------------------------------------------------------------------
// Typed records
// ---------------------------------------------------------------------------

/// A currency.
///
/// Of an implementation that does not say what its models are, nothing is known
/// but that they are what its methods give.
pub trait CurrencyCode {
    /// The code of the currency.
    closed spec fn code() -> Seq<char> {
        arbitrary()
    }

    /// The code of the currency.
    fn code_text() -> (r: String)
        ensures
            r@ == Self::code(),
    ;
}

/// The United States dollar.
#[derive(Debug, PartialEq, Eq)]
pub struct USD;

impl CurrencyCode for USD {
    open spec fn code() -> Seq<char> {
        "USD"@
    }

    fn code_text() -> (r: String) {
        "USD".to_owned()
    }
}

/// An amount of a currency.
#[derive(Debug, PartialEq, Eq)]
pub struct Currency<C: CurrencyCode> {
    pub value: Amount,
    pub currency: PhantomData<C>,
}

impl<C: CurrencyCode> Currency<C> {
    /// The given amount of the currency.
    pub fn new(value: Amount) -> (r: Self)
        ensures
            r.value == value,
    {
        Currency { value, currency: PhantomData }
    }

    /// The amount.
    pub fn value(&self) -> (r: &Amount)
        ensures
            *r == self.value,
    {
        &self.value
    }
}

/// One tier of a typed tiered record.
#[derive(Debug, PartialEq, Eq)]
pub struct TypedTier<C: CurrencyCode> {
    pub upper_limit: Option<Amount>,
    pub unit_price: Currency<C>,
}

impl<C: CurrencyCode> TypedTier<C> {
    /// A tier.
    pub fn new(upper_limit: Option<Amount>, unit_price: Currency<C>) -> (r: Self)
        ensures
            r.upper_limit == upper_limit,
            r.unit_price == unit_price,
    {
        TypedTier { upper_limit, unit_price }
    }
}

/// A price record in a currency that its type names.
#[derive(Debug, PartialEq, Eq)]
pub enum TypedPriceRecord<C: CurrencyCode> {
    Scalar(Currency<C>),
    Tiered(Vec<TypedTier<C>>),
}

/// A typed tier without its type.
pub open spec fn erased_tier<C: CurrencyCode>(t: TypedTier<C>) -> PricedTier {
    PricedTier { upper_limit: t.upper_limit, unit_price: t.unit_price.value }
}

/// A typed record with its currency as a value.
pub open spec fn erased<C: CurrencyCode>(r: TypedPriceRecord<C>) -> PriceView {
    match r {
        TypedPriceRecord::Scalar(x) => PriceView::Scalar { value: x.value, currency: C::code() },
        TypedPriceRecord::Tiered(v) => PriceView::Tiered {
            tiers: v@.map_values(|t: TypedTier<C>| erased_tier(t)),
            currency: C::code(),
        },
    }
}

impl<C: CurrencyCode> TypedPriceRecord<C> {
    /// Turns the currency of the type into a currency of the record.
    pub fn erase(self) -> (r: PricedValue)
        ensures
            r@ == erased(self),
    {
        match &self {
            TypedPriceRecord::Scalar(x) => PricedValue::Scalar {
                value: x.value,
                currency: C::code_text(),
            },
            TypedPriceRecord::Tiered(v) => {
                let ghost all = v@.map_values(|t: TypedTier<C>| erased_tier(t));
                let mut tiers: Vec<PricedTier> = Vec::new();
                for i in 0..v.len()
                    invariant
                        all == v@.map_values(|t: TypedTier<C>| erased_tier(t)),
                        tiers@ == all.subrange(0, i as int),
                {
                    tiers.push(
                        PricedTier {
                            upper_limit: v[i].upper_limit,
                            unit_price: v[i].unit_price.value,
                        },
                    );
                    assert(tiers@ =~= all.subrange(0, i + 1));
                }
                assert(all.subrange(0, v@.len() as int) =~= all);
                PricedValue::Tiered { tiers, currency: C::code_text() }
            },
        }
    }
}

/// Prices by key in one currency.
///
/// Of an implementation that does not say what its models are, nothing is known
/// but that they are what its methods give.
pub trait TypedPricingProvider<C: CurrencyCode> {
    /// What the provider holds under a key.
    closed spec fn typed_price(&self, sku: Seq<char>) -> Result<PriceView, PricingErrorView> {
        arbitrary()
    }

    /// The record under a key.
    fn lookup(&self, sku: &Sku) -> (r: Result<TypedPriceRecord<C>, PricingError>)
        ensures
            match r {
                Ok(x) => self.typed_price(sku@) == Ok::<PriceView, PricingErrorView>(erased(x)),
                Err(e) => self.typed_price(sku@) == Err::<PriceView, PricingErrorView>(e@),
            },
    ;
}

// ---------------------------------------------------------------------------
// Laws
// ---------------------------------------------------------------------------

/// Erasing a typed record names the currency of its type, and keeps the price
/// or the number of tiers.
pub proof fn law_erasing_keeps_the_price<C: CurrencyCode>(r: TypedPriceRecord<C>)
    ensures
        currency_of(erased(r)) == C::code(),
        r matches TypedPriceRecord::Scalar(x) ==> flat_price(erased(r)) == Ok::<
            Amount,
            PricingErrorView,
        >(x.value),
        r matches TypedPriceRecord::Tiered(v) ==> tiered_price(erased(r)) is Ok && tiered_price(
            erased(r),
        )->Ok_0.len() == v@.len(),
{
}

/// A record is either flat or tiered: exactly one of the two readings
/// succeeds.
pub proof fn law_flat_or_tiered(p: PriceView)
    ensures
        flat_price(p) is Ok <==> tiered_price(p) is Err,
{
}

} // verus!
