//! Quotas and what resources can take under them.

use vstd::prelude::*;

use crate::arch::LogicalId;
use crate::json::Json;
use crate::json::JsonView;
use crate::strmap::StrMap;
use crate::yaml::Number;
use crate::yaml::NumberView;

verus! {

/// Limits by their key.
#[derive(Debug)]
pub struct Quotas {
    pub limits: StrMap<Number>,
}

/// The limits of a map, by their key.
pub open spec fn limit_entries(m: Seq<(Seq<char>, Number)>) -> Seq<(Seq<char>, NumberView)> {
    m.map_values(|e: (Seq<char>, Number)| (e.0, e.1@))
}

impl View for Quotas {
    type V = Seq<(Seq<char>, NumberView)>;

    open spec fn view(&self) -> Seq<(Seq<char>, NumberView)> {
        limit_entries(self.limits@)
    }
}

/// The limits after those of `over` were set.
pub open spec fn merged(
    base: Seq<(Seq<char>, NumberView)>,
    over: Seq<(Seq<char>, NumberView)>,
) -> Seq<(Seq<char>, NumberView)>
    decreases over.len(),
{
    if over.len() == 0 {
        base
    } else {
        crate::strmap::inserted(merged(base, over.drop_last()), over.last().0, over.last().1)
    }
}

impl Quotas {
    /// No limits.
    pub fn new() -> (r: Self)
        ensures
            r@ == Seq::<(Seq<char>, NumberView)>::empty(),
    {
        let r = Quotas { limits: StrMap::new() };
        assert(r@ =~= Seq::empty());
        r
    }

    /// Sets the limits of `other`, which replace those under the same key.
    pub fn merge_from(&mut self, other: &Quotas)
        ensures
            final(self)@ == merged(old(self)@, other@),
    {
        let ghost base = self@;
        let ghost all = other@;
        let n: usize = other.limits.len();
        assert(all.subrange(0, 0) =~= Seq::empty());
        for i in 0..n
            invariant
                n == other.limits@.len(),
                all == other@,
                self@ == merged(base, all.subrange(0, i as int)),
        {
            proof {
                let now = all.subrange(0, i + 1);
                assert(now.drop_last() =~= all.subrange(0, i as int));
                assert(now.last() == (other.limits@[i as int].0, other.limits@[i as int].1@));
            }
            let key = other.limits.key_at(i).clone();
            let value = other.limits.value_at(i).clone();
            proof {
                crate::strmap::lemma_inserted_mapped(
                    self.limits@,
                    |x: Number| x@,
                    key@,
                    value,
                );
                assert(crate::strmap::mapped(self.limits@, |x: Number| x@) =~= self@);
            }
            self.limits.insert(key, value);
            assert(crate::strmap::mapped(self.limits@, |x: Number| x@) =~= self@);
        }
        assert(all.subrange(0, n as int) =~= all);
    }
}

/// What a resource can take, in the words of its service.
#[derive(Debug, PartialEq, Eq)]
pub struct CapacityModel {
    pub logical_id: LogicalId,
    pub model: Json,
}

/// The model of a [`CapacityModel`].
pub struct CapacityView {
    pub logical_id: Seq<char>,
    pub model: JsonView,
}

impl View for CapacityModel {
    type V = CapacityView;

    open spec fn view(&self) -> CapacityView {
        CapacityView { logical_id: self.logical_id@, model: self.model@ }
    }
}

/// The models of a sequence of capacities.
pub open spec fn capacity_views(v: Seq<CapacityModel>) -> Seq<CapacityView> {
    v.map_values(|c: CapacityModel| c@)
}

/// The model of an optional capacity.
pub open spec fn opt_capacity(c: Option<CapacityModel>) -> Option<CapacityView> {
    match c {
        Some(x) => Some(x@),
        None => None,
    }
}

/// Knows the quotas that apply by default.
///
/// Of an implementation that does not say what its models are, nothing is known
/// but that they are what its methods give.
pub trait QuotaProvider {
    /// The quotas that apply by default in a region.
    closed spec fn quotas(&self, region: Seq<char>) -> Seq<(Seq<char>, NumberView)> {
        arbitrary()
    }

    /// The quotas that apply by default in a region.
    fn default_quotas(&self, region: &str) -> (r: Quotas)
        ensures
            r@ == self.quotas(region@),
    ;
}

/// A quota provider that can be shared.
pub struct SharedQuotaProvider {
    pub provider: std::sync::Arc<dyn QuotaProvider>,
}

// ---------------------------------------------------------------------------
// Laws
// ---------------------------------------------------------------------------

/// Merged quotas hold each limit of `over`, and of the others those of `base`.
pub proof fn law_merged_limits(
    base: Seq<(Seq<char>, NumberView)>,
    over: Seq<(Seq<char>, NumberView)>,
    key: Seq<char>,
)
    requires
        crate::strmap::keys_rise(over),
    ensures
        crate::strmap::lookup(merged(base, over), key) == match crate::strmap::lookup(over, key) {
            Some(x) => Some(x),
            None => crate::strmap::lookup(base, key),
        },
    decreases over.len(),
{
    if over.len() > 0 {
        let rest = over.drop_last();
        let last = over.last();
        law_merged_limits(base, rest, key);
        crate::strmap::lemma_lookup_inserted(merged(base, rest), last.0, last.1, key);
        crate::strmap::lemma_lookup(over, key);
        crate::strmap::lemma_lookup(rest, key);
        if last.0 == key {
            crate::strmap::lemma_lookup_sorted(over, over.len() - 1);
        } else {
            if crate::strmap::lookup(over, key) is Some {
                let i = choose|i: int|
                    0 <= i < over.len() && (#[trigger] over[i]).0 == key && over[i].1
                        == crate::strmap::lookup(over, key)->Some_0;
                assert(rest[i] == over[i]);
                crate::strmap::lemma_lookup_sorted(rest, i);
            } else if crate::strmap::lookup(rest, key) is Some {
                let i = choose|i: int| 0 <= i < rest.len() && (#[trigger] rest[i]).0 == key;
                assert(over[i].0 == key);
            }
        }
    }
}

} // verus!
