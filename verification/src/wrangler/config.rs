//! Wrangler configurations as they are written.

use vstd::prelude::*;

use crate::decode::found_text_message;
use crate::decode::missing_field_message;
use crate::decode::wrong_kind_message;
use crate::decode::wrong_length_message;
use crate::strmap::vec_get;
use crate::text::text_eq;
use crate::wrangler::document::Node;
use crate::wrangler::document::NodeView;
use crate::wrangler::document::Place;
use crate::wrangler::document::Toml;
use crate::wrangler::document::TomlView;

verus! {

// ---------------------------------------------------------------------------
// Types
// ---------------------------------------------------------------------------

/// The parts of a configuration that say which resources a worker uses.
#[derive(Debug, PartialEq, Eq)]
pub struct RawWrangler {
    pub name: Option<String>,
    pub usage_model: Option<String>,
    pub kv_namespaces: Vec<RawKvNamespace>,
    pub r2_buckets: Vec<RawR2Bucket>,
    pub d1_databases: Vec<RawD1Database>,
    pub queues: Option<RawQueues>,
    pub durable_objects: Option<RawDurableObjects>,
}

/// A key-value namespace.
#[derive(Debug, PartialEq, Eq)]
pub struct RawKvNamespace {
    pub binding: String,
    pub id: String,
}

/// A bucket.
#[derive(Debug, PartialEq, Eq)]
pub struct RawR2Bucket {
    pub binding: String,
    pub bucket_name: Option<String>,
}

/// A database.
#[derive(Debug, PartialEq, Eq)]
pub struct RawD1Database {
    pub binding: String,
    pub database_id: Option<String>,
}

/// The queues that a worker writes to and reads from.
#[derive(Debug, PartialEq, Eq)]
pub struct RawQueues {
    pub producers: Vec<RawQueueProducer>,
    pub consumers: Vec<RawQueueConsumer>,
}

/// A queue that a worker writes to.
#[derive(Debug, PartialEq, Eq)]
pub struct RawQueueProducer {
    pub binding: String,
    pub queue: String,
}

/// A queue that a worker reads from.
#[derive(Debug, PartialEq, Eq)]
pub struct RawQueueConsumer {
    pub queue: String,
}

/// The durable objects that a worker uses.
#[derive(Debug, PartialEq, Eq)]
pub struct RawDurableObjects {
    pub bindings: Vec<RawDoBinding>,
}

/// A durable object that a worker uses.
#[derive(Debug, PartialEq, Eq)]
pub struct RawDoBinding {
    pub name: String,
    pub class_name: String,
}

// ---------------------------------------------------------------------------
// Models
// ---------------------------------------------------------------------------

/// The model of a [`RawKvNamespace`].
pub struct KvView {
    pub binding: Seq<char>,
    pub id: Seq<char>,
}

/// The model of a [`RawR2Bucket`].
pub struct R2View {
    pub binding: Seq<char>,
    pub bucket_name: Option<Seq<char>>,
}

/// The model of a [`RawD1Database`].
pub struct D1View {
    pub binding: Seq<char>,
    pub database_id: Option<Seq<char>>,
}

/// The model of a [`RawQueueProducer`].
pub struct ProducerView {
    pub binding: Seq<char>,
    pub queue: Seq<char>,
}

/// The model of a [`RawDoBinding`].
pub struct DoView {
    pub name: Seq<char>,
    pub class_name: Seq<char>,
}

/// The model of a [`RawQueues`].
#[verifier::ext_equal]
pub struct QueuesView {
    pub producers: Seq<ProducerView>,
    pub consumers: Seq<Seq<char>>,
}

/// The model of a [`RawWrangler`].
#[verifier::ext_equal]
pub struct RawWranglerView {
    pub name: Option<Seq<char>>,
    pub usage_model: Option<Seq<char>>,
    pub kv_namespaces: Seq<KvView>,
    pub r2_buckets: Seq<R2View>,
    pub d1_databases: Seq<D1View>,
    pub queues: Option<QueuesView>,
    pub durable_objects: Option<Seq<DoView>>,
}

impl View for RawKvNamespace {
    type V = KvView;

    open spec fn view(&self) -> KvView {
        KvView { binding: self.binding@, id: self.id@ }
    }
}

impl View for RawR2Bucket {
    type V = R2View;

    open spec fn view(&self) -> R2View {
        R2View {
            binding: self.binding@,
            bucket_name: crate::tf::document::opt_view(self.bucket_name),
        }
    }
}

impl View for RawD1Database {
    type V = D1View;

    open spec fn view(&self) -> D1View {
        D1View {
            binding: self.binding@,
            database_id: crate::tf::document::opt_view(self.database_id),
        }
    }
}

impl View for RawQueueProducer {
    type V = ProducerView;

    open spec fn view(&self) -> ProducerView {
        ProducerView { binding: self.binding@, queue: self.queue@ }
    }
}

impl View for RawQueueConsumer {
    type V = Seq<char>;

    open spec fn view(&self) -> Seq<char> {
        self.queue@
    }
}

impl View for RawDoBinding {
    type V = DoView;

    open spec fn view(&self) -> DoView {
        DoView { name: self.name@, class_name: self.class_name@ }
    }
}

impl View for RawQueues {
    type V = QueuesView;

    open spec fn view(&self) -> QueuesView {
        QueuesView { producers: views(self.producers@), consumers: views(self.consumers@) }
    }
}

impl View for RawDurableObjects {
    type V = Seq<DoView>;

    open spec fn view(&self) -> Seq<DoView> {
        views(self.bindings@)
    }
}

impl View for RawWrangler {
    type V = RawWranglerView;

    open spec fn view(&self) -> RawWranglerView {
        RawWranglerView {
            name: crate::tf::document::opt_view(self.name),
            usage_model: crate::tf::document::opt_view(self.usage_model),
            kv_namespaces: views(self.kv_namespaces@),
            r2_buckets: views(self.r2_buckets@),
            d1_databases: views(self.d1_databases@),
            queues: match self.queues {
                Some(q) => Some(q@),
                None => None,
            },
            durable_objects: match self.durable_objects {
                Some(d) => Some(d@),
                None => None,
            },
        }
    }
}

/// The models of a sequence of values.
pub open spec fn views<T: View>(v: Seq<T>) -> Seq<T::V> {
    v.map_values(|x: T| x@)
}

// ---------------------------------------------------------------------------
// Reading
// ---------------------------------------------------------------------------

/// Why something cannot be read, and where.
#[derive(Debug, PartialEq, Eq)]
pub struct Fault {
    pub place: Place,
    pub message: String,
}

/// The model of a [`Fault`].
pub struct FaultView {
    pub place: Place,
    pub message: Seq<char>,
}

impl View for Fault {
    type V = FaultView;

    open spec fn view(&self) -> FaultView {
        FaultView { place: self.place, message: self.message@ }
    }
}

/// The model of what was read, or of why it could not be read.
pub open spec fn read_outcome<T: View>(r: Result<T, Fault>) -> Result<T::V, FaultView> {
    match r {
        Ok(x) => Ok(x@),
        Err(e) => Err(e@),
    }
}

/// The model of a fault, where there is one.
pub open spec fn fault_view(f: Option<Fault>) -> Option<FaultView> {
    match f {
        Some(x) => Some(x@),
        None => None,
    }
}

/// What is said of a value that is not of the expected kind.
pub open spec fn said_of(v: TomlView, expected: Seq<char>) -> Seq<char> {
    match v {
        TomlView::Unreadable(said) => said,
        TomlView::Scalar(said) => said + ", expected "@ + expected,
        TomlView::Text(s) => crate::decode::wrong_kind(crate::decode::found_text(s), expected),
        TomlView::List(_) => crate::decode::wrong_kind("sequence"@, expected),
        TomlView::Datetime => crate::decode::wrong_kind("map"@, expected),
        TomlView::Table(_) => crate::decode::wrong_kind("map"@, expected),
    }
}

/// The fault of a value that is not of the expected kind.
pub open spec fn unexpected(n: NodeView, expected: Seq<char>) -> FaultView {
    FaultView { place: n.0, message: said_of(n.1, expected) }
}

/// The fault of a value that is not of the expected kind.
fn unexpected_fault(n: &Node, expected: &str) -> (r: Fault)
    ensures
        r@ == unexpected(crate::wrangler::document::node_view(*n), expected@),
{
    let message = match &n.1 {
        Toml::Unreadable(said) => said.clone(),
        Toml::Scalar(said) => {
            let mut m = said.clone();
            m.append(", expected ");
            m.append(expected);
            m
        },
        Toml::Text(s) => wrong_kind_message(found_text_message(s.as_str()).as_str(), expected),
        Toml::List(_) => wrong_kind_message("sequence", expected),
        Toml::Datetime => wrong_kind_message("map", expected),
        Toml::Table(_) => wrong_kind_message("map", expected),
    };
    Fault { place: n.0, message }
}

/// The first fault in a value of which nothing is wanted: a number that is too
/// large to be read.
pub open spec fn ignored_fault(n: NodeView) -> Option<FaultView>
    decreases n.1, 1int,
{
    match n.1 {
        TomlView::Unreadable(said) => Some(FaultView { place: n.0, message: said }),
        TomlView::List(s) => ignored_items(s),
        TomlView::Table(m) => ignored_entries(m),
        _ => None,
    }
}

/// The first fault in items of which nothing is wanted.
pub open spec fn ignored_items(s: Seq<NodeView>) -> Option<FaultView>
    decreases s, 0int,
{
    if s.len() == 0 {
        None
    } else {
        match ignored_items(s.drop_last()) {
            Some(f) => Some(f),
            None => {
                proof {
                    assert(decreases_to!(s => s[s.len() - 1]));
                    assert(decreases_to!(s[s.len() - 1] => s[s.len() - 1].1));
                }
                ignored_fault(s[s.len() - 1])
            },
        }
    }
}

/// The first fault in entries of which nothing is wanted.
pub open spec fn ignored_entries(m: Seq<(Seq<char>, NodeView)>) -> Option<FaultView>
    decreases m, 0int,
{
    if m.len() == 0 {
        None
    } else {
        match ignored_entries(m.drop_last()) {
            Some(f) => Some(f),
            None => {
                proof {
                    assert(decreases_to!(m => m[m.len() - 1]));
                    assert(decreases_to!(m[m.len() - 1] => m[m.len() - 1].1));
                    assert(decreases_to!(m[m.len() - 1].1 => m[m.len() - 1].1.1));
                }
                ignored_fault(m[m.len() - 1].1)
            },
        }
    }
}

/// A fault among the first items is the first fault of all of them.
proof fn lemma_ignored_items(s: Seq<NodeView>, n: int)
    requires
        0 <= n <= s.len(),
        ignored_items(s.subrange(0, n)) is Some,
    ensures
        ignored_items(s) == ignored_items(s.subrange(0, n)),
    decreases s.len() - n,
{
    if n == s.len() {
        assert(s.subrange(0, n) =~= s);
    } else {
        assert(s.subrange(0, n + 1).drop_last() =~= s.subrange(0, n));
        lemma_ignored_items(s, n + 1);
    }
}

/// A fault among the first entries is the first fault of all of them.
proof fn lemma_ignored_entries(m: Seq<(Seq<char>, NodeView)>, n: int)
    requires
        0 <= n <= m.len(),
        ignored_entries(m.subrange(0, n)) is Some,
    ensures
        ignored_entries(m) == ignored_entries(m.subrange(0, n)),
    decreases m.len() - n,
{
    if n == m.len() {
        assert(m.subrange(0, n) =~= m);
    } else {
        assert(m.subrange(0, n + 1).drop_last() =~= m.subrange(0, n));
        lemma_ignored_entries(m, n + 1);
    }
}

/// The first fault in a value of which nothing is wanted.
fn find_ignored(n: &Node) -> (r: Option<Fault>)
    ensures
        fault_view(r) == ignored_fault(crate::wrangler::document::node_view(*n)),
    decreases n.1,
{
    match &n.1 {
        Toml::Unreadable(said) => Some(Fault { place: n.0, message: said.clone() }),
        Toml::List(items) => {
            let ghost all = n.1@->List_0;
            assert(all =~= crate::wrangler::document::toml_views(items@));
            assert(all.subrange(0, 0) =~= Seq::empty());
            for i in 0..items.len()
                invariant
                    n.1 is List,
                    n.1->List_0 == items,
                    n.1@ == TomlView::List(all),
                    all == crate::wrangler::document::toml_views(items@),
                    ignored_items(all.subrange(0, i as int)) is None,
            {
                proof {
                    let now = all.subrange(0, i + 1);
                    assert(now.drop_last() =~= all.subrange(0, i as int));
                    assert(now[now.len() - 1] == crate::wrangler::document::node_view(
                        items@[i as int],
                    ));
                    assert(decreases_to!(n.1 => items@[i as int]));
                    assert(decreases_to!(items@[i as int] => items@[i as int].1));
                }
                if let Some(f) = find_ignored(&items[i]) {
                    proof {
                        lemma_ignored_items(all, i + 1);
                    }
                    return Some(f);
                }
            }
            assert(all.subrange(0, all.len() as int) =~= all);
            None
        },
        Toml::Table(entries) => {
            let ghost all = n.1@->Table_0;
            assert(all =~= crate::wrangler::document::toml_entries(entries@));
            assert(all.subrange(0, 0) =~= Seq::empty());
            for i in 0..entries.len()
                invariant
                    n.1 is Table,
                    n.1->Table_0 == entries,
                    n.1@ == TomlView::Table(all),
                    all == crate::wrangler::document::toml_entries(entries@),
                    ignored_entries(all.subrange(0, i as int)) is None,
            {
                proof {
                    let now = all.subrange(0, i + 1);
                    assert(now.drop_last() =~= all.subrange(0, i as int));
                    assert(now[now.len() - 1].1 == crate::wrangler::document::node_view(
                        entries@[i as int].1,
                    ));
                    assert(decreases_to!(n.1 => entries@[i as int]));
                    assert(decreases_to!(entries@[i as int] => entries@[i as int].1));
                    assert(decreases_to!(entries@[i as int].1 => entries@[i as int].1.1));
                }
                if let Some(f) = find_ignored(&entries[i].1) {
                    proof {
                        lemma_ignored_entries(all, i + 1);
                    }
                    return Some(f);
                }
            }
            assert(all.subrange(0, all.len() as int) =~= all);
            None
        },
        _ => None,
    }
}

// ---------------------------------------------------------------------------
// Entries of tables
// ---------------------------------------------------------------------------

/// What the entries of a table have to be like.
pub trait Entries {
    /// Why the value under a key cannot be read, where it cannot.
    spec fn fault(&self, key: Seq<char>, n: NodeView) -> Option<FaultView>;

    /// Why the value under a key cannot be read, where it cannot.
    fn find(&self, key: &str, n: &Node) -> (r: Option<Fault>)
        ensures
            fault_view(r) == self.fault(key@, crate::wrangler::document::node_view(*n)),
    ;
}

/// The first fault in the entries of a table.
pub open spec fn entries_fault<E: Entries>(e: E, m: Seq<(Seq<char>, NodeView)>) -> Option<FaultView>
    decreases m.len(),
{
    if m.len() == 0 {
        None
    } else {
        match entries_fault(e, m.drop_last()) {
            Some(f) => Some(f),
            None => e.fault(m.last().0, m.last().1),
        }
    }
}

/// A fault among the first entries is the first fault of all of them.
proof fn lemma_first_fault<E: Entries>(e: E, m: Seq<(Seq<char>, NodeView)>, n: int)
    requires
        0 <= n <= m.len(),
        entries_fault(e, m.subrange(0, n)) is Some,
    ensures
        entries_fault(e, m) == entries_fault(e, m.subrange(0, n)),
    decreases m.len() - n,
{
    if n == m.len() {
        assert(m.subrange(0, n) =~= m);
    } else {
        assert(m.subrange(0, n + 1).drop_last() =~= m.subrange(0, n));
        lemma_first_fault(e, m, n + 1);
    }
}

/// The first fault in the entries of a table.
fn find_fault<E: Entries>(e: &E, m: &Vec<(String, Node)>) -> (r: Option<Fault>)
    ensures
        fault_view(r) == entries_fault(*e, crate::wrangler::document::toml_entries(m@)),
{
    let ghost all = crate::wrangler::document::toml_entries(m@);
    assert(all.subrange(0, 0) =~= Seq::empty());
    for i in 0..m.len()
        invariant
            all == crate::wrangler::document::toml_entries(m@),
            entries_fault(*e, all.subrange(0, i as int)) is None,
    {
        proof {
            let now = all.subrange(0, i + 1);
            assert(now.drop_last() =~= all.subrange(0, i as int));
            assert(now.last() == all[i as int]);
        }
        if let Some(f) = e.find(m[i].0.as_str(), &m[i].1) {
            proof {
                lemma_first_fault(*e, all, i + 1);
            }
            return Some(f);
        }
    }
    assert(all.subrange(0, all.len() as int) =~= all);
    None
}

/// The value under a key of a table.
fn entry<'a>(m: &'a Vec<(String, Node)>, key: &str) -> (r: Option<&'a Node>)
    ensures
        match r {
            Some(n) => crate::strmap::lookup(crate::wrangler::document::toml_entries(m@), key@)
                == Some(crate::wrangler::document::node_view(*n)),
            None => crate::strmap::lookup(crate::wrangler::document::toml_entries(m@), key@)
                is None,
        },
{
    proof {
        let f = |n: Node| crate::wrangler::document::node_view(n);
        assert(crate::wrangler::document::toml_entries(m@) =~= crate::strmap::mapped(
            crate::strmap::pairs(m@),
            f,
        ));
        crate::strmap::lemma_lookup_mapped(crate::strmap::pairs(m@), f, key@);
    }
    vec_get(m, key)
}

// ---------------------------------------------------------------------------
// Texts
// ---------------------------------------------------------------------------

/// The text that a value is, or why it is none.
pub open spec fn read_text(n: NodeView) -> Result<Seq<char>, FaultView> {
    match n.1 {
        TomlView::Text(t) => Ok(t),
        _ => Err(unexpected(n, "a string"@)),
    }
}

/// The text that a value is, or why it is none.
fn text_from(n: &Node) -> (r: Result<String, Fault>)
    ensures
        read_outcome(r) == read_text(crate::wrangler::document::node_view(*n)),
{
    match &n.1 {
        Toml::Text(t) => Ok(t.clone()),
        _ => Err(unexpected_fault(n, "a string")),
    }
}

/// Whether a field has to be there.
#[derive(Debug, Clone, Copy, PartialEq, Eq, Structural)]
pub enum Need {
    /// It has to be there.
    Required,
    /// A table may leave it out.
    Optional,
    /// It may be left out.
    Default,
}

/// A record of texts.
#[derive(Debug, Clone, Copy)]
pub struct Record {
    /// How the record is spoken of.
    pub name: &'static str,
    /// How the record is spoken of where it stands as a list.
    pub listed: &'static str,
    /// The names of its two fields, and whether they have to be there.
    pub first: (&'static str, Need),
    pub second: (&'static str, Need),
}

impl Entries for Record {
    open spec fn fault(&self, key: Seq<char>, n: NodeView) -> Option<FaultView> {
        if key == self.first.0@ || key == self.second.0@ {
            match read_text(n) {
                Ok(_) => None,
                Err(e) => Some(e),
            }
        } else {
            ignored_fault(n)
        }
    }

    fn find(&self, key: &str, n: &Node) -> (r: Option<Fault>) {
        if text_eq(key, self.first.0) || text_eq(key, self.second.0) {
            match text_from(n) {
                Ok(_) => None,
                Err(e) => Some(e),
            }
        } else {
            find_ignored(n)
        }
    }
}

/// The text at a position of a list, or why there is none.
pub open spec fn listed_text(n: NodeView, record: Record, at: int) -> Result<
    Option<Seq<char>>,
    FaultView,
> {
    let s = n.1->List_0;
    let need = if at == 0 {
        record.first.1
    } else {
        record.second.1
    };
    if at < s.len() {
        match read_text(s[at]) {
            Ok(t) => Ok(Some(t)),
            Err(e) => Err(e),
        }
    } else if need == Need::Default {
        Ok(None)
    } else {
        Err(
            FaultView {
                place: n.0,
                message: crate::decode::wrong_length(at as nat, record.listed@),
            },
        )
    }
}

/// The entries of a value that has fields by their names. A date and time has
/// none that are wanted.
pub open spec fn named_entries(v: TomlView) -> Seq<(Seq<char>, NodeView)> {
    match v {
        TomlView::Table(m) => m,
        _ => Seq::empty(),
    }
}

/// The text under a name of a table, or why there is none.
pub open spec fn named_text(n: NodeView, field: (&'static str, Need)) -> Result<
    Option<Seq<char>>,
    FaultView,
> {
    match crate::strmap::lookup(named_entries(n.1), field.0@) {
        Some(x) => match read_text(x) {
            Ok(t) => Ok(Some(t)),
            Err(e) => Err(e),
        },
        None => if field.1 == Need::Required {
            Err(FaultView { place: n.0, message: crate::decode::missing_field(field.0@) })
        } else {
            Ok(None)
        },
    }
}

/// The two texts of a record, or why it cannot be read.
pub open spec fn read_record(n: NodeView, record: Record) -> Result<
    (Option<Seq<char>>, Option<Seq<char>>),
    FaultView,
> {
    match n.1 {
        TomlView::List(_) => match listed_text(n, record, 0) {
            Ok(a) => match listed_text(n, record, 1) {
                Ok(b) => Ok((a, b)),
                Err(e) => Err(e),
            },
            Err(e) => Err(e),
        },
        TomlView::Table(_) | TomlView::Datetime => match entries_fault(
            record,
            named_entries(n.1),
        ) {
            Some(f) => Err(f),
            None => match named_text(n, record.first) {
                Ok(a) => match named_text(n, record.second) {
                    Ok(b) => Ok((a, b)),
                    Err(e) => Err(e),
                },
                Err(e) => Err(e),
            },
        },
        _ => Err(unexpected(n, record.name@)),
    }
}

/// The model of two texts, or of why they cannot be read.
pub open spec fn record_outcome(
    r: Result<(Option<String>, Option<String>), Fault>,
) -> Result<(Option<Seq<char>>, Option<Seq<char>>), FaultView> {
    match r {
        Ok((a, b)) => Ok(
            (crate::tf::document::opt_view(a), crate::tf::document::opt_view(b)),
        ),
        Err(e) => Err(e@),
    }
}

/// The model of an optional text, or of why it cannot be read.
pub open spec fn text_outcome(r: Result<Option<String>, Fault>) -> Result<
    Option<Seq<char>>,
    FaultView,
> {
    match r {
        Ok(t) => Ok(crate::tf::document::opt_view(t)),
        Err(e) => Err(e@),
    }
}

/// The text at a position of a list, or why there is none.
fn text_at(n: &Node, record: Record, at: usize) -> (r: Result<Option<String>, Fault>)
    requires
        n.1 is List,
    ensures
        text_outcome(r) == listed_text(
            crate::wrangler::document::node_view(*n),
            record,
            at as int,
        ),
{
    let need = if at == 0 {
        record.first.1
    } else {
        record.second.1
    };
    if let Toml::List(s) = &n.1 {
        assert(n.1@->List_0 =~= crate::wrangler::document::toml_views(s@));
        if at < s.len() {
            return match text_from(&s[at]) {
                Ok(t) => Ok(Some(t)),
                Err(e) => Err(e),
            };
        }
    }
    if need == Need::Default {
        Ok(None)
    } else {
        Err(Fault { place: n.0, message: wrong_length_message(at, record.listed) })
    }
}

/// The text under a name of a table, or why there is none.
fn text_under(n: &Node, field: (&'static str, Need)) -> (r: Result<Option<String>, Fault>)
    requires
        n.1 is Table || n.1 is Datetime,
    ensures
        text_outcome(r) == named_text(crate::wrangler::document::node_view(*n), field),
{
    if let Toml::Table(m) = &n.1 {
        assert(n.1@->Table_0 =~= crate::wrangler::document::toml_entries(m@));
        if let Some(x) = entry(m, field.0) {
            return match text_from(x) {
                Ok(t) => Ok(Some(t)),
                Err(e) => Err(e),
            };
        }
    }
    if field.1 == Need::Required {
        Err(Fault { place: n.0, message: missing_field_message(field.0) })
    } else {
        Ok(None)
    }
}

/// The two texts of a record, or why it cannot be read.
fn record_from(n: &Node, record: Record) -> (r: Result<(Option<String>, Option<String>), Fault>)
    ensures
        record_outcome(r) == read_record(crate::wrangler::document::node_view(*n), record),
        r is Ok && record.first.1 == Need::Required ==> r->Ok_0.0 is Some,
        r is Ok && record.second.1 == Need::Required ==> r->Ok_0.1 is Some,
{
    match &n.1 {
        Toml::List(_) => {
            let a = match text_at(n, record, 0) {
                Ok(a) => a,
                Err(e) => {
                    return Err(e);
                },
            };
            match text_at(n, record, 1) {
                Ok(b) => Ok((a, b)),
                Err(e) => Err(e),
            }
        },
        Toml::Table(_) | Toml::Datetime => {
            if let Toml::Table(m) = &n.1 {
                assert(n.1@->Table_0 =~= crate::wrangler::document::toml_entries(m@));
                if let Some(f) = find_fault(&record, m) {
                    return Err(f);
                }
            }
            let a = match text_under(n, record.first) {
                Ok(a) => a,
                Err(e) => {
                    return Err(e);
                },
            };
            match text_under(n, record.second) {
                Ok(b) => Ok((a, b)),
                Err(e) => Err(e),
            }
        },
        _ => Err(unexpected_fault(n, record.name)),
    }
}

/// The text, and the empty text where there is none.
pub open spec fn text_or_empty(t: Option<Seq<char>>) -> Seq<char> {
    match t {
        Some(s) => s,
        None => Seq::empty(),
    }
}

/// The text, and the empty text where there is none.
fn or_empty(t: Option<String>) -> (r: String)
    ensures
        r@ == text_or_empty(crate::tf::document::opt_view(t)),
{
    match t {
        Some(s) => s,
        None => {
            let s = String::new();
            assert(s@ =~= Seq::empty());
            s
        },
    }
}

// ---------------------------------------------------------------------------
// Lists
// ---------------------------------------------------------------------------

/// A value that can be read from a document.
pub trait FromToml: Sized + View {
    /// What is read from a value, or why it cannot be read.
    spec fn read(n: NodeView) -> Result<Self::V, FaultView>;

    /// What is read from a value, or why it cannot be read.
    fn from_toml(n: &Node) -> (r: Result<Self, Fault>)
        ensures
            read_outcome(r) == Self::read(crate::wrangler::document::node_view(*n)),
    ;
}

/// What is read from each of the items, or why the first that cannot be read
/// cannot.
pub open spec fn read_items<T: FromToml>(s: Seq<NodeView>) -> Result<Seq<T::V>, FaultView>
    decreases s.len(),
{
    if s.len() == 0 {
        Ok(Seq::empty())
    } else {
        match read_items::<T>(s.drop_last()) {
            Ok(rest) => match T::read(s.last()) {
                Ok(x) => Ok(rest.push(x)),
                Err(e) => Err(e),
            },
            Err(e) => Err(e),
        }
    }
}

/// What is read from a list, or why it cannot be read.
pub open spec fn read_list<T: FromToml>(n: NodeView) -> Result<Seq<T::V>, FaultView> {
    match n.1 {
        TomlView::List(s) => read_items::<T>(s),
        _ => Err(unexpected(n, "a sequence"@)),
    }
}

/// The model of a list, or of why it cannot be read.
pub open spec fn list_outcome<T: View>(r: Result<Vec<T>, Fault>) -> Result<Seq<T::V>, FaultView> {
    match r {
        Ok(v) => Ok(views(v@)),
        Err(e) => Err(e@),
    }
}

/// Where one of the first items cannot be read, that is why not all can.
proof fn lemma_unread<T: FromToml>(s: Seq<NodeView>, n: int)
    requires
        0 <= n <= s.len(),
        read_items::<T>(s.subrange(0, n)) is Err,
    ensures
        read_items::<T>(s) == read_items::<T>(s.subrange(0, n)),
    decreases s.len() - n,
{
    if n == s.len() {
        assert(s.subrange(0, n) =~= s);
    } else {
        assert(s.subrange(0, n + 1).drop_last() =~= s.subrange(0, n));
        lemma_unread::<T>(s, n + 1);
    }
}

/// What is read from a list, or why it cannot be read.
fn list_from<T: FromToml>(n: &Node) -> (r: Result<Vec<T>, Fault>)
    ensures
        list_outcome(r) == read_list::<T>(crate::wrangler::document::node_view(*n)),
{
    match &n.1 {
        Toml::List(s) => {
            let mut out: Vec<T> = Vec::new();
            let ghost all = n.1@->List_0;
            assert(all =~= crate::wrangler::document::toml_views(s@));
            assert(views(out@) =~= Seq::empty());
            assert(all.subrange(0, 0) =~= Seq::empty());
            for i in 0..s.len()
                invariant
                    n.1@ == TomlView::List(all),
                    all == crate::wrangler::document::toml_views(s@),
                    read_items::<T>(all.subrange(0, i as int)) == Ok::<Seq<T::V>, FaultView>(
                        views(out@),
                    ),
            {
                let ghost now = all.subrange(0, i + 1);
                let ghost before = out@;
                proof {
                    assert(now.drop_last() =~= all.subrange(0, i as int));
                    assert(now.last() == crate::wrangler::document::node_view(s@[i as int]));
                }
                match T::from_toml(&s[i]) {
                    Ok(x) => {
                        out.push(x);
                        assert(views(out@) =~= views(before).push(x@));
                    },
                    Err(e) => {
                        proof {
                            lemma_unread::<T>(all, i + 1);
                        }
                        return Err(e);
                    },
                }
            }
            assert(all.subrange(0, all.len() as int) =~= all);
            Ok(out)
        },
        _ => Err(unexpected_fault(n, "a sequence")),
    }
}

/// The fault of what cannot be read.
pub open spec fn fault_of<T>(r: Result<T, FaultView>) -> Option<FaultView> {
    match r {
        Ok(_) => None,
        Err(e) => Some(e),
    }
}

/// Why a list cannot be read, where it cannot.
fn list_fault<T: FromToml>(n: &Node) -> (r: Option<Fault>)
    ensures
        fault_view(r) == fault_of(read_list::<T>(crate::wrangler::document::node_view(*n))),
{
    match list_from::<T>(n) {
        Ok(_) => None,
        Err(e) => Some(e),
    }
}

/// What is read from a list that may be left out, or why it cannot be read.
pub open spec fn read_lists<T: FromToml>(n: Option<NodeView>) -> Result<Seq<T::V>, FaultView> {
    match n {
        Some(x) => read_list::<T>(x),
        None => Ok(Seq::empty()),
    }
}

/// What is read from a list that may be left out, or why it cannot be read.
fn lists_from<T: FromToml>(n: Option<&Node>) -> (r: Result<Vec<T>, Fault>)
    ensures
        list_outcome(r) == read_lists::<T>(
            match n {
                Some(x) => Some(crate::wrangler::document::node_view(*x)),
                None => None,
            },
        ),
{
    match n {
        Some(x) => list_from::<T>(x),
        None => {
            let out: Vec<T> = Vec::new();
            assert(views(out@) =~= Seq::empty());
            Ok(out)
        },
    }
}

/// The item at a position, where there is one.
pub open spec fn item_at(s: Seq<NodeView>, at: int) -> Option<NodeView> {
    if 0 <= at < s.len() {
        Some(s[at])
    } else {
        None
    }
}

/// The item at a position, where there is one.
fn item(s: &Vec<Node>, at: usize) -> (r: Option<&Node>)
    ensures
        match r {
            Some(n) => item_at(crate::wrangler::document::toml_views(s@), at as int) == Some(
                crate::wrangler::document::node_view(*n),
            ),
            None => item_at(crate::wrangler::document::toml_views(s@), at as int) is None,
        },
{
    if at < s.len() {
        Some(&s[at])
    } else {
        None
    }
}

// ---------------------------------------------------------------------------
// Records
// ---------------------------------------------------------------------------

/// The fields of a key-value namespace.
pub open spec fn spec_kv_record() -> Record {
    Record {
        name: "struct RawKvNamespace",
        listed: "struct RawKvNamespace with 2 elements",
        first: ("binding", Need::Required),
        second: ("id", Need::Default),
    }
}

/// The fields of a key-value namespace.
fn kv_record() -> (r: Record)
    ensures
        r == spec_kv_record(),
{
    Record {
        name: "struct RawKvNamespace",
        listed: "struct RawKvNamespace with 2 elements",
        first: ("binding", Need::Required),
        second: ("id", Need::Default),
    }
}

impl FromToml for RawKvNamespace {
    open spec fn read(n: NodeView) -> Result<KvView, FaultView> {
        match read_record(n, spec_kv_record()) {
            Ok(t) => Ok(KvView { binding: text_or_empty(t.0), id: text_or_empty(t.1) }),
            Err(e) => Err(e),
        }
    }

    fn from_toml(n: &Node) -> (r: Result<Self, Fault>) {
        match record_from(n, kv_record()) {
            Ok((first, second)) => Ok(RawKvNamespace { binding: or_empty(first), id: or_empty(second) }),
            Err(e) => Err(e),
        }
    }
}

/// The fields of a bucket.
pub open spec fn spec_r2_record() -> Record {
    Record {
        name: "struct RawR2Bucket",
        listed: "struct RawR2Bucket with 2 elements",
        first: ("binding", Need::Required),
        second: ("bucket_name", Need::Optional),
    }
}

/// The fields of a bucket.
fn r2_record() -> (r: Record)
    ensures
        r == spec_r2_record(),
{
    Record {
        name: "struct RawR2Bucket",
        listed: "struct RawR2Bucket with 2 elements",
        first: ("binding", Need::Required),
        second: ("bucket_name", Need::Optional),
    }
}

impl FromToml for RawR2Bucket {
    open spec fn read(n: NodeView) -> Result<R2View, FaultView> {
        match read_record(n, spec_r2_record()) {
            Ok(t) => Ok(R2View { binding: text_or_empty(t.0), bucket_name: t.1 }),
            Err(e) => Err(e),
        }
    }

    fn from_toml(n: &Node) -> (r: Result<Self, Fault>) {
        match record_from(n, r2_record()) {
            Ok((first, second)) => Ok(RawR2Bucket { binding: or_empty(first), bucket_name: second }),
            Err(e) => Err(e),
        }
    }
}

/// The fields of a database.
pub open spec fn spec_d1_record() -> Record {
    Record {
        name: "struct RawD1Database",
        listed: "struct RawD1Database with 2 elements",
        first: ("binding", Need::Required),
        second: ("database_id", Need::Optional),
    }
}

/// The fields of a database.
fn d1_record() -> (r: Record)
    ensures
        r == spec_d1_record(),
{
    Record {
        name: "struct RawD1Database",
        listed: "struct RawD1Database with 2 elements",
        first: ("binding", Need::Required),
        second: ("database_id", Need::Optional),
    }
}

impl FromToml for RawD1Database {
    open spec fn read(n: NodeView) -> Result<D1View, FaultView> {
        match read_record(n, spec_d1_record()) {
            Ok(t) => Ok(D1View { binding: text_or_empty(t.0), database_id: t.1 }),
            Err(e) => Err(e),
        }
    }

    fn from_toml(n: &Node) -> (r: Result<Self, Fault>) {
        match record_from(n, d1_record()) {
            Ok((first, second)) => Ok(RawD1Database { binding: or_empty(first), database_id: second }),
            Err(e) => Err(e),
        }
    }
}

/// The fields of a queue that is written to.
pub open spec fn spec_producer_record() -> Record {
    Record {
        name: "struct RawQueueProducer",
        listed: "struct RawQueueProducer with 2 elements",
        first: ("binding", Need::Required),
        second: ("queue", Need::Required),
    }
}

/// The fields of a queue that is written to.
fn producer_record() -> (r: Record)
    ensures
        r == spec_producer_record(),
{
    Record {
        name: "struct RawQueueProducer",
        listed: "struct RawQueueProducer with 2 elements",
        first: ("binding", Need::Required),
        second: ("queue", Need::Required),
    }
}

impl FromToml for RawQueueProducer {
    open spec fn read(n: NodeView) -> Result<ProducerView, FaultView> {
        match read_record(n, spec_producer_record()) {
            Ok(t) => Ok(ProducerView { binding: text_or_empty(t.0), queue: text_or_empty(t.1) }),
            Err(e) => Err(e),
        }
    }

    fn from_toml(n: &Node) -> (r: Result<Self, Fault>) {
        match record_from(n, producer_record()) {
            Ok((first, second)) => Ok(RawQueueProducer { binding: or_empty(first), queue: or_empty(second) }),
            Err(e) => Err(e),
        }
    }
}

/// The fields of a durable object.
pub open spec fn spec_binding_record() -> Record {
    Record {
        name: "struct RawDoBinding",
        listed: "struct RawDoBinding with 2 elements",
        first: ("name", Need::Required),
        second: ("class_name", Need::Required),
    }
}

/// The fields of a durable object.
fn binding_record() -> (r: Record)
    ensures
        r == spec_binding_record(),
{
    Record {
        name: "struct RawDoBinding",
        listed: "struct RawDoBinding with 2 elements",
        first: ("name", Need::Required),
        second: ("class_name", Need::Required),
    }
}

impl FromToml for RawDoBinding {
    open spec fn read(n: NodeView) -> Result<DoView, FaultView> {
        match read_record(n, spec_binding_record()) {
            Ok(t) => Ok(DoView { name: text_or_empty(t.0), class_name: text_or_empty(t.1) }),
            Err(e) => Err(e),
        }
    }

    fn from_toml(n: &Node) -> (r: Result<Self, Fault>) {
        match record_from(n, binding_record()) {
            Ok((first, second)) => Ok(RawDoBinding { name: or_empty(first), class_name: or_empty(second) }),
            Err(e) => Err(e),
        }
    }
}

/// The field of a queue that is read from.
pub struct ConsumerFields;

impl Entries for ConsumerFields {
    open spec fn fault(&self, key: Seq<char>, n: NodeView) -> Option<FaultView> {
        if key == "queue"@ {
            fault_of(read_text(n))
        } else {
            ignored_fault(n)
        }
    }

    fn find(&self, key: &str, n: &Node) -> (r: Option<Fault>) {
        if text_eq(key, "queue") {
            match text_from(n) {
                Ok(_) => None,
                Err(e) => Some(e),
            }
        } else {
            find_ignored(n)
        }
    }
}

impl FromToml for RawQueueConsumer {
    open spec fn read(n: NodeView) -> Result<Seq<char>, FaultView> {
        match n.1 {
            TomlView::List(s) => match item_at(s, 0) {
                Some(x) => read_text(x),
                None => Err(
                    FaultView {
                        place: n.0,
                        message: crate::decode::wrong_length(
                            0,
                            "struct RawQueueConsumer with 1 element"@,
                        ),
                    },
                ),
            },
            TomlView::Table(_) | TomlView::Datetime => match entries_fault(
                ConsumerFields,
                named_entries(n.1),
            ) {
                Some(f) => Err(f),
                None => match crate::strmap::lookup(named_entries(n.1), "queue"@) {
                    Some(x) => read_text(x),
                    None => Err(
                        FaultView { place: n.0, message: crate::decode::missing_field("queue"@) },
                    ),
                },
            },
            _ => Err(unexpected(n, "struct RawQueueConsumer"@)),
        }
    }

    fn from_toml(n: &Node) -> (r: Result<Self, Fault>) {
        match &n.1 {
            Toml::List(s) => {
                assert(n.1@->List_0 =~= crate::wrangler::document::toml_views(s@));
                match item(s, 0) {
                    Some(x) => match text_from(x) {
                        Ok(queue) => Ok(RawQueueConsumer { queue }),
                        Err(e) => Err(e),
                    },
                    None => Err(
                        Fault {
                            place: n.0,
                            message: wrong_length_message(
                                0,
                                "struct RawQueueConsumer with 1 element",
                            ),
                        },
                    ),
                }
            },
            Toml::Table(m) => {
                assert(n.1@->Table_0 =~= crate::wrangler::document::toml_entries(m@));
                if let Some(f) = find_fault(&ConsumerFields, m) {
                    return Err(f);
                }
                match entry(m, "queue") {
                    Some(x) => match text_from(x) {
                        Ok(queue) => Ok(RawQueueConsumer { queue }),
                        Err(e) => Err(e),
                    },
                    None => Err(Fault { place: n.0, message: missing_field_message("queue") }),
                }
            },
            Toml::Datetime => Err(Fault { place: n.0, message: missing_field_message("queue") }),
            _ => Err(unexpected_fault(n, "struct RawQueueConsumer")),
        }
    }
}

/// The fields of the queues of a worker.
pub struct QueueFields;

impl Entries for QueueFields {
    open spec fn fault(&self, key: Seq<char>, n: NodeView) -> Option<FaultView> {
        if key == "producers"@ {
            fault_of(read_list::<RawQueueProducer>(n))
        } else if key == "consumers"@ {
            fault_of(read_list::<RawQueueConsumer>(n))
        } else {
            ignored_fault(n)
        }
    }

    fn find(&self, key: &str, n: &Node) -> (r: Option<Fault>) {
        if text_eq(key, "producers") {
            list_fault::<RawQueueProducer>(n)
        } else if text_eq(key, "consumers") {
            list_fault::<RawQueueConsumer>(n)
        } else {
            find_ignored(n)
        }
    }
}

/// The queues that two lists give, either of which may be left out.
pub open spec fn queues_of(producers: Option<NodeView>, consumers: Option<NodeView>) -> Result<
    QueuesView,
    FaultView,
> {
    match read_lists::<RawQueueProducer>(producers) {
        Ok(producers) => match read_lists::<RawQueueConsumer>(consumers) {
            Ok(consumers) => Ok(QueuesView { producers, consumers }),
            Err(e) => Err(e),
        },
        Err(e) => Err(e),
    }
}

impl FromToml for RawQueues {
    open spec fn read(n: NodeView) -> Result<QueuesView, FaultView> {
        match n.1 {
            TomlView::List(s) => queues_of(item_at(s, 0), item_at(s, 1)),
            TomlView::Table(_) | TomlView::Datetime => match entries_fault(
                QueueFields,
                named_entries(n.1),
            ) {
                Some(f) => Err(f),
                None => queues_of(
                    crate::strmap::lookup(named_entries(n.1), "producers"@),
                    crate::strmap::lookup(named_entries(n.1), "consumers"@),
                ),
            },
            _ => Err(unexpected(n, "struct RawQueues"@)),
        }
    }

    fn from_toml(n: &Node) -> (r: Result<Self, Fault>) {
        let (producers, consumers) = match &n.1 {
            Toml::List(s) => {
                assert(n.1@->List_0 =~= crate::wrangler::document::toml_views(s@));
                (item(s, 0), item(s, 1))
            },
            Toml::Table(m) => {
                assert(n.1@->Table_0 =~= crate::wrangler::document::toml_entries(m@));
                if let Some(f) = find_fault(&QueueFields, m) {
                    return Err(f);
                }
                (entry(m, "producers"), entry(m, "consumers"))
            },
            Toml::Datetime => (None, None),
            _ => {
                return Err(unexpected_fault(n, "struct RawQueues"));
            },
        };
        let producers = match lists_from::<RawQueueProducer>(producers) {
            Ok(v) => v,
            Err(e) => {
                return Err(e);
            },
        };
        match lists_from::<RawQueueConsumer>(consumers) {
            Ok(consumers) => Ok(RawQueues { producers, consumers }),
            Err(e) => Err(e),
        }
    }
}

/// The field of the durable objects of a worker.
pub struct ObjectFields;

impl Entries for ObjectFields {
    open spec fn fault(&self, key: Seq<char>, n: NodeView) -> Option<FaultView> {
        if key == "bindings"@ {
            fault_of(read_list::<RawDoBinding>(n))
        } else {
            ignored_fault(n)
        }
    }

    fn find(&self, key: &str, n: &Node) -> (r: Option<Fault>) {
        if text_eq(key, "bindings") {
            list_fault::<RawDoBinding>(n)
        } else {
            find_ignored(n)
        }
    }
}

impl FromToml for RawDurableObjects {
    open spec fn read(n: NodeView) -> Result<Seq<DoView>, FaultView> {
        match n.1 {
            TomlView::List(s) => read_lists::<RawDoBinding>(item_at(s, 0)),
            TomlView::Table(_) | TomlView::Datetime => match entries_fault(
                ObjectFields,
                named_entries(n.1),
            ) {
                Some(f) => Err(f),
                None => read_lists::<RawDoBinding>(
                    crate::strmap::lookup(named_entries(n.1), "bindings"@),
                ),
            },
            _ => Err(unexpected(n, "struct RawDurableObjects"@)),
        }
    }

    fn from_toml(n: &Node) -> (r: Result<Self, Fault>) {
        let bindings = match &n.1 {
            Toml::List(s) => {
                assert(n.1@->List_0 =~= crate::wrangler::document::toml_views(s@));
                item(s, 0)
            },
            Toml::Table(m) => {
                assert(n.1@->Table_0 =~= crate::wrangler::document::toml_entries(m@));
                if let Some(f) = find_fault(&ObjectFields, m) {
                    return Err(f);
                }
                entry(m, "bindings")
            },
            Toml::Datetime => None,
            _ => {
                return Err(unexpected_fault(n, "struct RawDurableObjects"));
            },
        };
        match lists_from::<RawDoBinding>(bindings) {
            Ok(bindings) => Ok(RawDurableObjects { bindings }),
            Err(e) => Err(e),
        }
    }
}

// ---------------------------------------------------------------------------
// Configurations
// ---------------------------------------------------------------------------

/// The fields of a configuration.
pub struct WranglerFields;

impl Entries for WranglerFields {
    open spec fn fault(&self, key: Seq<char>, n: NodeView) -> Option<FaultView> {
        if key == "name"@ || key == "usage_model"@ {
            fault_of(read_text(n))
        } else if key == "kv_namespaces"@ {
            fault_of(read_list::<RawKvNamespace>(n))
        } else if key == "r2_buckets"@ {
            fault_of(read_list::<RawR2Bucket>(n))
        } else if key == "d1_databases"@ {
            fault_of(read_list::<RawD1Database>(n))
        } else if key == "queues"@ {
            fault_of(RawQueues::read(n))
        } else if key == "durable_objects"@ {
            fault_of(RawDurableObjects::read(n))
        } else {
            ignored_fault(n)
        }
    }

    fn find(&self, key: &str, n: &Node) -> (r: Option<Fault>) {
        if text_eq(key, "name") || text_eq(key, "usage_model") {
            match text_from(n) {
                Ok(_) => None,
                Err(e) => Some(e),
            }
        } else if text_eq(key, "kv_namespaces") {
            list_fault::<RawKvNamespace>(n)
        } else if text_eq(key, "r2_buckets") {
            list_fault::<RawR2Bucket>(n)
        } else if text_eq(key, "d1_databases") {
            list_fault::<RawD1Database>(n)
        } else if text_eq(key, "queues") {
            match RawQueues::from_toml(n) {
                Ok(_) => None,
                Err(e) => Some(e),
            }
        } else if text_eq(key, "durable_objects") {
            match RawDurableObjects::from_toml(n) {
                Ok(_) => None,
                Err(e) => Some(e),
            }
        } else {
            find_ignored(n)
        }
    }
}

/// The text under a key, where there is one.
pub open spec fn text_in(m: Seq<(Seq<char>, NodeView)>, key: Seq<char>) -> Option<Seq<char>> {
    match crate::strmap::lookup(m, key) {
        Some((_, TomlView::Text(t))) => Some(t),
        _ => None,
    }
}

/// The list under a key, and the empty list where there is none.
pub open spec fn list_in<T: FromToml>(m: Seq<(Seq<char>, NodeView)>, key: Seq<char>) -> Seq<T::V> {
    match read_lists::<T>(crate::strmap::lookup(m, key)) {
        Ok(v) => v,
        Err(_) => Seq::empty(),
    }
}

/// What stands under a key, where there is anything.
pub open spec fn value_in<T: FromToml>(m: Seq<(Seq<char>, NodeView)>, key: Seq<char>) -> Option<T::V> {
    match crate::strmap::lookup(m, key) {
        Some(n) => match T::read(n) {
            Ok(v) => Some(v),
            Err(_) => None,
        },
        None => None,
    }
}

/// The text under a key, where there is one.
fn text_of_entry(m: &Vec<(String, Node)>, key: &str) -> (r: Option<String>)
    ensures
        crate::tf::document::opt_view(r) == text_in(
            crate::wrangler::document::toml_entries(m@),
            key@,
        ),
{
    match entry(m, key) {
        Some(n) => match &n.1 {
            Toml::Text(t) => Some(t.clone()),
            _ => None,
        },
        None => None,
    }
}

/// The list under a key, and the empty list where there is none.
fn list_of_entry<T: FromToml>(m: &Vec<(String, Node)>, key: &str) -> (r: Vec<T>)
    ensures
        views(r@) == list_in::<T>(crate::wrangler::document::toml_entries(m@), key@),
{
    match lists_from::<T>(entry(m, key)) {
        Ok(v) => v,
        Err(_) => {
            let out: Vec<T> = Vec::new();
            assert(views(out@) =~= Seq::empty());
            out
        },
    }
}

/// What stands under a key, where there is anything.
fn value_of_entry<T: FromToml>(m: &Vec<(String, Node)>, key: &str) -> (r: Option<T>)
    ensures
        match r {
            Some(x) => value_in::<T>(crate::wrangler::document::toml_entries(m@), key@) == Some(
                x@,
            ),
            None => value_in::<T>(crate::wrangler::document::toml_entries(m@), key@) is None,
        },
{
    match entry(m, key) {
        Some(n) => match T::from_toml(n) {
            Ok(x) => Some(x),
            Err(_) => None,
        },
        None => None,
    }
}

impl FromToml for RawWrangler {
    open spec fn read(n: NodeView) -> Result<RawWranglerView, FaultView> {
        match n.1 {
            TomlView::Table(m) => match entries_fault(WranglerFields, m) {
                Some(f) => Err(f),
                None => Ok(
                    RawWranglerView {
                        name: text_in(m, "name"@),
                        usage_model: text_in(m, "usage_model"@),
                        kv_namespaces: list_in::<RawKvNamespace>(m, "kv_namespaces"@),
                        r2_buckets: list_in::<RawR2Bucket>(m, "r2_buckets"@),
                        d1_databases: list_in::<RawD1Database>(m, "d1_databases"@),
                        queues: value_in::<RawQueues>(m, "queues"@),
                        durable_objects: value_in::<RawDurableObjects>(m, "durable_objects"@),
                    },
                ),
            },
            _ => Err(unexpected(n, "struct RawWrangler"@)),
        }
    }

    fn from_toml(n: &Node) -> (r: Result<Self, Fault>) {
        match &n.1 {
            Toml::Table(m) => {
                assert(n.1@->Table_0 =~= crate::wrangler::document::toml_entries(m@));
                if let Some(f) = find_fault(&WranglerFields, m) {
                    return Err(f);
                }
                Ok(
                    RawWrangler {
                        name: text_of_entry(m, "name"),
                        usage_model: text_of_entry(m, "usage_model"),
                        kv_namespaces: list_of_entry::<RawKvNamespace>(m, "kv_namespaces"),
                        r2_buckets: list_of_entry::<RawR2Bucket>(m, "r2_buckets"),
                        d1_databases: list_of_entry::<RawD1Database>(m, "d1_databases"),
                        queues: value_of_entry::<RawQueues>(m, "queues"),
                        durable_objects: value_of_entry::<RawDurableObjects>(
                            m,
                            "durable_objects",
                        ),
                    },
                )
            },
            _ => Err(unexpected_fault(n, "struct RawWrangler")),
        }
    }
}

impl Default for RawWrangler {
    /// A configuration that says nothing.
    fn default() -> (r: Self)
        ensures
            r@ == (RawWranglerView {
                name: None,
                usage_model: None,
                kv_namespaces: Seq::empty(),
                r2_buckets: Seq::empty(),
                d1_databases: Seq::empty(),
                queues: None,
                durable_objects: None,
            }),
    {
        let r = RawWrangler {
            name: None,
            usage_model: None,
            kv_namespaces: Vec::new(),
            r2_buckets: Vec::new(),
            d1_databases: Vec::new(),
            queues: None,
            durable_objects: None,
        };
        assert(r@.kv_namespaces =~= Seq::empty());
        assert(r@.r2_buckets =~= Seq::empty());
        assert(r@.d1_databases =~= Seq::empty());
        r
    }
}

} // verus!
