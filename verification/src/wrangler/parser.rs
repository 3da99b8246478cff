//! Wrangler configurations as architectures.

use vstd::prelude::*;

use crate::arch::simple_connection;
use crate::arch::Architecture;
use crate::arch::ArchitectureView;
use crate::arch::Connection;
use crate::arch::ConnectionType;
use crate::arch::ConnectionView;
use crate::arch::LogicalId;
use crate::arch::NodeView;
use crate::arch::Provider;
use crate::arch::Region;
use crate::arch::Resource;
use crate::arch::ResourceShell;
use crate::arch::ResourceType;
use crate::arch::ShellView;
use crate::json::Json;
use crate::json::JsonView;
use crate::path::extension_is;
use crate::path::file_name;
use crate::path::parent;
use crate::text::is_among;
use crate::text::chars_of;
use crate::text::text_eq;
use crate::text::to_lowercase;
use crate::wrangler::config::D1View;
use crate::wrangler::config::DoView;
use crate::wrangler::config::FromToml;
use crate::wrangler::config::KvView;
use crate::wrangler::config::ProducerView;
use crate::wrangler::config::QueuesView;
use crate::wrangler::config::R2View;
use crate::wrangler::config::RawWrangler;
use crate::wrangler::config::RawWranglerView;
use crate::wrangler::document::parse_toml;
use crate::wrangler::document::report_of;
use crate::wrangler::document::Node;
use crate::wrangler::error::WranglerError;
use crate::wrangler::error::WranglerErrorView;
use crate::wrangler::services::empty_object;
use crate::wrangler::services::CloudflareUsageModel;
use crate::wrangler::services::CloudflareWorkerSpec;

verus! {

// ---------------------------------------------------------------------------
// Models
// ---------------------------------------------------------------------------

/// The text with an underscore in place of each hyphen.
pub open spec fn underscored(s: Seq<char>) -> Seq<char> {
    s.map_values(
        |c: char|
            if c == '-' {
                '_'
            } else {
                c
            },
    )
}

/// The identifier of a resource that a worker uses.
pub open spec fn part_id(worker: Seq<char>, kind: Seq<char>, name: Seq<char>) -> Seq<char> {
    worker + kind + name
}

/// The identifier of a key-value namespace.
pub open spec fn kv_id(worker: Seq<char>, kv: KvView) -> Seq<char> {
    part_id(worker, "_kv_"@, crate::text::lowercase(kv.binding))
}

/// The name of a bucket: its own, or that of its binding.
pub open spec fn bucket_of(r2: R2View) -> Seq<char> {
    match r2.bucket_name {
        Some(b) => b,
        None => r2.binding,
    }
}

/// The identifier of a bucket.
pub open spec fn r2_id(worker: Seq<char>, r2: R2View) -> Seq<char> {
    part_id(worker, "_r2_"@, crate::text::lowercase(bucket_of(r2)))
}

/// The identifier of a database.
pub open spec fn d1_id(worker: Seq<char>, d1: D1View) -> Seq<char> {
    part_id(worker, "_d1_"@, crate::text::lowercase(d1.binding))
}

/// The identifier of a queue.
pub open spec fn queue_id(worker: Seq<char>, queue: Seq<char>) -> Seq<char> {
    part_id(worker, "_queue_"@, underscored(crate::text::lowercase(queue)))
}

/// The identifier of a class of durable objects.
pub open spec fn do_id(worker: Seq<char>, class: Seq<char>) -> Seq<char> {
    part_id(worker, "_do_"@, crate::text::lowercase(class))
}

/// A resource of Cloudflare.
pub open spec fn cloudflare_node(
    id: Seq<char>,
    resource_type: Seq<char>,
    service_id: Seq<char>,
    spec: JsonView,
) -> NodeView {
    NodeView {
        logical_id: id,
        resource_type,
        shell: ShellView { service_id, provider: Provider::Cloudflare, spec },
        group: None,
    }
}

/// The texts, each where it occurs first.
pub open spec fn distinct(s: Seq<Seq<char>>) -> Seq<Seq<char>>
    decreases s.len(),
{
    if s.len() == 0 {
        Seq::empty()
    } else {
        let rest = distinct(s.drop_last());
        if rest.contains(s.last()) {
            rest
        } else {
            rest.push(s.last())
        }
    }
}

/// The queues that a worker writes to, one after the other.
pub open spec fn produced(raw: RawWranglerView) -> Seq<Seq<char>> {
    match raw.queues {
        Some(q) => q.producers.map_values(|p: ProducerView| p.queue),
        None => Seq::empty(),
    }
}

/// The queues that a worker reads from, one after the other.
pub open spec fn consumed(raw: RawWranglerView) -> Seq<Seq<char>> {
    match raw.queues {
        Some(q) => q.consumers,
        None => Seq::empty(),
    }
}

/// The queues that a worker uses, each once.
pub open spec fn queue_names(raw: RawWranglerView) -> Seq<Seq<char>> {
    distinct(produced(raw) + consumed(raw))
}

/// The classes of durable objects that a worker uses, each once.
pub open spec fn class_names(raw: RawWranglerView) -> Seq<Seq<char>> {
    match raw.durable_objects {
        Some(d) => distinct(d.map_values(|b: DoView| b.class_name)),
        None => Seq::empty(),
    }
}

/// The name of the worker: its own, or the default.
pub open spec fn worker_name(raw: RawWranglerView, default_name: Seq<char>) -> Seq<char> {
    match raw.name {
        Some(n) => n,
        None => default_name,
    }
}

/// How the requests of the worker are charged.
pub open spec fn usage_model(raw: RawWranglerView) -> CloudflareUsageModel {
    if raw.usage_model == Some("bundled"@) {
        CloudflareUsageModel::Bundled
    } else {
        CloudflareUsageModel::Standard
    }
}

/// The worker.
pub open spec fn worker_node(raw: RawWranglerView, worker: Seq<char>) -> NodeView {
    cloudflare_node(
        worker,
        "cloudflare_worker"@,
        "cloudflare.worker"@,
        crate::wrangler::services::worker_json(
            CloudflareWorkerSpec { usage_model: usage_model(raw) },
        ),
    )
}

/// A resource of which nothing but its identifier is described.
pub open spec fn plain_node(
    id: Seq<char>,
    resource_type: Seq<char>,
    service_id: Seq<char>,
) -> NodeView {
    cloudflare_node(id, resource_type, service_id, crate::wrangler::services::empty_json())
}

/// The identifiers of the key-value namespaces.
pub open spec fn kv_ids(raw: RawWranglerView, worker: Seq<char>) -> Seq<Seq<char>> {
    raw.kv_namespaces.map_values(|kv: KvView| kv_id(worker, kv))
}

/// The identifiers of the buckets.
pub open spec fn r2_ids(raw: RawWranglerView, worker: Seq<char>) -> Seq<Seq<char>> {
    raw.r2_buckets.map_values(|r2: R2View| r2_id(worker, r2))
}

/// The identifiers of the databases.
pub open spec fn d1_ids(raw: RawWranglerView, worker: Seq<char>) -> Seq<Seq<char>> {
    raw.d1_databases.map_values(|d1: D1View| d1_id(worker, d1))
}

/// The identifiers of queues.
pub open spec fn queue_ids(names: Seq<Seq<char>>, worker: Seq<char>) -> Seq<Seq<char>> {
    names.map_values(|q: Seq<char>| queue_id(worker, q))
}

/// The identifiers of classes of durable objects.
pub open spec fn do_ids(names: Seq<Seq<char>>, worker: Seq<char>) -> Seq<Seq<char>> {
    names.map_values(|c: Seq<char>| do_id(worker, c))
}

/// A resource under each of the identifiers.
pub open spec fn nodes_under(
    ids: Seq<Seq<char>>,
    resource_type: Seq<char>,
    service_id: Seq<char>,
) -> Seq<NodeView> {
    ids.map_values(|id: Seq<char>| plain_node(id, resource_type, service_id))
}

/// The worker and the resources that it uses. Queues and classes of durable
/// objects occur once, however often they are bound.
pub open spec fn wrangler_nodes(raw: RawWranglerView, worker: Seq<char>) -> Seq<NodeView> {
    seq![worker_node(raw, worker)] + nodes_under(
        kv_ids(raw, worker),
        "cloudflare_workers_kv_namespace"@,
        "cloudflare.kv"@,
    ) + nodes_under(r2_ids(raw, worker), "cloudflare_r2_bucket"@, "cloudflare.r2"@) + nodes_under(
        d1_ids(raw, worker),
        "cloudflare_d1_database"@,
        "cloudflare.d1"@,
    ) + nodes_under(
        queue_ids(queue_names(raw), worker),
        "cloudflare_queue"@,
        "cloudflare.queue"@,
    ) + nodes_under(
        do_ids(class_names(raw), worker),
        "cloudflare_durable_object"@,
        "cloudflare.durable_object"@,
    )
}

/// A flow of data from the worker to each of the resources.
pub open spec fn flows_to(worker: Seq<char>, ids: Seq<Seq<char>>) -> Seq<ConnectionView> {
    ids.map_values(
        |id: Seq<char>| crate::arch::plain_connection(worker, id, ConnectionType::DataFlow),
    )
}

/// Each of the resources is a source of events for the worker.
pub open spec fn events_from(worker: Seq<char>, ids: Seq<Seq<char>>) -> Seq<ConnectionView> {
    ids.map_values(
        |id: Seq<char>| crate::arch::plain_connection(id, worker, ConnectionType::EventSource),
    )
}

/// Data flows from the worker to what is bound to it, and the queues that it
/// reads from are sources of events for it.
pub open spec fn wrangler_connections(raw: RawWranglerView, worker: Seq<char>) -> Seq<
    ConnectionView,
> {
    flows_to(worker, kv_ids(raw, worker)) + flows_to(worker, r2_ids(raw, worker)) + flows_to(
        worker,
        d1_ids(raw, worker),
    ) + flows_to(worker, queue_ids(produced(raw), worker)) + events_from(
        worker,
        queue_ids(consumed(raw), worker),
    ) + flows_to(worker, do_ids(class_names(raw), worker))
}

/// The architecture that a configuration describes.
pub open spec fn wrangler_architecture(raw: RawWranglerView, default_name: Seq<char>) ->
    ArchitectureView {
    let worker = worker_name(raw, default_name);
    ArchitectureView {
        name: worker,
        region: "global"@,
        resources: wrangler_nodes(raw, worker),
        connections: wrangler_connections(raw, worker),
    }
}

// ---------------------------------------------------------------------------
// Building
// ---------------------------------------------------------------------------

/// The text with an underscore in place of each hyphen.
fn underscore(s: &str) -> (r: String)
    ensures
        r@ == underscored(s@),
{
    let chars = chars_of(s);
    let mut out = String::new();
    for i in 0..chars.len()
        invariant
            chars@ == s@,
            out@ == underscored(s@.subrange(0, i as int)),
    {
        if chars[i] == '-' {
            out.push('_');
        } else {
            out.push(chars[i]);
        }
        assert(out@ =~= underscored(s@.subrange(0, i + 1)));
    }
    assert(s@.subrange(0, s@.len() as int) =~= s@);
    out
}

/// The identifier of a resource that a worker uses.
fn part_text(worker: &str, kind: &str, name: &str) -> (r: String)
    ensures
        r@ == part_id(worker@, kind@, name@),
{
    let mut s = worker.to_owned();
    s.append(kind);
    s.append(name);
    s
}

/// Adds a text to distinct ones, where it is not among them.
fn add_distinct(v: &mut Vec<String>, s: &str)
    ensures
        crate::text::texts(final(v)@) == if crate::text::texts(old(v)@).contains(s@) {
            crate::text::texts(old(v)@)
        } else {
            crate::text::texts(old(v)@).push(s@)
        },
{
    if !is_among(v, s) {
        let ghost before = v@;
        v.push(s.to_owned());
        assert(crate::text::texts(v@) =~= crate::text::texts(before).push(s@));
    }
}

/// The queues that a worker uses, each once.
fn list_queues(raw: &RawWrangler) -> (r: Vec<String>)
    ensures
        crate::text::texts(r@) == queue_names(raw@),
{
    let mut out: Vec<String> = Vec::new();
    assert(crate::text::texts(out@) =~= Seq::empty());
    if let Some(q) = &raw.queues {
        let ghost p = produced(raw@);
        let ghost c = consumed(raw@);
        assert((p + c).subrange(0, 0) =~= Seq::empty());
        for i in 0..q.producers.len()
            invariant
                p == q@.producers.map_values(|p: ProducerView| p.queue),
                crate::text::texts(out@) == distinct((p + c).subrange(0, i as int)),
        {
            proof {
                let now = (p + c).subrange(0, i + 1);
                assert(now.drop_last() =~= (p + c).subrange(0, i as int));
                assert(now.last() == q.producers@[i as int].queue@);
            }
            add_distinct(&mut out, q.producers[i].queue.as_str());
        }
        for i in 0..q.consumers.len()
            invariant
                p.len() == q.producers@.len(),
                c == q@.consumers,
                crate::text::texts(out@) == distinct((p + c).subrange(0, p.len() + i)),
        {
            proof {
                let now = (p + c).subrange(0, p.len() + i + 1);
                assert(now.drop_last() =~= (p + c).subrange(0, p.len() + i));
                assert(now.last() == q.consumers@[i as int].queue@);
            }
            add_distinct(&mut out, q.consumers[i].queue.as_str());
        }
        assert((p + c).subrange(0, (p + c).len() as int) =~= p + c);
    } else {
        assert(produced(raw@) + consumed(raw@) =~= Seq::empty());
    }
    out
}

/// The classes of durable objects that a worker uses, each once.
fn list_classes(raw: &RawWrangler) -> (r: Vec<String>)
    ensures
        crate::text::texts(r@) == class_names(raw@),
{
    let mut out: Vec<String> = Vec::new();
    assert(crate::text::texts(out@) =~= Seq::empty());
    if let Some(d) = &raw.durable_objects {
        let ghost all = d@.map_values(|b: DoView| b.class_name);
        assert(all.subrange(0, 0) =~= Seq::empty());
        for i in 0..d.bindings.len()
            invariant
                all == d@.map_values(|b: DoView| b.class_name),
                crate::text::texts(out@) == distinct(all.subrange(0, i as int)),
        {
            proof {
                let now = all.subrange(0, i + 1);
                assert(now.drop_last() =~= all.subrange(0, i as int));
                assert(now.last() == d.bindings@[i as int].class_name@);
            }
            add_distinct(&mut out, d.bindings[i].class_name.as_str());
        }
        assert(all.subrange(0, all.len() as int) =~= all);
    }
    out
}

/// The identifiers of the key-value namespaces.
fn list_kv_ids(raw: &RawWrangler, worker: &str) -> (r: Vec<String>)
    ensures
        crate::text::texts(r@) == kv_ids(raw@, worker@),
{
    let mut out: Vec<String> = Vec::new();
    for i in 0..raw.kv_namespaces.len()
        invariant
            out@.len() == i,
            forall|j: int| 0 <= j < i ==> (#[trigger] out@[j])@ == kv_ids(raw@, worker@)[j],
    {
        let lower = to_lowercase(raw.kv_namespaces[i].binding.as_str());
        out.push(part_text(worker, "_kv_", lower.as_str()));
    }
    assert(crate::text::texts(out@) =~= kv_ids(raw@, worker@));
    out
}

/// The identifiers of the buckets.
fn list_r2_ids(raw: &RawWrangler, worker: &str) -> (r: Vec<String>)
    ensures
        crate::text::texts(r@) == r2_ids(raw@, worker@),
{
    let mut out: Vec<String> = Vec::new();
    for i in 0..raw.r2_buckets.len()
        invariant
            out@.len() == i,
            forall|j: int| 0 <= j < i ==> (#[trigger] out@[j])@ == r2_ids(raw@, worker@)[j],
    {
        let bucket = match &raw.r2_buckets[i].bucket_name {
            Some(b) => b.as_str(),
            None => raw.r2_buckets[i].binding.as_str(),
        };
        let lower = to_lowercase(bucket);
        out.push(part_text(worker, "_r2_", lower.as_str()));
    }
    assert(crate::text::texts(out@) =~= r2_ids(raw@, worker@));
    out
}

/// The identifiers of the databases.
fn list_d1_ids(raw: &RawWrangler, worker: &str) -> (r: Vec<String>)
    ensures
        crate::text::texts(r@) == d1_ids(raw@, worker@),
{
    let mut out: Vec<String> = Vec::new();
    for i in 0..raw.d1_databases.len()
        invariant
            out@.len() == i,
            forall|j: int| 0 <= j < i ==> (#[trigger] out@[j])@ == d1_ids(raw@, worker@)[j],
    {
        let lower = to_lowercase(raw.d1_databases[i].binding.as_str());
        out.push(part_text(worker, "_d1_", lower.as_str()));
    }
    assert(crate::text::texts(out@) =~= d1_ids(raw@, worker@));
    out
}

/// The identifier of a queue.
fn queue_text(worker: &str, queue: &str) -> (r: String)
    ensures
        r@ == queue_id(worker@, queue@),
{
    let name = underscore(to_lowercase(queue).as_str());
    part_text(worker, "_queue_", name.as_str())
}

/// The identifiers of queues.
fn list_queue_ids(names: &Vec<String>, worker: &str) -> (r: Vec<String>)
    ensures
        crate::text::texts(r@) == queue_ids(crate::text::texts(names@), worker@),
{
    let mut out: Vec<String> = Vec::new();
    for i in 0..names.len()
        invariant
            out@.len() == i,
            forall|j: int| 0 <= j < i ==> (#[trigger] out@[j])@ == queue_id(worker@, names@[j]@),
    {
        out.push(queue_text(worker, names[i].as_str()));
    }
    assert(crate::text::texts(out@) =~= queue_ids(crate::text::texts(names@), worker@));
    out
}

/// The identifiers of classes of durable objects.
fn list_do_ids(names: &Vec<String>, worker: &str) -> (r: Vec<String>)
    ensures
        crate::text::texts(r@) == do_ids(crate::text::texts(names@), worker@),
{
    let mut out: Vec<String> = Vec::new();
    for i in 0..names.len()
        invariant
            out@.len() == i,
            forall|j: int| 0 <= j < i ==> (#[trigger] out@[j])@ == do_id(worker@, names@[j]@),
    {
        let lower = to_lowercase(names[i].as_str());
        out.push(part_text(worker, "_do_", lower.as_str()));
    }
    assert(crate::text::texts(out@) =~= do_ids(crate::text::texts(names@), worker@));
    out
}

/// The queues that a worker writes to, one after the other.
fn list_produced(raw: &RawWrangler) -> (r: Vec<String>)
    ensures
        crate::text::texts(r@) == produced(raw@),
{
    let mut out: Vec<String> = Vec::new();
    if let Some(q) = &raw.queues {
        for i in 0..q.producers.len()
            invariant
                raw.queues == Some(*q),
                out@.len() == i,
                forall|j: int| 0 <= j < i ==> (#[trigger] out@[j])@ == produced(raw@)[j],
        {
            out.push(q.producers[i].queue.clone());
        }
    }
    assert(crate::text::texts(out@) =~= produced(raw@));
    out
}

/// The queues that a worker reads from, one after the other.
fn list_consumed(raw: &RawWrangler) -> (r: Vec<String>)
    ensures
        crate::text::texts(r@) == consumed(raw@),
{
    let mut out: Vec<String> = Vec::new();
    if let Some(q) = &raw.queues {
        for i in 0..q.consumers.len()
            invariant
                raw.queues == Some(*q),
                out@.len() == i,
                forall|j: int| 0 <= j < i ==> (#[trigger] out@[j])@ == consumed(raw@)[j],
        {
            out.push(q.consumers[i].queue.clone());
        }
    }
    assert(crate::text::texts(out@) =~= consumed(raw@));
    out
}

/// A resource of Cloudflare.
fn resource(id: &str, resource_type: &str, service_id: &str, spec: Json) -> (r: Resource)
    ensures
        r@ == cloudflare_node(id@, resource_type@, service_id@, spec@),
{
    Resource {
        logical_id: LogicalId::new(id),
        resource_type: ResourceType::new(resource_type),
        shell: ResourceShell::new(service_id, Provider::Cloudflare, spec),
        group: None,
    }
}

/// Adds a resource under each of the identifiers.
fn push_resources(
    resources: &mut Vec<Resource>,
    ids: &Vec<String>,
    resource_type: &str,
    service_id: &str,
)
    ensures
        crate::arch::node_views(final(resources)@) == crate::arch::node_views(old(resources)@)
            + nodes_under(crate::text::texts(ids@), resource_type@, service_id@),
{
    let ghost start = crate::arch::node_views(resources@);
    let ghost added = nodes_under(crate::text::texts(ids@), resource_type@, service_id@);
    assert(start + added.subrange(0, 0) =~= start);
    for i in 0..ids.len()
        invariant
            added == nodes_under(crate::text::texts(ids@), resource_type@, service_id@),
            crate::arch::node_views(resources@) == start + added.subrange(0, i as int),
    {
        let ghost before = resources@;
        resources.push(resource(ids[i].as_str(), resource_type, service_id, empty_object()));
        proof {
            assert(crate::arch::node_views(resources@) =~= crate::arch::node_views(before).push(
                added[i as int],
            ));
            assert(start + added.subrange(0, i + 1) =~= (start + added.subrange(0, i as int)).push(
                added[i as int],
            ));
        }
    }
    assert(added.subrange(0, added.len() as int) =~= added);
}

/// Adds a flow of data from the worker to each of the resources.
fn push_flows(connections: &mut Vec<Connection>, worker: &str, ids: &Vec<String>)
    ensures
        crate::arch::connection_views(final(connections)@) == crate::arch::connection_views(
            old(connections)@,
        ) + flows_to(worker@, crate::text::texts(ids@)),
{
    let ghost start = crate::arch::connection_views(connections@);
    let ghost added = flows_to(worker@, crate::text::texts(ids@));
    assert(start + added.subrange(0, 0) =~= start);
    for i in 0..ids.len()
        invariant
            added == flows_to(worker@, crate::text::texts(ids@)),
            crate::arch::connection_views(connections@) == start + added.subrange(0, i as int),
    {
        let ghost before = connections@;
        connections.push(simple_connection(worker, ids[i].as_str(), ConnectionType::DataFlow));
        proof {
            assert(crate::arch::connection_views(connections@)
                =~= crate::arch::connection_views(before).push(added[i as int]));
            assert(start + added.subrange(0, i + 1) =~= (start + added.subrange(0, i as int)).push(
                added[i as int],
            ));
        }
    }
    assert(added.subrange(0, added.len() as int) =~= added);
}

/// Makes each of the resources a source of events for the worker.
fn push_events(connections: &mut Vec<Connection>, worker: &str, ids: &Vec<String>)
    ensures
        crate::arch::connection_views(final(connections)@) == crate::arch::connection_views(
            old(connections)@,
        ) + events_from(worker@, crate::text::texts(ids@)),
{
    let ghost start = crate::arch::connection_views(connections@);
    let ghost added = events_from(worker@, crate::text::texts(ids@));
    assert(start + added.subrange(0, 0) =~= start);
    for i in 0..ids.len()
        invariant
            added == events_from(worker@, crate::text::texts(ids@)),
            crate::arch::connection_views(connections@) == start + added.subrange(0, i as int),
    {
        let ghost before = connections@;
        connections.push(simple_connection(ids[i].as_str(), worker, ConnectionType::EventSource));
        proof {
            assert(crate::arch::connection_views(connections@)
                =~= crate::arch::connection_views(before).push(added[i as int]));
            assert(start + added.subrange(0, i + 1) =~= (start + added.subrange(0, i as int)).push(
                added[i as int],
            ));
        }
    }
    assert(added.subrange(0, added.len() as int) =~= added);
}

/// The architecture that a configuration describes: the worker, the resources
/// that it uses and the connections between them.
pub fn build_architecture(raw: &RawWrangler, default_name: &str) -> (r: Architecture)
    ensures
        r@ == wrangler_architecture(raw@, default_name@),
{
    let worker = match &raw.name {
        Some(n) => n.as_str(),
        None => default_name,
    };
    let bundled: bool = match &raw.usage_model {
        Some(m) => text_eq(m.as_str(), "bundled"),
        None => false,
    };
    let usage_model = if bundled {
        CloudflareUsageModel::Bundled
    } else {
        CloudflareUsageModel::Standard
    };
    let kv = list_kv_ids(raw, worker);
    let r2 = list_r2_ids(raw, worker);
    let d1 = list_d1_ids(raw, worker);
    let queues = list_queue_ids(&list_queues(raw), worker);
    let classes = list_do_ids(&list_classes(raw), worker);

    let mut resources: Vec<Resource> = Vec::new();
    resources.push(
        resource(
            worker,
            "cloudflare_worker",
            "cloudflare.worker",
            CloudflareWorkerSpec { usage_model }.to_json(),
        ),
    );
    assert(crate::arch::node_views(resources@) =~= seq![worker_node(raw@, worker@)]);
    push_resources(&mut resources, &kv, "cloudflare_workers_kv_namespace", "cloudflare.kv");
    push_resources(&mut resources, &r2, "cloudflare_r2_bucket", "cloudflare.r2");
    push_resources(&mut resources, &d1, "cloudflare_d1_database", "cloudflare.d1");
    push_resources(&mut resources, &queues, "cloudflare_queue", "cloudflare.queue");
    push_resources(
        &mut resources,
        &classes,
        "cloudflare_durable_object",
        "cloudflare.durable_object",
    );

    let produced = list_queue_ids(&list_produced(raw), worker);
    let consumed = list_queue_ids(&list_consumed(raw), worker);
    let mut connections: Vec<Connection> = Vec::new();
    push_flows(&mut connections, worker, &kv);
    assert(crate::arch::connection_views(connections@) =~= flows_to(
        worker@,
        kv_ids(raw@, worker@),
    ));
    push_flows(&mut connections, worker, &r2);
    push_flows(&mut connections, worker, &d1);
    push_flows(&mut connections, worker, &produced);
    push_events(&mut connections, worker, &consumed);
    push_flows(&mut connections, worker, &classes);

    Architecture {
        name: worker.to_owned(),
        region: Region::new("global"),
        resources,
        connections,
    }
}

// ---------------------------------------------------------------------------
// Reading
// ---------------------------------------------------------------------------

/// What is read from the document that a text holds: the architecture, or why
/// there is none.
pub open spec fn architecture_in(
    content: Seq<char>,
    document: Result<crate::wrangler::document::NodeView, Seq<char>>,
    default_name: Seq<char>,
) -> Result<ArchitectureView, WranglerErrorView> {
    match document {
        Err(e) => Err(WranglerErrorView::ParseError(e)),
        Ok(n) => match RawWrangler::read(n) {
            Ok(raw) => Ok(wrangler_architecture(raw, default_name)),
            Err(f) => Err(
                WranglerErrorView::ParseError(
                    crate::wrangler::document::report(content, f.place, f.message),
                ),
            ),
        },
    }
}

/// The architecture that the document of a text describes.
pub fn read_architecture(content: &str, document: Result<Node, String>, default_name: &str) -> (r:
    Result<Architecture, WranglerError>)
    ensures
        ({
            let found = match document {
                Ok(n) => Ok(crate::wrangler::document::node_view(n)),
                Err(e) => Err(e@),
            };
            match r {
                Ok(a) => architecture_in(content@, found, default_name@) == Ok::<
                    ArchitectureView,
                    WranglerErrorView,
                >(a@),
                Err(e) => architecture_in(content@, found, default_name@) == Err::<
                    ArchitectureView,
                    WranglerErrorView,
                >(e@),
            }
        }),
{
    match document {
        Err(e) => Err(WranglerError::ParseError(e)),
        Ok(n) => match RawWrangler::from_toml(&n) {
            Ok(raw) => Ok(build_architecture(&raw, default_name)),
            Err(f) => Err(
                WranglerError::ParseError(report_of(content, f.place, f.message.as_str())),
            ),
        },
    }
}

/// The architecture that the text of a `wrangler.toml` describes.
pub fn parse_wrangler_str(content: &str, default_name: &str) -> (r: Result<
    Architecture,
    WranglerError,
>)
    ensures
        match r {
            Ok(a) => architecture_in(
                content@,
                crate::wrangler::document::toml_document(content@),
                default_name@,
            ) == Ok::<ArchitectureView, WranglerErrorView>(a@),
            Err(e) => architecture_in(
                content@,
                crate::wrangler::document::toml_document(content@),
                default_name@,
            ) == Err::<ArchitectureView, WranglerErrorView>(e@),
        },
{
    read_architecture(content, parse_toml(content), default_name)
}

/// The name of a worker whose configuration does not name it: that of the
/// directory in which the configuration stands.
pub open spec fn name_from_path(path: Seq<char>) -> Seq<char> {
    match crate::path::parent_of(path) {
        Some(dir) => match crate::path::file_name_of(dir) {
            Some(name) => name,
            None => "worker"@,
        },
        None => "worker"@,
    }
}

/// The name of a worker whose configuration does not name it.
pub fn default_worker_name(path: &str) -> (r: String)
    ensures
        r@ == name_from_path(path@),
{
    match parent(path) {
        Some(dir) => match file_name(dir.as_str()) {
            Some(name) => name,
            None => "worker".to_owned(),
        },
        None => "worker".to_owned(),
    }
}

/// Whether the configuration at `path` is written in JSON with comments.
pub fn is_jsonc(path: &str) -> (r: bool)
    ensures
        r == crate::path::has_extension(path@, "jsonc"@),
{
    extension_is(path, "jsonc")
}

// ---------------------------------------------------------------------------
// Laws
// ---------------------------------------------------------------------------

/// Distinct texts are the texts, each once.
pub proof fn law_distinct(s: Seq<Seq<char>>)
    ensures
        distinct(s).no_duplicates(),
        forall|x: Seq<char>| #[trigger] distinct(s).contains(x) <==> s.contains(x),
    decreases s.len(),
{
    if s.len() > 0 {
        let front = s.drop_last();
        let rest = distinct(front);
        law_distinct(front);
        assert forall|x: Seq<char>| #[trigger] distinct(s).contains(x) <==> s.contains(x) by {
            if s.contains(x) {
                let i = choose|i: int| 0 <= i < s.len() && s[i] == x;
                if i < front.len() {
                    assert(front[i] == x);
                    assert(front.contains(x));
                    assert(rest.contains(x));
                    let k = choose|k: int| 0 <= k < rest.len() && rest[k] == x;
                    assert(distinct(s)[k] == x);
                } else if !rest.contains(x) {
                    assert(distinct(s)[rest.len() as int] == x);
                }
            }
            if distinct(s).contains(x) {
                let k = choose|k: int| 0 <= k < distinct(s).len() && distinct(s)[k] == x;
                if k < rest.len() {
                    assert(rest[k] == x);
                    assert(rest.contains(x));
                    assert(front.contains(x));
                    let i = choose|i: int| 0 <= i < front.len() && front[i] == x;
                    assert(s[i] == x);
                } else {
                    assert(s[s.len() - 1] == x);
                }
            }
        }
    }
}

/// A resource of the architecture has the identifier.
pub open spec fn is_node_id(nodes: Seq<NodeView>, id: Seq<char>) -> bool {
    exists|i: int| 0 <= i < nodes.len() && (#[trigger] nodes[i]).logical_id == id
}

/// The resource at a position of one of the lists that make up the resources.
proof fn lemma_node_at(raw: RawWranglerView, worker: Seq<char>, id: Seq<char>)
    requires
        id == worker || kv_ids(raw, worker).contains(id) || r2_ids(raw, worker).contains(id)
            || d1_ids(raw, worker).contains(id) || queue_ids(queue_names(raw), worker).contains(id)
            || do_ids(class_names(raw), worker).contains(id),
    ensures
        is_node_id(wrangler_nodes(raw, worker), id),
{
    let nodes = wrangler_nodes(raw, worker);
    let a = kv_ids(raw, worker);
    let b = r2_ids(raw, worker);
    let c = d1_ids(raw, worker);
    let d = queue_ids(queue_names(raw), worker);
    let e = do_ids(class_names(raw), worker);
    if id == worker {
        assert(nodes[0].logical_id == id);
    } else if a.contains(id) {
        let i = choose|i: int| 0 <= i < a.len() && a[i] == id;
        assert(nodes[1 + i].logical_id == id);
    } else if b.contains(id) {
        let i = choose|i: int| 0 <= i < b.len() && b[i] == id;
        assert(nodes[1 + a.len() + i].logical_id == id);
    } else if c.contains(id) {
        let i = choose|i: int| 0 <= i < c.len() && c[i] == id;
        assert(nodes[1 + a.len() + b.len() + i].logical_id == id);
    } else if d.contains(id) {
        let i = choose|i: int| 0 <= i < d.len() && d[i] == id;
        assert(nodes[1 + a.len() + b.len() + c.len() + i].logical_id == id);
    } else {
        let i = choose|i: int| 0 <= i < e.len() && e[i] == id;
        assert(nodes[1 + a.len() + b.len() + c.len() + d.len() + i].logical_id == id);
    }
}

/// The queues that a worker writes to or reads from are among its queues.
proof fn lemma_queue_is_used(raw: RawWranglerView, worker: Seq<char>, id: Seq<char>)
    requires
        queue_ids(produced(raw), worker).contains(id) || queue_ids(
            consumed(raw),
            worker,
        ).contains(id),
    ensures
        queue_ids(queue_names(raw), worker).contains(id),
{
    let all = produced(raw) + consumed(raw);
    let p = queue_ids(produced(raw), worker);
    let c = queue_ids(consumed(raw), worker);
    law_distinct(all);
    let name = if p.contains(id) {
        let i = choose|i: int| 0 <= i < p.len() && p[i] == id;
        assert(all[i] == produced(raw)[i]);
        all[i]
    } else {
        let i = choose|i: int| 0 <= i < c.len() && c[i] == id;
        assert(all[produced(raw).len() + i] == consumed(raw)[i]);
        all[produced(raw).len() + i]
    };
    assert(all.contains(name));
    assert(queue_names(raw).contains(name));
    let k = choose|k: int| 0 <= k < queue_names(raw).len() && queue_names(raw)[k] == name;
    assert(queue_ids(queue_names(raw), worker)[k] == id);
}

/// Each connection joins the worker with a resource of the architecture.
pub proof fn law_connections_join_the_worker(raw: RawWranglerView, default_name: Seq<char>, i: int)
    requires
        0 <= i < wrangler_architecture(raw, default_name).connections.len(),
    ensures
        ({
            let a = wrangler_architecture(raw, default_name);
            let c = a.connections[i];
            &&& c.source == a.name || c.target == a.name
            &&& is_node_id(a.resources, c.source)
            &&& is_node_id(a.resources, c.target)
        }),
{
    let a = wrangler_architecture(raw, default_name);
    let w = a.name;
    let kv = kv_ids(raw, w);
    let r2 = r2_ids(raw, w);
    let d1 = d1_ids(raw, w);
    let p = queue_ids(produced(raw), w);
    let e = queue_ids(consumed(raw), w);
    let d = do_ids(class_names(raw), w);
    let c = a.connections[i];
    lemma_node_at(raw, w, w);
    let n1 = kv.len() as int;
    let n2 = n1 + r2.len();
    let n3 = n2 + d1.len();
    let n4 = n3 + p.len();
    let n5 = n4 + e.len();
    if i < n1 {
        assert(c.target == kv[i]);
        assert(kv.contains(c.target));
        lemma_node_at(raw, w, c.target);
    } else if i < n2 {
        assert(c.target == r2[i - n1]);
        assert(r2.contains(c.target));
        lemma_node_at(raw, w, c.target);
    } else if i < n3 {
        assert(c.target == d1[i - n2]);
        assert(d1.contains(c.target));
        lemma_node_at(raw, w, c.target);
    } else if i < n4 {
        assert(c.target == p[i - n3]);
        assert(p.contains(c.target));
        lemma_queue_is_used(raw, w, c.target);
        lemma_node_at(raw, w, c.target);
    } else if i < n5 {
        assert(c.source == e[i - n4]);
        assert(e.contains(c.source));
        lemma_queue_is_used(raw, w, c.source);
        lemma_node_at(raw, w, c.source);
    } else {
        assert(c.target == d[i - n5]);
        assert(d.contains(c.target));
        lemma_node_at(raw, w, c.target);
    }
}

/// All resources are run by Cloudflare, and the first is the worker.
pub proof fn law_resources_are_cloudflares(raw: RawWranglerView, default_name: Seq<char>)
    ensures
        ({
            let a = wrangler_architecture(raw, default_name);
            &&& a.resources.len() > 0
            &&& a.resources[0].logical_id == a.name
            &&& forall|i: int|
                0 <= i < a.resources.len() ==> (#[trigger] a.resources[i]).shell.provider
                    == Provider::Cloudflare
        }),
{
}

} // verus!
