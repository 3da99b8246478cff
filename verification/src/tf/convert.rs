//! Terraform configurations as architectures.

use vstd::prelude::*;

use crate::arch::simple_connection;
use crate::arch::Architecture;
use crate::arch::ArchitectureView;
use crate::arch::Connection;
use crate::arch::ConnectionDeduper;
use crate::arch::ConnectionType;
use crate::arch::ConnectionView;
use crate::arch::LogicalId;
use crate::arch::NodeView;
use crate::arch::Region;
use crate::arch::Resource;
use crate::arch::ResourceShell;
use crate::arch::ResourceType;
use crate::arch::ShellView;
use crate::iac::IacPropertyValue;
use crate::iac::PropertyView;
use crate::iac::RawTfResource;
use crate::iac::RawTfView;
use crate::iac::TfAdapterRegistry;
use crate::json::Json;
use crate::json::JsonView;
use crate::strmap::vec_insert;
use crate::strmap::StrMap;
use crate::text::starts_with;
use crate::text::text_eq;
use crate::tf::parser::tf_get;
use crate::tf::parser::TfResource;
use crate::tf::parser::TfResourceView;
use crate::tf::parser::TfValue;
use crate::tf::parser::TfView;
use crate::tf::resolver::ResolvedConfig;
use crate::tf::resolver::ResolvedConfigView;

verus! {

/// Values under their names, in order.
pub type TfEntries = Seq<(Seq<char>, TfView)>;

// ---------------------------------------------------------------------------
// Raw resources: models
// ---------------------------------------------------------------------------

/// The logical ID of a resource: its type and its name.
pub open spec fn tf_logical_id(resource_type: Seq<char>, name: Seq<char>) -> Seq<char> {
    resource_type + "_"@ + name
}

/// The JSON that stands for a value, where there is one: references and
/// unknown values have none, and are left out of objects and arrays.
pub open spec fn json_of(v: TfView) -> Option<JsonView>
    decreases v, 0int,
{
    match v {
        TfView::String(s) => Some(JsonView::String(s)),
        TfView::Number(n) => if crate::yaml::is_finite_number(n) {
            Some(JsonView::Number(n))
        } else {
            None
        },
        TfView::Bool(b) => Some(JsonView::Bool(b)),
        TfView::Object(m) => Some(JsonView::Object(json_fields(m))),
        TfView::Array(s) => Some(JsonView::Array(json_items(s))),
        _ => None,
    }
}

/// The JSON that stands for the values of a map, stored one after the other.
pub open spec fn json_fields(m: TfEntries) -> Seq<(Seq<char>, JsonView)>
    decreases m, 1int,
{
    if m.len() == 0 {
        Seq::empty()
    } else {
        proof {
            assert(decreases_to!(m => m.last()));
        }
        match json_of(m.last().1) {
            Some(j) => crate::strmap::inserted(json_fields(m.drop_last()), m.last().0, j),
            None => json_fields(m.drop_last()),
        }
    }
}

/// The JSON that stands for the items of an array.
pub open spec fn json_items(s: Seq<TfView>) -> Seq<JsonView>
    decreases s, 1int,
{
    if s.len() == 0 {
        Seq::empty()
    } else {
        match json_of(s.last()) {
            Some(j) => json_items(s.drop_last()).push(j),
            None => json_items(s.drop_last()),
        }
    }
}

/// The property that stands for an attribute, where there is one: a reference
/// to a resource stays one.
pub open spec fn property_of(v: TfView) -> Option<PropertyView> {
    match v {
        TfView::ResourceRef { resource_type, name, attr } => Some(
            PropertyView::ResourceAttr { logical_id: tf_logical_id(resource_type, name), attr },
        ),
        _ => match json_of(v) {
            Some(j) => Some(PropertyView::Concrete(j)),
            None => None,
        },
    }
}

/// The properties that stand for attributes.
pub open spec fn properties_of(m: TfEntries) -> Seq<(Seq<char>, PropertyView)>
    decreases m.len(),
{
    if m.len() == 0 {
        Seq::empty()
    } else {
        match property_of(m.last().1) {
            Some(p) => crate::strmap::inserted(properties_of(m.drop_last()), m.last().0, p),
            None => properties_of(m.drop_last()),
        }
    }
}

/// The raw resource that an adapter is given.
pub open spec fn raw_of(r: TfResourceView, logical_id: Seq<char>) -> RawTfView {
    RawTfView {
        logical_id,
        resource_type: r.resource_type,
        attrs: properties_of(r.attrs),
        blocks: crate::strmap::mapped(
            r.blocks,
            |s: Seq<TfEntries>| s.map_values(|m: TfEntries| json_fields(m)),
        ),
    }
}

// ---------------------------------------------------------------------------
// Connections: models
// ---------------------------------------------------------------------------

/// A resource that is referred to, by its type and its name.
pub struct RefView {
    pub resource_type: Seq<char>,
    pub name: Seq<char>,
}

/// The logical ID of a resource that is referred to.
pub open spec fn ref_id(r: RefView) -> Seq<char> {
    tf_logical_id(r.resource_type, r.name)
}

/// The resources that a value refers to, in order.
pub open spec fn refs_in(v: TfView) -> Seq<RefView>
    decreases v, 0int,
{
    match v {
        TfView::ResourceRef { resource_type, name, .. } => seq![RefView { resource_type, name }],
        TfView::Object(m) => refs_in_entries(m),
        TfView::Array(s) => refs_in_items(s),
        _ => Seq::empty(),
    }
}

/// The resources that the values of a map refer to, in order.
pub open spec fn refs_in_entries(m: TfEntries) -> Seq<RefView>
    decreases m, 1int,
{
    if m.len() == 0 {
        Seq::empty()
    } else {
        proof {
            assert(decreases_to!(m => m.last()));
        }
        refs_in_entries(m.drop_last()) + refs_in(m.last().1)
    }
}

/// The resources that the items of an array refer to, in order.
pub open spec fn refs_in_items(s: Seq<TfView>) -> Seq<RefView>
    decreases s, 1int,
{
    if s.len() == 0 {
        Seq::empty()
    } else {
        refs_in_items(s.drop_last()) + refs_in(s.last())
    }
}

/// Which references of a resource stand for connections.
#[derive(Debug, Clone, Copy, PartialEq, Eq, Structural)]
pub enum RefScope {
    /// The targets of a bucket's notifications.
    Notification,
    /// What a resource uses while it runs.
    Runtime,
}

/// An attribute that describes how a resource is deployed, permissions or
/// encryption, and nothing that it uses while it runs.
pub open spec fn is_non_runtime_attr(key: Seq<char>) -> bool {
    key == "s3_bucket"@ || key == "s3_key"@ || key == "s3_object_version"@ || key == "filename"@
        || key == "source_code_hash"@ || key == "image_uri"@ || key == "layers"@ || key == "role"@
        || key == "kms_key_arn"@ || key == "depends_on"@ || key == "count"@ || key == "for_each"@
        || key == "provider"@
}

/// A block that describes how a resource is deployed or set up, and nothing
/// that it uses while it runs.
pub open spec fn is_non_runtime_block(name: Seq<char>) -> bool {
    name == "dead_letter_config"@ || name == "vpc_config"@ || name == "tracing_config"@ || name
        == "file_system_config"@ || name == "image_config"@ || name == "ephemeral_storage"@ || name
        == "logging_config"@ || name == "snap_start"@ || name == "timeouts"@ || name
        == "lifecycle"@
}

/// Some item is a string that begins with `s3:ObjectCreated`.
pub open spec fn names_object_created(s: Seq<TfView>) -> bool {
    exists|i: int|
        0 <= i < s.len() && (#[trigger] s[i]) is String && crate::text::has_prefix(
            s[i]->String_0,
            "s3:ObjectCreated"@,
        )
}

/// The `events` of a notification name the creation of objects.
pub open spec fn has_object_created_event(body: TfEntries) -> bool {
    match crate::strmap::lookup(body, "events"@) {
        Some(TfView::Array(s)) => names_object_created(s),
        _ => false,
    }
}

/// The attribute is in scope.
pub open spec fn attr_in_scope(scope: RefScope, key: Seq<char>) -> bool {
    match scope {
        RefScope::Notification => key != "bucket"@,
        RefScope::Runtime => !is_non_runtime_attr(key),
    }
}

/// The block is in scope.
pub open spec fn block_in_scope(scope: RefScope, name: Seq<char>) -> bool {
    match scope {
        RefScope::Notification => true,
        RefScope::Runtime => !is_non_runtime_block(name),
    }
}

/// The body of a block is in scope.
pub open spec fn body_in_scope(scope: RefScope, body: TfEntries) -> bool {
    match scope {
        RefScope::Notification => has_object_created_event(body),
        RefScope::Runtime => true,
    }
}

/// The resources that the attributes in scope refer to, in order.
pub open spec fn attr_refs(m: TfEntries, scope: RefScope) -> Seq<RefView>
    decreases m.len(),
{
    if m.len() == 0 {
        Seq::empty()
    } else if attr_in_scope(scope, m.last().0) {
        attr_refs(m.drop_last(), scope) + refs_in(m.last().1)
    } else {
        attr_refs(m.drop_last(), scope)
    }
}

/// The resources that the bodies in scope refer to, in order.
pub open spec fn body_refs(s: Seq<TfEntries>, scope: RefScope) -> Seq<RefView>
    decreases s.len(),
{
    if s.len() == 0 {
        Seq::empty()
    } else if body_in_scope(scope, s.last()) {
        body_refs(s.drop_last(), scope) + refs_in_entries(s.last())
    } else {
        body_refs(s.drop_last(), scope)
    }
}

/// The resources that the blocks in scope refer to, in order.
pub open spec fn block_refs(m: Seq<(Seq<char>, Seq<TfEntries>)>, scope: RefScope) -> Seq<RefView>
    decreases m.len(),
{
    if m.len() == 0 {
        Seq::empty()
    } else if block_in_scope(scope, m.last().0) {
        block_refs(m.drop_last(), scope) + body_refs(m.last().1, scope)
    } else {
        block_refs(m.drop_last(), scope)
    }
}

/// Functions put data into resources of these types.
pub open spec fn is_storage_type(t: Seq<char>) -> bool {
    t == "aws_dynamodb_table"@ || t == "aws_s3_bucket"@ || t == "aws_sqs_queue"@ || t
        == "aws_sns_topic"@
}

/// Functions invoke resources of these types.
pub open spec fn is_compute_type(t: Seq<char>) -> bool {
    t == "aws_sfn_state_machine"@ || t == "aws_lambda_function"@
}

/// How a resource that refers to another drives it.
pub open spec fn edge_type(source: Seq<char>, target: Seq<char>) -> Option<ConnectionType> {
    if source != "aws_lambda_function"@ {
        None
    } else if is_storage_type(target) {
        Some(ConnectionType::DataFlow)
    } else if is_compute_type(target) {
        Some(ConnectionType::Invocation)
    } else {
        None
    }
}

/// The resource that an attribute refers to.
pub open spec fn attr_ref(attrs: TfEntries, key: Seq<char>) -> Option<RefView> {
    match crate::strmap::lookup(attrs, key) {
        Some(TfView::ResourceRef { resource_type, name, .. }) => Some(
            RefView { resource_type, name },
        ),
        _ => None,
    }
}

/// The connection between two resources, where both are referred to.
pub open spec fn edge_between(
    source: Option<RefView>,
    target: Option<RefView>,
    kind: ConnectionType,
) -> Seq<ConnectionView> {
    match (source, target) {
        (Some(s), Some(t)) => seq![crate::arch::plain_connection(ref_id(s), ref_id(t), kind)],
        _ => Seq::empty(),
    }
}

/// Connections of one kind from one resource to each of others.
pub open spec fn edges_to(
    source: Seq<char>,
    targets: Seq<RefView>,
    kind: ConnectionType,
) -> Seq<ConnectionView> {
    targets.map_values(|t: RefView| crate::arch::plain_connection(source, ref_id(t), kind))
}

/// The connections that a resource of some type has by referring to others.
pub open spec fn runtime_edges(
    source: Seq<char>,
    source_type: Seq<char>,
    targets: Seq<RefView>,
) -> Seq<ConnectionView>
    decreases targets.len(),
{
    if targets.len() == 0 {
        Seq::empty()
    } else {
        let before = runtime_edges(source, source_type, targets.drop_last());
        match edge_type(source_type, targets.last().resource_type) {
            Some(kind) => before.push(
                crate::arch::plain_connection(source, ref_id(targets.last()), kind),
            ),
            None => before,
        }
    }
}

/// A subscription to a topic by this protocol invokes a resource.
pub open spec fn is_runtime_protocol(v: Option<TfView>) -> bool {
    v matches Some(TfView::String(s)) && (s == "lambda"@ || s == "sqs"@)
}

/// The connections that a resource stands for. An event source mapping
/// connects its source to its function, a subscription its topic to its
/// endpoint, and a bucket notification its bucket to its targets. Any other
/// resource is connected to what it uses while it runs.
pub open spec fn resource_edges(r: TfResourceView) -> Seq<ConnectionView> {
    if r.resource_type == "aws_lambda_event_source_mapping"@ {
        edge_between(
            attr_ref(r.attrs, "event_source_arn"@),
            attr_ref(r.attrs, "function_name"@),
            ConnectionType::EventSource,
        )
    } else if r.resource_type == "aws_sns_topic_subscription"@ {
        if is_runtime_protocol(crate::strmap::lookup(r.attrs, "protocol"@)) {
            edge_between(
                attr_ref(r.attrs, "topic_arn"@),
                attr_ref(r.attrs, "endpoint"@),
                ConnectionType::Notification,
            )
        } else {
            Seq::empty()
        }
    } else if r.resource_type == "aws_s3_bucket_notification"@ {
        match attr_ref(r.attrs, "bucket"@) {
            Some(bucket) => edges_to(
                ref_id(bucket),
                block_refs(r.blocks, RefScope::Notification) + attr_refs(
                    r.attrs,
                    RefScope::Notification,
                ),
                ConnectionType::Notification,
            ),
            None => Seq::empty(),
        }
    } else {
        runtime_edges(
            tf_logical_id(r.resource_type, r.name),
            r.resource_type,
            attr_refs(r.attrs, RefScope::Runtime) + block_refs(r.blocks, RefScope::Runtime),
        )
    }
}

/// Some node has the given logical ID.
pub open spec fn is_node(nodes: Seq<NodeView>, id: Seq<char>) -> bool {
    exists|i: int| 0 <= i < nodes.len() && (#[trigger] nodes[i]).logical_id == id
}

/// The connections after others were offered, each admitted where both of its
/// ends are nodes.
pub open spec fn offered_edges(
    s: Seq<ConnectionView>,
    more: Seq<ConnectionView>,
    nodes: Seq<NodeView>,
) -> Seq<ConnectionView>
    decreases more.len(),
{
    if more.len() == 0 {
        s
    } else {
        crate::arch::offered(
            offered_edges(s, more.drop_last(), nodes),
            more.last(),
            is_node(nodes, more.last().source),
            is_node(nodes, more.last().target),
        )
    }
}

/// The connections between the nodes of a configuration.
pub open spec fn connections_of(rs: Seq<TfResourceView>, nodes: Seq<NodeView>) -> Seq<
    ConnectionView,
>
    decreases rs.len(),
{
    if rs.len() == 0 {
        Seq::empty()
    } else {
        offered_edges(connections_of(rs.drop_last(), nodes), resource_edges(rs.last()), nodes)
    }
}

// ---------------------------------------------------------------------------
// Architectures: models
// ---------------------------------------------------------------------------

/// The shell of a resource: what its adapter makes of it, and the shell of an
/// unsupported resource where it has no adapter or the adapter fails.
pub open spec fn shell_of(r: TfResourceView, adapters: TfAdapterRegistry) -> ShellView {
    match adapters.registered(r.resource_type) {
        None => crate::arch::other_shell(r.resource_type),
        Some(a) => match a.adapter.converted(
            raw_of(r, tf_logical_id(r.resource_type, r.name)),
        ) {
            Ok(s) => s,
            Err(_) => crate::arch::other_shell(r.resource_type),
        },
    }
}

/// The node of an architecture that a resource becomes.
pub open spec fn node_of(r: TfResourceView, adapters: TfAdapterRegistry) -> NodeView {
    NodeView {
        logical_id: tf_logical_id(r.resource_type, r.name),
        resource_type: r.resource_type,
        shell: shell_of(r, adapters),
        group: None,
    }
}

/// The nodes of an architecture that resources become.
pub open spec fn nodes_of(rs: Seq<TfResourceView>, adapters: TfAdapterRegistry) -> Seq<NodeView> {
    rs.map_values(|r: TfResourceView| node_of(r, adapters))
}

/// The architecture that a configuration becomes.
pub open spec fn architecture_of(
    name: Seq<char>,
    region: Seq<char>,
    c: ResolvedConfigView,
    adapters: TfAdapterRegistry,
) -> ArchitectureView {
    ArchitectureView {
        name,
        region,
        resources: nodes_of(c.resources, adapters),
        connections: connections_of(c.resources, nodes_of(c.resources, adapters)),
    }
}


// ---------------------------------------------------------------------------
// Raw resources
// ---------------------------------------------------------------------------

/// The logical ID of a resource: `<resource_type>_<name>`.
pub fn logical_id_for(resource_type: &str, name: &str) -> (r: String)
    ensures
        r@ == tf_logical_id(resource_type@, name@),
{
    let mut id = resource_type.to_owned();
    id.append("_");
    id.append(name);
    id
}

/// The JSON that stands for a value. References and unknown values have none,
/// and are left out of objects and arrays.
pub fn tf_value_to_json(value: &TfValue) -> (r: Option<Json>)
    ensures
        json_of(value@) == match r {
            Some(j) => Some(j@),
            None => None,
        },
    decreases value,
{
    match value {
        TfValue::String(s) => Some(Json::String(s.clone())),
        TfValue::Number(n) => if n.is_finite() {
            Some(Json::Number(n.clone()))
        } else {
            None
        },
        TfValue::Bool(b) => Some(Json::Bool(*b)),
        TfValue::Object(v) => {
            let ghost m = crate::tf::parser::object_views(v@);
            let ghost f = |j: Json| j@;
            assert(value@->Object_0 =~= m);
            let mut out: Vec<(String, Json)> = Vec::new();
            assert(crate::json::json_entries(out@) =~= Seq::empty());
            for i in 0..v.len()
                invariant
                    value is Object,
                    value->Object_0 == v,
                    m == crate::tf::parser::object_views(v@),
                    f == (|j: Json| j@),
                    crate::json::json_entries(out@) == json_fields(m.subrange(0, i as int)),
            {
                let ghost before = out@;
                proof {
                    let now = m.subrange(0, i + 1);
                    assert(now.drop_last() =~= m.subrange(0, i as int));
                    assert(now.last() == (v@[i as int].0@, v@[i as int].1@));
                }
                if let Some(j) = tf_value_to_json(&v[i].1) {
                    proof {
                        crate::json::lemma_json_entries(before);
                        crate::strmap::lemma_inserted_mapped(
                            crate::strmap::pairs(before),
                            f,
                            v@[i as int].0@,
                            j,
                        );
                    }
                    vec_insert(&mut out, v[i].0.clone(), j);
                    proof {
                        crate::json::lemma_json_entries(out@);
                    }
                }
            }
            assert(m.subrange(0, v@.len() as int) =~= m);
            let r = Json::Object(out);
            assert(r@->Object_0 =~= crate::json::json_entries(out@));
            Some(r)
        },
        TfValue::Array(v) => {
            let ghost s = crate::tf::parser::tf_views(v@);
            assert(value@->Array_0 =~= s);
            let mut out: Vec<Json> = Vec::new();
            assert(crate::json::json_views(out@) =~= Seq::empty());
            for i in 0..v.len()
                invariant
                    value is Array,
                    value->Array_0 == v,
                    s == crate::tf::parser::tf_views(v@),
                    crate::json::json_views(out@) == json_items(s.subrange(0, i as int)),
            {
                let ghost before = out@;
                proof {
                    let now = s.subrange(0, i + 1);
                    assert(now.drop_last() =~= s.subrange(0, i as int));
                    assert(now.last() == v@[i as int]@);
                }
                if let Some(j) = tf_value_to_json(&v[i]) {
                    out.push(j);
                    assert(crate::json::json_views(out@) =~= crate::json::json_views(before).push(
                        j@,
                    ));
                }
            }
            assert(s.subrange(0, v@.len() as int) =~= s);
            let r = Json::Array(out);
            assert(r@->Array_0 =~= crate::json::json_views(out@));
            Some(r)
        },
        _ => None,
    }
}

/// The property that stands for an attribute.
fn tf_value_to_property(value: &TfValue) -> (r: Option<IacPropertyValue>)
    ensures
        property_of(value@) == match r {
            Some(p) => Some(p@),
            None => None,
        },
{
    match value {
        TfValue::ResourceRef { resource_type, name, attr } => Some(
            IacPropertyValue::ResourceAttr {
                logical_id: logical_id_for(resource_type.as_str(), name.as_str()),
                attr: attr.clone(),
            },
        ),
        _ => match tf_value_to_json(value) {
            Some(j) => Some(IacPropertyValue::Concrete(j)),
            None => None,
        },
    }
}

/// The JSON that stands for the values of a map.
fn attrs_to_json(attrs: &StrMap<TfValue>) -> (r: StrMap<Json>)
    ensures
        crate::strmap::mapped(r@, |j: Json| j@) == json_fields(
            crate::tf::parser::tf_entries(attrs@),
        ),
{
    let ghost m = crate::tf::parser::tf_entries(attrs@);
    let ghost f = |j: Json| j@;
    let mut out: StrMap<Json> = StrMap::new();
    assert(crate::strmap::mapped(out@, f) =~= Seq::empty());
    let n: usize = attrs.len();
    for i in 0..n
        invariant
            n == attrs@.len(),
            m == crate::tf::parser::tf_entries(attrs@),
            f == (|j: Json| j@),
            crate::strmap::mapped(out@, f) == json_fields(m.subrange(0, i as int)),
    {
        proof {
            let now = m.subrange(0, i + 1);
            assert(now.drop_last() =~= m.subrange(0, i as int));
            assert(now.last() == (attrs@[i as int].0, attrs@[i as int].1@));
        }
        if let Some(j) = tf_value_to_json(attrs.value_at(i)) {
            proof {
                crate::strmap::lemma_inserted_mapped(out@, f, attrs@[i as int].0, j);
            }
            out.insert(attrs.key_at(i).clone(), j);
        }
    }
    assert(m.subrange(0, n as int) =~= m);
    out
}

/// Converts a resolved resource into the form that adapters read. Attributes
/// that are references to variables or locals or unknown are left out.
pub fn tf_resource_to_raw(resource: &TfResource, logical_id: &str) -> (r: RawTfResource)
    ensures
        r@ == raw_of(resource@, logical_id@),
{
    let ghost m = resource@.attrs;
    let ghost p = |v: IacPropertyValue| v@;
    let mut attrs: StrMap<IacPropertyValue> = StrMap::new();
    assert(crate::iac::property_entries(attrs@) =~= Seq::empty());
    let n: usize = resource.attrs.len();
    for i in 0..n
        invariant
            n == resource.attrs@.len(),
            m == resource@.attrs,
            p == (|v: IacPropertyValue| v@),
            crate::iac::property_entries(attrs@) == properties_of(m.subrange(0, i as int)),
    {
        proof {
            let now = m.subrange(0, i + 1);
            assert(now.drop_last() =~= m.subrange(0, i as int));
            assert(now.last() == (resource.attrs@[i as int].0, resource.attrs@[i as int].1@));
        }
        if let Some(v) = tf_value_to_property(resource.attrs.value_at(i)) {
            proof {
                crate::strmap::lemma_inserted_mapped(attrs@, p, resource.attrs@[i as int].0, v);
            }
            attrs.insert(resource.attrs.key_at(i).clone(), v);
        }
    }
    assert(m.subrange(0, n as int) =~= m);

    let ghost raw = resource.blocks@;
    let ghost g = |s: Seq<TfEntries>| s.map_values(|e: TfEntries| json_fields(e));
    let ghost b = |v: Vec<StrMap<Json>>| crate::iac::json_bodies(v@);
    let ghost all = crate::strmap::mapped(resource@.blocks, g);
    let mut blocks: StrMap<Vec<StrMap<Json>>> = StrMap::new();
    assert(crate::iac::json_blocks(blocks@) =~= all.subrange(0, 0));
    let n: usize = resource.blocks.len();
    for i in 0..n
        invariant
            raw == resource.blocks@,
            n == raw.len(),
            crate::strmap::keys_rise(raw),
            g == (|s: Seq<TfEntries>| s.map_values(|e: TfEntries| json_fields(e))),
            b == (|v: Vec<StrMap<Json>>| crate::iac::json_bodies(v@)),
            all == crate::strmap::mapped(resource@.blocks, g),
            crate::iac::json_blocks(blocks@) == all.subrange(0, i as int),
    {
        let list = resource.blocks.value_at(i);
        let mut out: Vec<StrMap<Json>> = Vec::new();
        for k in 0..list.len()
            invariant
                out@.len() == k,
                forall|j: int|
                    0 <= j < k ==> crate::strmap::mapped((#[trigger] out@[j])@, |x: Json| x@)
                        == json_fields(crate::tf::parser::tf_entries(list@[j]@)),
        {
            out.push(attrs_to_json(&list[k]));
        }
        proof {
            let bv = crate::tf::parser::block_views(list@);
            assert(crate::iac::json_bodies(out@) =~= g(bv));
            let done = all.subrange(0, i as int);
            assert(resource@.blocks[i as int] == (raw[i as int].0, bv));
            assert(all[i as int] == (raw[i as int].0, g(bv)));
            crate::strmap::lemma_inserted_next(raw, done, i as int, g(bv));
            crate::strmap::lemma_inserted_mapped(blocks@, b, raw[i as int].0, out);
            assert(all.subrange(0, i + 1) =~= done.push(all[i as int]));
        }
        blocks.insert(resource.blocks.key_at(i).clone(), out);
    }
    assert(all.subrange(0, n as int) =~= all);

    RawTfResource {
        logical_id: LogicalId::new(logical_id),
        resource_type: ResourceType::new(resource.resource_type.as_str()),
        attrs,
        blocks,
    }
}

// ---------------------------------------------------------------------------
// Connections
// ---------------------------------------------------------------------------

/// A resource that is referred to, by its type and its name.
struct TfRef<'a> {
    resource_type: &'a str,
    name: &'a str,
}

/// The model of a [`TfRef`].
spec fn ref_view(r: TfRef) -> RefView {
    RefView { resource_type: r.resource_type@, name: r.name@ }
}

/// The models of a sequence of references.
spec fn ref_views(v: Seq<TfRef>) -> Seq<RefView> {
    v.map_values(|r: TfRef| ref_view(r))
}

/// Whether the `events` of a notification name the creation of objects.
fn block_has_object_created_event(body: &StrMap<TfValue>) -> (r: bool)
    ensures
        r == has_object_created_event(crate::tf::parser::tf_entries(body@)),
{
    match tf_get(body, "events") {
        Some(TfValue::Array(items)) => {
            let ghost s = crate::tf::parser::tf_views(items@);
            assert(TfValue::Array(*items)@->Array_0 =~= s);
            for i in 0..items.len()
                invariant
                    s == crate::tf::parser::tf_views(items@),
                    has_object_created_event(crate::tf::parser::tf_entries(body@))
                        == names_object_created(s),
                    forall|j: int|
                        0 <= j < i ==> !((#[trigger] s[j]) is String && crate::text::has_prefix(
                            s[j]->String_0,
                            "s3:ObjectCreated"@,
                        )),
            {
                if let TfValue::String(text) = &items[i] {
                    if starts_with(text.as_str(), "s3:ObjectCreated") {
                        assert(s[i as int] is String);
                        return true;
                    }
                    assert(s[i as int]->String_0 == text@);
                }
            }
            false
        },
        _ => false,
    }
}

/// Adds the resources that a value refers to.
fn collect_resource_refs<'a>(value: &'a TfValue, out: &mut Vec<TfRef<'a>>)
    ensures
        ref_views(final(out)@) == ref_views(old(out)@) + refs_in(value@),
    decreases value,
{
    let ghost start = ref_views(out@);
    match value {
        TfValue::ResourceRef { resource_type, name, .. } => {
            let r = TfRef { resource_type: resource_type.as_str(), name: name.as_str() };
            out.push(r);
            assert(ref_views(out@) =~= start + refs_in(value@));
        },
        TfValue::Object(v) => {
            let ghost m = crate::tf::parser::object_views(v@);
            assert(value@->Object_0 =~= m);
            assert(ref_views(out@) =~= start + refs_in_entries(m.subrange(0, 0)));
            for i in 0..v.len()
                invariant
                    value is Object,
                    value->Object_0 == v,
                    m == crate::tf::parser::object_views(v@),
                    ref_views(out@) == start + refs_in_entries(m.subrange(0, i as int)),
            {
                proof {
                    let now = m.subrange(0, i + 1);
                    assert(now.drop_last() =~= m.subrange(0, i as int));
                    assert(now.last() == m[i as int]);
                }
                collect_resource_refs(&v[i].1, out);
                assert(ref_views(out@) =~= start + refs_in_entries(m.subrange(0, i + 1)));
            }
            assert(m.subrange(0, v@.len() as int) =~= m);
        },
        TfValue::Array(v) => {
            let ghost m = crate::tf::parser::tf_views(v@);
            assert(value@->Array_0 =~= m);
            assert(ref_views(out@) =~= start + refs_in_items(m.subrange(0, 0)));
            for i in 0..v.len()
                invariant
                    value is Array,
                    value->Array_0 == v,
                    m == crate::tf::parser::tf_views(v@),
                    ref_views(out@) == start + refs_in_items(m.subrange(0, i as int)),
            {
                proof {
                    let now = m.subrange(0, i + 1);
                    assert(now.drop_last() =~= m.subrange(0, i as int));
                    assert(now.last() == m[i as int]);
                }
                collect_resource_refs(&v[i], out);
                assert(ref_views(out@) =~= start + refs_in_items(m.subrange(0, i + 1)));
            }
            assert(m.subrange(0, v@.len() as int) =~= m);
        },
        _ => {
            assert(ref_views(out@) =~= start + refs_in(value@));
        },
    }
}

/// Whether an attribute is in scope.
fn admits_attr(scope: RefScope, key: &str) -> (r: bool)
    ensures
        r == attr_in_scope(scope, key@),
{
    match scope {
        RefScope::Notification => !text_eq(key, "bucket"),
        RefScope::Runtime => !(text_eq(key, "s3_bucket") || text_eq(key, "s3_key") || text_eq(
            key,
            "s3_object_version",
        ) || text_eq(key, "filename") || text_eq(key, "source_code_hash") || text_eq(
            key,
            "image_uri",
        ) || text_eq(key, "layers") || text_eq(key, "role") || text_eq(key, "kms_key_arn")
            || text_eq(key, "depends_on") || text_eq(key, "count") || text_eq(key, "for_each")
            || text_eq(key, "provider")),
    }
}

/// Whether a block is in scope.
fn admits_block(scope: RefScope, name: &str) -> (r: bool)
    ensures
        r == block_in_scope(scope, name@),
{
    match scope {
        RefScope::Notification => true,
        RefScope::Runtime => !(text_eq(name, "dead_letter_config") || text_eq(name, "vpc_config")
            || text_eq(name, "tracing_config") || text_eq(name, "file_system_config") || text_eq(
            name,
            "image_config",
        ) || text_eq(name, "ephemeral_storage") || text_eq(name, "logging_config") || text_eq(
            name,
            "snap_start",
        ) || text_eq(name, "timeouts") || text_eq(name, "lifecycle")),
    }
}

/// Adds the resources that the attributes in scope refer to.
fn collect_attr_refs<'a>(
    attrs: &'a StrMap<TfValue>,
    scope: RefScope,
    out: &mut Vec<TfRef<'a>>,
)
    ensures
        ref_views(final(out)@) == ref_views(old(out)@) + attr_refs(
            crate::tf::parser::tf_entries(attrs@),
            scope,
        ),
{
    let ghost start = ref_views(out@);
    let ghost m = crate::tf::parser::tf_entries(attrs@);
    let n: usize = attrs.len();
    assert(ref_views(out@) =~= start + attr_refs(m.subrange(0, 0), scope));
    for i in 0..n
        invariant
            n == attrs@.len(),
            m == crate::tf::parser::tf_entries(attrs@),
            ref_views(out@) == start + attr_refs(m.subrange(0, i as int), scope),
    {
        proof {
            let now = m.subrange(0, i + 1);
            assert(now.drop_last() =~= m.subrange(0, i as int));
            assert(now.last() == (attrs@[i as int].0, attrs@[i as int].1@));
        }
        if admits_attr(scope, attrs.key_at(i).as_str()) {
            collect_resource_refs(attrs.value_at(i), out);
        }
        assert(ref_views(out@) =~= start + attr_refs(m.subrange(0, i + 1), scope));
    }
    assert(m.subrange(0, n as int) =~= m);
}

/// Adds the resources that the values of a map refer to.
fn collect_entry_refs<'a>(attrs: &'a StrMap<TfValue>, out: &mut Vec<TfRef<'a>>)
    ensures
        ref_views(final(out)@) == ref_views(old(out)@) + refs_in_entries(
            crate::tf::parser::tf_entries(attrs@),
        ),
{
    let ghost start = ref_views(out@);
    let ghost m = crate::tf::parser::tf_entries(attrs@);
    let n: usize = attrs.len();
    assert(ref_views(out@) =~= start + refs_in_entries(m.subrange(0, 0)));
    for i in 0..n
        invariant
            n == attrs@.len(),
            m == crate::tf::parser::tf_entries(attrs@),
            ref_views(out@) == start + refs_in_entries(m.subrange(0, i as int)),
    {
        proof {
            let now = m.subrange(0, i + 1);
            assert(now.drop_last() =~= m.subrange(0, i as int));
            assert(now.last() == (attrs@[i as int].0, attrs@[i as int].1@));
        }
        collect_resource_refs(attrs.value_at(i), out);
        assert(ref_views(out@) =~= start + refs_in_entries(m.subrange(0, i + 1)));
    }
    assert(m.subrange(0, n as int) =~= m);
}

/// Adds the resources that the blocks in scope refer to.
fn collect_block_refs<'a>(
    blocks: &'a StrMap<Vec<StrMap<TfValue>>>,
    scope: RefScope,
    out: &mut Vec<TfRef<'a>>,
)
    ensures
        ref_views(final(out)@) == ref_views(old(out)@) + block_refs(
            crate::tf::parser::block_entries(blocks@),
            scope,
        ),
{
    let ghost start = ref_views(out@);
    let ghost m = crate::tf::parser::block_entries(blocks@);
    let n: usize = blocks.len();
    assert(ref_views(out@) =~= start + block_refs(m.subrange(0, 0), scope));
    for i in 0..n
        invariant
            n == blocks@.len(),
            m == crate::tf::parser::block_entries(blocks@),
            ref_views(out@) == start + block_refs(m.subrange(0, i as int), scope),
    {
        let list = blocks.value_at(i);
        let ghost s = crate::tf::parser::block_views(list@);
        let ghost before = ref_views(out@);
        proof {
            let now = m.subrange(0, i + 1);
            assert(now.drop_last() =~= m.subrange(0, i as int));
            assert(now.last() == (blocks@[i as int].0, s));
        }
        if admits_block(scope, blocks.key_at(i).as_str()) {
            assert(ref_views(out@) =~= before + body_refs(s.subrange(0, 0), scope));
            for k in 0..list.len()
                invariant
                    s == crate::tf::parser::block_views(list@),
                    ref_views(out@) == before + body_refs(s.subrange(0, k as int), scope),
            {
                proof {
                    let now = s.subrange(0, k + 1);
                    assert(now.drop_last() =~= s.subrange(0, k as int));
                    assert(now.last() == crate::tf::parser::tf_entries(list@[k as int]@));
                }
                let admitted = match scope {
                    RefScope::Notification => block_has_object_created_event(&list[k]),
                    RefScope::Runtime => true,
                };
                if admitted {
                    collect_entry_refs(&list[k], out);
                }
                assert(ref_views(out@) =~= before + body_refs(s.subrange(0, k + 1), scope));
            }
            assert(s.subrange(0, list@.len() as int) =~= s);
        }
        assert(ref_views(out@) =~= start + block_refs(m.subrange(0, i + 1), scope));
    }
    assert(m.subrange(0, n as int) =~= m);
}

/// How a resource that refers to another drives it. Only functions drive
/// others: what they store in or publish to, and what they invoke.
fn classify_connection(source_type: &str, target_type: &str) -> (r: Option<ConnectionType>)
    ensures
        r == edge_type(source_type@, target_type@),
{
    if !text_eq(source_type, "aws_lambda_function") {
        return None;
    }
    if text_eq(target_type, "aws_dynamodb_table") || text_eq(target_type, "aws_s3_bucket")
        || text_eq(target_type, "aws_sqs_queue") || text_eq(target_type, "aws_sns_topic") {
        return Some(ConnectionType::DataFlow);
    }
    if text_eq(target_type, "aws_sfn_state_machine") || text_eq(
        target_type,
        "aws_lambda_function",
    ) {
        return Some(ConnectionType::Invocation);
    }
    None
}

/// The resource that an attribute refers to.
fn find_attr_ref<'a>(attrs: &'a StrMap<TfValue>, key: &str) -> (r: Option<TfRef<'a>>)
    ensures
        attr_ref(crate::tf::parser::tf_entries(attrs@), key@) == match r {
            Some(x) => Some(ref_view(x)),
            None => None,
        },
{
    match tf_get(attrs, key) {
        Some(TfValue::ResourceRef { resource_type, name, .. }) => Some(
            TfRef { resource_type: resource_type.as_str(), name: name.as_str() },
        ),
        _ => None,
    }
}

/// The connection between the resources that two attributes refer to.
fn connect_attrs(
    attrs: &StrMap<TfValue>,
    source: &str,
    target: &str,
    kind: ConnectionType,
) -> (r: Vec<Connection>)
    ensures
        crate::arch::connection_views(r@) == edge_between(
            attr_ref(crate::tf::parser::tf_entries(attrs@), source@),
            attr_ref(crate::tf::parser::tf_entries(attrs@), target@),
            kind,
        ),
{
    let mut out: Vec<Connection> = Vec::new();
    if let (Some(s), Some(t)) = (find_attr_ref(attrs, source), find_attr_ref(attrs, target)) {
        let source_id = logical_id_for(s.resource_type, s.name);
        let target_id = logical_id_for(t.resource_type, t.name);
        out.push(simple_connection(source_id.as_str(), target_id.as_str(), kind));
    }
    assert(crate::arch::connection_views(out@) =~= edge_between(
        attr_ref(crate::tf::parser::tf_entries(attrs@), source@),
        attr_ref(crate::tf::parser::tf_entries(attrs@), target@),
        kind,
    ));
    out
}

/// Whether a subscription invokes a resource.
fn subscribes_runtime(attrs: &StrMap<TfValue>) -> (r: bool)
    ensures
        r == is_runtime_protocol(
            crate::strmap::lookup(crate::tf::parser::tf_entries(attrs@), "protocol"@),
        ),
{
    match tf_get(attrs, "protocol") {
        Some(TfValue::String(s)) => text_eq(s.as_str(), "lambda") || text_eq(s.as_str(), "sqs"),
        _ => false,
    }
}

/// The connections that a bucket notification stands for.
fn notification_connections(resource: &TfResource) -> (r: Vec<Connection>)
    ensures
        crate::arch::connection_views(r@) == match attr_ref(resource@.attrs, "bucket"@) {
            Some(bucket) => edges_to(
                ref_id(bucket),
                block_refs(resource@.blocks, RefScope::Notification) + attr_refs(
                    resource@.attrs,
                    RefScope::Notification,
                ),
                ConnectionType::Notification,
            ),
            None => Seq::empty(),
        },
{
    let mut out: Vec<Connection> = Vec::new();
    assert(crate::arch::connection_views(out@) =~= Seq::empty());
    let bucket = match find_attr_ref(&resource.attrs, "bucket") {
        Some(b) => b,
        None => {
            return out;
        },
    };
    let bucket_id = logical_id_for(bucket.resource_type, bucket.name);
    let mut targets: Vec<TfRef> = Vec::new();
    assert(ref_views(targets@) =~= Seq::empty());
    collect_block_refs(&resource.blocks, RefScope::Notification, &mut targets);
    collect_attr_refs(&resource.attrs, RefScope::Notification, &mut targets);
    let ghost tv = ref_views(targets@);
    assert(tv =~= block_refs(resource@.blocks, RefScope::Notification) + attr_refs(
        resource@.attrs,
        RefScope::Notification,
    ));
    let ghost all = edges_to(bucket_id@, tv, ConnectionType::Notification);
    for i in 0..targets.len()
        invariant
            tv == ref_views(targets@),
            all == edges_to(bucket_id@, tv, ConnectionType::Notification),
            crate::arch::connection_views(out@) == all.subrange(0, i as int),
    {
        let ghost before = out@;
        let id = logical_id_for(targets[i].resource_type, targets[i].name);
        let c = simple_connection(bucket_id.as_str(), id.as_str(), ConnectionType::Notification);
        out.push(c);
        proof {
            assert(tv[i as int] == ref_view(targets@[i as int]));
            assert(c@ == all[i as int]);
            assert(crate::arch::connection_views(out@) =~= crate::arch::connection_views(
                before,
            ).push(c@));
            assert(all.subrange(0, i + 1) =~= all.subrange(0, i as int).push(all[i as int]));
        }
    }
    assert(all.subrange(0, targets@.len() as int) =~= all);
    out
}

/// The connections that a resource has by referring to others.
fn runtime_connections(resource: &TfResource) -> (r: Vec<Connection>)
    ensures
        crate::arch::connection_views(r@) == runtime_edges(
            tf_logical_id(resource@.resource_type, resource@.name),
            resource@.resource_type,
            attr_refs(resource@.attrs, RefScope::Runtime) + block_refs(
                resource@.blocks,
                RefScope::Runtime,
            ),
        ),
{
    let source_type = resource.resource_type.as_str();
    let source_id = logical_id_for(source_type, resource.name.as_str());
    let mut targets: Vec<TfRef> = Vec::new();
    assert(ref_views(targets@) =~= Seq::empty());
    collect_attr_refs(&resource.attrs, RefScope::Runtime, &mut targets);
    collect_block_refs(&resource.blocks, RefScope::Runtime, &mut targets);
    let ghost tv = ref_views(targets@);
    assert(tv =~= attr_refs(resource@.attrs, RefScope::Runtime) + block_refs(
        resource@.blocks,
        RefScope::Runtime,
    ));
    let mut out: Vec<Connection> = Vec::new();
    assert(crate::arch::connection_views(out@) =~= Seq::empty());
    for i in 0..targets.len()
        invariant
            tv == ref_views(targets@),
            crate::arch::connection_views(out@) == runtime_edges(
                source_id@,
                source_type@,
                tv.subrange(0, i as int),
            ),
    {
        let ghost before = out@;
        proof {
            let now = tv.subrange(0, i + 1);
            assert(now.drop_last() =~= tv.subrange(0, i as int));
            assert(now.last() == ref_view(targets@[i as int]));
        }
        if let Some(kind) = classify_connection(source_type, targets[i].resource_type) {
            let id = logical_id_for(targets[i].resource_type, targets[i].name);
            let c = simple_connection(source_id.as_str(), id.as_str(), kind);
            out.push(c);
            assert(crate::arch::connection_views(out@) =~= crate::arch::connection_views(
                before,
            ).push(c@));
        }
    }
    assert(tv.subrange(0, targets@.len() as int) =~= tv);
    out
}

/// The connections that a resource stands for.
fn resource_connections(resource: &TfResource) -> (r: Vec<Connection>)
    ensures
        crate::arch::connection_views(r@) == resource_edges(resource@),
{
    let t = resource.resource_type.as_str();
    if text_eq(t, "aws_lambda_event_source_mapping") {
        connect_attrs(
            &resource.attrs,
            "event_source_arn",
            "function_name",
            ConnectionType::EventSource,
        )
    } else if text_eq(t, "aws_sns_topic_subscription") {
        if subscribes_runtime(&resource.attrs) {
            connect_attrs(&resource.attrs, "topic_arn", "endpoint", ConnectionType::Notification)
        } else {
            let none: Vec<Connection> = Vec::new();
            assert(crate::arch::connection_views(none@) =~= Seq::empty());
            none
        }
    } else if text_eq(t, "aws_s3_bucket_notification") {
        notification_connections(resource)
    } else {
        runtime_connections(resource)
    }
}

/// Whether a node has the given logical ID.
fn has_node(resources: &Vec<Resource>, id: &str) -> (r: bool)
    ensures
        r == is_node(crate::arch::node_views(resources@), id@),
{
    let ghost nodes = crate::arch::node_views(resources@);
    for i in 0..resources.len()
        invariant
            nodes == crate::arch::node_views(resources@),
            forall|j: int| 0 <= j < i ==> (#[trigger] nodes[j]).logical_id != id@,
    {
        if text_eq(resources[i].logical_id.as_str(), id) {
            assert(nodes[i as int].logical_id == id@);
            return true;
        }
        assert(nodes[i as int].logical_id == resources@[i as int].logical_id@);
    }
    false
}

/// The connections between the nodes of a configuration, each edge once. A
/// connection that would lead from or to something that is no node is left
/// out.
pub fn build_connections(tf_resources: &Vec<TfResource>, resources: &Vec<Resource>) -> (r: Vec<
    Connection,
>)
    ensures
        crate::arch::connection_views(r@) == connections_of(
            crate::tf::parser::tf_resources(tf_resources@),
            crate::arch::node_views(resources@),
        ),
{
    let ghost rs = crate::tf::parser::tf_resources(tf_resources@);
    let ghost nodes = crate::arch::node_views(resources@);
    let mut dedupe = ConnectionDeduper::new();
    for i in 0..tf_resources.len()
        invariant
            rs == crate::tf::parser::tf_resources(tf_resources@),
            nodes == crate::arch::node_views(resources@),
            dedupe@ == connections_of(rs.subrange(0, i as int), nodes),
    {
        proof {
            let now = rs.subrange(0, i + 1);
            assert(now.drop_last() =~= rs.subrange(0, i as int));
            assert(now.last() == tf_resources@[i as int]@);
        }
        let mut edges = resource_connections(&tf_resources[i]);
        let ghost ev = crate::arch::connection_views(edges@);
        let ghost before = dedupe@;
        let n: usize = edges.len();
        for k in 0..n
            invariant
                nodes == crate::arch::node_views(resources@),
                n == ev.len(),
                edges@.len() == n - k,
                forall|j: int| 0 <= j < edges@.len() ==> (#[trigger] edges@[j])@ == ev[k + j],
                dedupe@ == offered_edges(before, ev.subrange(0, k as int), nodes),
        {
            let ghost held = edges@;
            let c = edges.remove(0);
            proof {
                assert(c == held[0]);
                assert forall|j: int| 0 <= j < edges@.len() implies (#[trigger] edges@[j])@
                    == ev[k + 1 + j] by {
                    assert(edges@[j] == held[j + 1]);
                }
                let now = ev.subrange(0, k + 1);
                assert(now.drop_last() =~= ev.subrange(0, k as int));
                assert(now.last() == c@);
            }
            let source = has_node(resources, c.source.as_str());
            let target = has_node(resources, c.target.as_str());
            dedupe.try_push(c, source, target);
        }
        assert(ev.subrange(0, n as int) =~= ev);
    }
    assert(rs.subrange(0, tf_resources@.len() as int) =~= rs);
    dedupe.into_connections()
}

// ---------------------------------------------------------------------------
// Architectures
// ---------------------------------------------------------------------------

/// The architecture that a resolved configuration becomes. A resource without
/// an adapter, or whose adapter fails, is an unsupported one.
pub fn build_architecture(
    name: &str,
    region: &str,
    resolved: &ResolvedConfig,
    adapters: &TfAdapterRegistry,
) -> (r: Architecture)
    ensures
        r@ == architecture_of(name@, region@, resolved@, *adapters),
{
    let ghost rs = resolved@.resources;
    let ghost nodes = nodes_of(rs, *adapters);
    let mut resources: Vec<Resource> = Vec::new();
    assert(crate::arch::node_views(resources@) =~= nodes.subrange(0, 0));
    for i in 0..resolved.resources.len()
        invariant
            rs == resolved@.resources,
            nodes == nodes_of(rs, *adapters),
            crate::arch::node_views(resources@) == nodes.subrange(0, i as int),
    {
        let resource = &resolved.resources[i];
        let id = logical_id_for(resource.resource_type.as_str(), resource.name.as_str());
        let raw = tf_resource_to_raw(resource, id.as_str());
        let shell = match adapters.convert(&raw) {
            Some(Ok(s)) => s,
            _ => ResourceShell::other(resource.resource_type.as_str()),
        };
        let node = Resource {
            logical_id: LogicalId::new(id.as_str()),
            resource_type: ResourceType::new(resource.resource_type.as_str()),
            shell,
            group: None,
        };
        let ghost before = resources@;
        resources.push(node);
        proof {
            assert(rs[i as int] == resource@);
            assert(node@ == nodes[i as int]);
            assert(crate::arch::node_views(resources@) =~= crate::arch::node_views(before).push(
                node@,
            ));
            assert(nodes.subrange(0, i + 1) =~= nodes.subrange(0, i as int).push(nodes[i as int]));
        }
    }
    assert(nodes.subrange(0, resolved.resources@.len() as int) =~= nodes);
    let connections = build_connections(&resolved.resources, &resources);
    Architecture { name: name.to_owned(), region: Region::new(region), resources, connections }
}

// ---------------------------------------------------------------------------
// Laws
// ---------------------------------------------------------------------------

/// Every connection leads from a node to a node.
pub open spec fn ends_are_nodes(s: Seq<ConnectionView>, nodes: Seq<NodeView>) -> bool {
    forall|i: int|
        0 <= i < s.len() ==> is_node(nodes, (#[trigger] s[i]).source) && is_node(
            nodes,
            s[i].target,
        )
}

proof fn lemma_offered_edges(
    s: Seq<ConnectionView>,
    more: Seq<ConnectionView>,
    nodes: Seq<NodeView>,
)
    requires
        crate::arch::edges_distinct(s),
        ends_are_nodes(s, nodes),
    ensures
        crate::arch::edges_distinct(offered_edges(s, more, nodes)),
        ends_are_nodes(offered_edges(s, more, nodes), nodes),
    decreases more.len(),
{
    if more.len() > 0 {
        lemma_offered_edges(s, more.drop_last(), nodes);
    }
}

/// No two connections of a configuration have the same edge, and each leads
/// from a node to a node.
pub proof fn law_connections_are_sound(rs: Seq<TfResourceView>, nodes: Seq<NodeView>)
    ensures
        crate::arch::edges_distinct(connections_of(rs, nodes)),
        ends_are_nodes(connections_of(rs, nodes), nodes),
    decreases rs.len(),
{
    if rs.len() > 0 {
        law_connections_are_sound(rs.drop_last(), nodes);
        lemma_offered_edges(
            connections_of(rs.drop_last(), nodes),
            resource_edges(rs.last()),
            nodes,
        );
    }
}

/// What an adapter is given holds no attribute that is a reference to a
/// variable or a local or unknown.
pub proof fn law_unresolved_attributes_are_left_out(
    r: TfResourceView,
    logical_id: Seq<char>,
    key: Seq<char>,
)
    requires
        crate::strmap::keys_rise(r.attrs),
        crate::strmap::lookup(r.attrs, key) matches Some(v) && (v is VarRef || v is LocalRef || v
            is Unknown),
    ensures
        crate::strmap::lookup(raw_of(r, logical_id).attrs, key) is None,
{
    lemma_properties(r.attrs, key);
}

pub proof fn lemma_properties(m: TfEntries, key: Seq<char>)
    requires
        crate::strmap::keys_rise(m),
    ensures
        crate::strmap::lookup(properties_of(m), key) == match crate::strmap::lookup(m, key) {
            Some(v) => property_of(v),
            None => None,
        },
    decreases m.len(),
{
    if m.len() > 0 {
        let before = m.drop_last();
        assert(crate::strmap::keys_rise(before));
        lemma_properties(before, key);
        crate::strmap::lemma_lookup_sorted(m, m.len() - 1);
        crate::strmap::lemma_lookup(before, key);
        crate::strmap::lemma_lookup(m, key);
        if let Some(p) = property_of(m.last().1) {
            crate::strmap::lemma_lookup_inserted(
                properties_of(before),
                m.last().0,
                p,
                key,
            );
        }
        if key == m.last().0 {
            if crate::strmap::lookup(before, key) is Some {
                let i = choose|i: int| 0 <= i < before.len() && (#[trigger] before[i]).0 == key;
                crate::text::lemma_text_lt_irreflexive(key);
                assert(crate::text::text_lt(m[i].0, m[m.len() - 1].0));
            }
        } else {
            match crate::strmap::lookup(before, key) {
                Some(v) => {
                    let i = choose|i: int|
                        0 <= i < before.len() && (#[trigger] before[i]).0 == key && before[i].1
                            == v;
                    assert(m[i] == before[i]);
                    crate::strmap::lemma_lookup_sorted(m, i);
                },
                None => {
                    if crate::strmap::lookup(m, key) is Some {
                        let i = choose|i: int| 0 <= i < m.len() && (#[trigger] m[i]).0 == key;
                        assert(before[i].0 == key);
                    }
                },
            }
        }
    }
}

} // verus!
