//! From resolved templates to architectures.

use vstd::prelude::*;

use crate::arch::simple_connection;
use crate::arch::Architecture;
use crate::arch::ArchitectureView;
use crate::arch::Connection;
use crate::arch::ConnectionDeduper;
use crate::arch::ConnectionType;
use crate::arch::ConnectionView;
use crate::arch::LogicalId;
use crate::arch::NodeView;
use crate::arch::Region;
use crate::arch::Resource;
use crate::arch::ResourceShell;
use crate::arch::ResourceType;
use crate::arch::ShellView;
use crate::cfn::parser::ResolvedEntries;
use crate::cfn::parser::ResolvedResource;
use crate::cfn::parser::ResolvedTemplate;
use crate::cfn::parser::ResourceView;
use crate::cfn::resolved::render_getatt;
use crate::cfn::resolved::render_parts;
use crate::cfn::resolved::render_ref;
use crate::cfn::resolved::PartView;
use crate::cfn::resolved::Reference;
use crate::cfn::resolved::ResolvedValue;
use crate::cfn::resolved::ResolvedView;
use crate::cfn::resolved::StringPart;
use crate::cfn::sentinel::RefView;
use crate::iac::CfnAdapterRegistry;
use crate::iac::IacPropertyValue;
use crate::iac::PropertyView;
use crate::iac::RawCfnResource;
use crate::iac::RawCfnView;
use crate::json::Json;
use crate::json::JsonView;
use crate::strmap::vec_insert;
use crate::strmap::StrMap;
use crate::text::chars_of;
use crate::text::contains;
use crate::text::starts_with;
use crate::text::text_eq;
use crate::text::text_of;
use crate::text::writes_float;
use crate::yaml::unresolved_text;
use crate::yaml::Number;
use crate::yaml::NumberView;
use crate::yaml::Yaml;
use crate::yaml::YamlView;

verus! {

// ---------------------------------------------------------------------------
// References and numbers: models
// ---------------------------------------------------------------------------

/// A template has a resource with the given logical ID.
pub open spec fn declares(rs: ResolvedEntries, id: Seq<char>) -> bool {
    crate::strmap::lookup(rs, id) is Some
}

/// The connections from `source` to each reference.
pub open spec fn edges_to(
    source: Seq<char>,
    refs: Seq<RefView>,
    kind: ConnectionType,
) -> Seq<ConnectionView> {
    refs.map_values(|r: RefView| crate::arch::plain_connection(source, r.logical_id, kind))
}

/// The references that the value under `key` carries.
pub open spec fn refs_under(v: ResolvedView, key: Seq<char>) -> Seq<RefView> {
    match crate::cfn::resolved::resolved_get(v, key) {
        Some(x) => crate::cfn::resolved::resolved_refs(x),
        None => Seq::empty(),
    }
}

/// The text of the string under `key`.
pub open spec fn text_under(v: ResolvedView, key: Seq<char>) -> Option<Seq<char>> {
    match crate::cfn::resolved::resolved_get(v, key) {
        Some(x) => crate::cfn::resolved::resolved_str(x),
        None => None,
    }
}

/// The elements of the sequence under `key`, none where there is no sequence.
pub open spec fn items_under(v: ResolvedView, key: Seq<char>) -> Seq<ResolvedView> {
    match crate::cfn::resolved::resolved_get(v, key) {
        Some(x) => match crate::cfn::resolved::resolved_items(x) {
            Some(s) => s,
            None => Seq::empty(),
        },
        None => Seq::empty(),
    }
}

/// The number under `key`: a number, or a text that writes one.
pub open spec fn number_under(v: ResolvedView, key: Seq<char>) -> Option<NumberView> {
    match crate::cfn::resolved::resolved_get(v, key) {
        Some(ResolvedView::Concrete(YamlView::Number(n))) => Some(n),
        Some(ResolvedView::Concrete(YamlView::String(s))) => if crate::text::is_float_text(s) {
            Some(NumberView::Float(s))
        } else {
            None
        },
        _ => None,
    }
}

// ---------------------------------------------------------------------------
// Event source mappings: models
// ---------------------------------------------------------------------------

/// What follows the last `:` of `s`.
pub open spec fn last_segment(s: Seq<char>) -> Seq<char>
    decreases s.len(),
{
    if s.len() == 0 || s.last() == ':' {
        Seq::empty()
    } else {
        last_segment(s.drop_last()).push(s.last())
    }
}

/// The kind of event source that a resource is, by its type.
pub open spec fn source_kind(resource_type: Seq<char>) -> Option<Seq<char>> {
    if resource_type == "AWS::SQS::Queue"@ {
        Some("sqs"@)
    } else if resource_type == "AWS::Kinesis::Stream"@ {
        Some("kinesis"@)
    } else if resource_type == "AWS::DynamoDB::Table"@ {
        Some("dynamodb"@)
    } else {
        None
    }
}

/// The kind of event source that a logical ID names.
pub open spec fn declared_kind(id: Seq<char>, rs: ResolvedEntries) -> Option<Seq<char>> {
    match crate::strmap::lookup(rs, id) {
        Some(r) => source_kind(r.resource_type),
        None => None,
    }
}

/// The functions that an event source mapping drives: every reference in
/// `FunctionName`, or else its text.
pub open spec fn mapping_targets(props: ResolvedView) -> Seq<Seq<char>> {
    match crate::cfn::resolved::resolved_get(props, "FunctionName"@) {
        None => Seq::empty(),
        Some(v) => {
            let refs = crate::cfn::resolved::resolved_refs(v);
            if refs.len() > 0 {
                refs.map_values(|r: RefView| r.logical_id)
            } else {
                match crate::cfn::resolved::resolved_str(v) {
                    Some(s) => seq![s],
                    None => Seq::empty(),
                }
            }
        },
    }
}

/// The references that name an event source, with its kind.
pub open spec fn declared_sources(refs: Seq<RefView>, rs: ResolvedEntries) -> Seq<
    (Seq<char>, Seq<char>),
>
    decreases refs.len(),
{
    if refs.len() == 0 {
        Seq::empty()
    } else {
        let rest = declared_sources(refs.drop_last(), rs);
        match declared_kind(refs.last().logical_id, rs) {
            Some(k) => rest.push((refs.last().logical_id, k)),
            None => rest,
        }
    }
}

/// The event source that a literal ARN names, with its kind.
pub open spec fn arn_source(s: Seq<char>) -> Seq<(Seq<char>, Seq<char>)> {
    if crate::text::contains_text(s, ":sqs:"@) {
        seq![(last_segment(s), "sqs"@)]
    } else if crate::text::contains_text(s, ":kinesis:"@) {
        seq![(last_segment(s), "kinesis"@)]
    } else if crate::text::contains_text(s, ":dynamodb:"@) && crate::text::contains_text(
        s,
        "/stream/"@,
    ) {
        seq![(last_segment(s), "dynamodb"@)]
    } else {
        Seq::empty()
    }
}

/// The event sources of a mapping, with their kinds: every reference in
/// `EventSourceArn` that names one, or else what its literal ARN names.
pub open spec fn mapping_sources(props: ResolvedView, rs: ResolvedEntries) -> Seq<
    (Seq<char>, Seq<char>),
> {
    match crate::cfn::resolved::resolved_get(props, "EventSourceArn"@) {
        None => Seq::empty(),
        Some(v) => {
            let refs = crate::cfn::resolved::resolved_refs(v);
            if refs.len() > 0 {
                declared_sources(refs, rs)
            } else {
                match crate::cfn::resolved::resolved_str(v) {
                    Some(s) => arn_source(s),
                    None => Seq::empty(),
                }
            }
        },
    }
}

/// The connection that an event source mapping makes between one source and
/// one target.
pub open spec fn mapping_edge(
    props: ResolvedView,
    source: (Seq<char>, Seq<char>),
    target: Seq<char>,
) -> ConnectionView {
    ConnectionView {
        source: source.0,
        target,
        connection_type: ConnectionType::EventSource,
        batch_size: number_under(props, "BatchSize"@),
        parallelization_factor: number_under(props, "ParallelizationFactor"@),
        factor: None,
        source_hint: Some(source.1),
    }
}

/// The connections of an event source mapping: every source with every
/// target.
pub open spec fn mapping_edges_of(
    props: ResolvedView,
    sources: Seq<(Seq<char>, Seq<char>)>,
    targets: Seq<Seq<char>>,
) -> Seq<ConnectionView>
    decreases sources.len(),
{
    if sources.len() == 0 {
        Seq::empty()
    } else {
        mapping_edges_of(props, sources.drop_last(), targets) + targets.map_values(
            |t: Seq<char>| mapping_edge(props, sources.last(), t),
        )
    }
}

/// The connections of an event source mapping.
pub open spec fn mapping_edges(props: ResolvedView, rs: ResolvedEntries) -> Seq<ConnectionView> {
    mapping_edges_of(props, mapping_sources(props, rs), mapping_targets(props))
}

// ---------------------------------------------------------------------------
// Notifications and rules: models
// ---------------------------------------------------------------------------

/// A text names an `s3:ObjectCreated` event.
pub open spec fn names_object_created(s: Seq<char>) -> bool {
    crate::text::has_prefix(s, "s3:ObjectCreated"@)
}

/// A notification is about created objects.
pub open spec fn is_created_event(item: ResolvedView) -> bool {
    text_under(item, "Event"@) is Some && names_object_created(text_under(item, "Event"@)->Some_0)
}

/// The value under the first of two keys that has one.
pub open spec fn first_under(item: ResolvedView, a: Seq<char>, b: Seq<char>) -> Option<
    ResolvedView,
> {
    match crate::cfn::resolved::resolved_get(item, a) {
        Some(v) => Some(v),
        None => crate::cfn::resolved::resolved_get(item, b),
    }
}

/// The connections of one notification.
pub open spec fn s3_item_edges(
    bucket: Seq<char>,
    item: ResolvedView,
    a: Seq<char>,
    b: Seq<char>,
) -> Seq<ConnectionView> {
    if is_created_event(item) {
        match first_under(item, a, b) {
            Some(v) => edges_to(
                bucket,
                crate::cfn::resolved::resolved_refs(v),
                ConnectionType::Notification,
            ),
            None => Seq::empty(),
        }
    } else {
        Seq::empty()
    }
}

/// The connections of a list of notifications.
pub open spec fn s3_list_edges(
    bucket: Seq<char>,
    items: Seq<ResolvedView>,
    a: Seq<char>,
    b: Seq<char>,
) -> Seq<ConnectionView>
    decreases items.len(),
{
    if items.len() == 0 {
        Seq::empty()
    } else {
        s3_list_edges(bucket, items.drop_last(), a, b) + s3_item_edges(bucket, items.last(), a, b)
    }
}

/// The connections of a bucket's notification configuration.
pub open spec fn s3_edges(bucket: Seq<char>, props: ResolvedView) -> Seq<ConnectionView> {
    match crate::cfn::resolved::resolved_get(props, "NotificationConfiguration"@) {
        None => Seq::empty(),
        Some(n) => s3_list_edges(
            bucket,
            items_under(n, "LambdaConfigurations"@),
            "Function"@,
            "LambdaFunctionArn"@,
        ) + s3_list_edges(
            bucket,
            items_under(n, "LambdaFunctionConfigurations"@),
            "Function"@,
            "LambdaFunctionArn"@,
        ) + s3_list_edges(bucket, items_under(n, "QueueConfigurations"@), "Queue"@, "QueueArn"@)
            + s3_list_edges(bucket, items_under(n, "TopicConfigurations"@), "Topic"@, "TopicArn"@),
    }
}

/// A subscription delivers to a resource at run time.
pub open spec fn is_runtime_protocol(v: ResolvedView) -> bool {
    text_under(v, "Protocol"@) == Some("lambda"@) || text_under(v, "Protocol"@) == Some("sqs"@)
}

/// The connections of a topic's inline subscriptions.
pub open spec fn topic_edges(topic: Seq<char>, subs: Seq<ResolvedView>) -> Seq<ConnectionView>
    decreases subs.len(),
{
    if subs.len() == 0 {
        Seq::empty()
    } else {
        topic_edges(topic, subs.drop_last()) + if is_runtime_protocol(subs.last()) {
            edges_to(topic, refs_under(subs.last(), "Endpoint"@), ConnectionType::Notification)
        } else {
            Seq::empty()
        }
    }
}

/// The connections from every reference of `sources` to every one of
/// `targets`.
pub open spec fn all_pairs(
    sources: Seq<RefView>,
    targets: Seq<RefView>,
    kind: ConnectionType,
) -> Seq<ConnectionView>
    decreases sources.len(),
{
    if sources.len() == 0 {
        Seq::empty()
    } else {
        all_pairs(sources.drop_last(), targets, kind) + edges_to(
            sources.last().logical_id,
            targets,
            kind,
        )
    }
}

/// The connections of a standalone subscription.
pub open spec fn subscription_edges(props: ResolvedView) -> Seq<ConnectionView> {
    if is_runtime_protocol(props) {
        all_pairs(
            refs_under(props, "TopicArn"@),
            refs_under(props, "Endpoint"@),
            ConnectionType::Notification,
        )
    } else {
        Seq::empty()
    }
}

/// The connections of a rule's targets.
pub open spec fn rule_edges(rule: Seq<char>, targets: Seq<ResolvedView>) -> Seq<ConnectionView>
    decreases targets.len(),
{
    if targets.len() == 0 {
        Seq::empty()
    } else {
        rule_edges(rule, targets.drop_last()) + edges_to(
            rule,
            refs_under(targets.last(), "Arn"@),
            ConnectionType::Invocation,
        )
    }
}

// ---------------------------------------------------------------------------
// Serverless functions: models
// ---------------------------------------------------------------------------

/// Some element is a text that names an `s3:ObjectCreated` event.
pub open spec fn some_created(items: Seq<ResolvedView>) -> bool {
    exists|i: int|
        0 <= i < items.len() && crate::cfn::resolved::resolved_str(
            #[trigger] items[i],
        ) is Some && names_object_created(crate::cfn::resolved::resolved_str(items[i])->Some_0)
}

/// The `Events` of an S3 event, a text or a list of texts, name an
/// `s3:ObjectCreated` event.
pub open spec fn sam_created(event_props: ResolvedView) -> bool {
    match crate::cfn::resolved::resolved_get(event_props, "Events"@) {
        None => false,
        Some(v) => match crate::cfn::resolved::resolved_str(v) {
            Some(s) => names_object_created(s),
            None => match crate::cfn::resolved::resolved_items(v) {
                Some(items) => some_created(items),
                None => false,
            },
        },
    }
}

/// The notifications from each declared bucket to a function.
pub open spec fn bucket_edges(
    refs: Seq<RefView>,
    function: Seq<char>,
    rs: ResolvedEntries,
) -> Seq<ConnectionView>
    decreases refs.len(),
{
    if refs.len() == 0 {
        Seq::empty()
    } else {
        let rest = bucket_edges(refs.drop_last(), function, rs);
        if declares(rs, refs.last().logical_id) {
            rest.push(
                crate::arch::plain_connection(
                    refs.last().logical_id,
                    function,
                    ConnectionType::Notification,
                ),
            )
        } else {
            rest
        }
    }
}

/// The property that names the source of an event, and the type that the
/// source must have.
pub open spec fn sam_source(event_type: Seq<char>) -> Option<(Seq<char>, Seq<char>)> {
    if event_type == "SQS"@ {
        Some(("Queue"@, "AWS::SQS::Queue"@))
    } else if event_type == "Kinesis"@ {
        Some(("Stream"@, "AWS::Kinesis::Stream"@))
    } else if event_type == "DynamoDB"@ {
        Some(("Stream"@, "AWS::DynamoDB::Table"@))
    } else {
        None
    }
}

/// A template declares a resource of the given type.
pub open spec fn declares_type(rs: ResolvedEntries, id: Seq<char>, resource_type: Seq<char>) -> bool {
    match crate::strmap::lookup(rs, id) {
        Some(r) => r.resource_type == resource_type,
        None => false,
    }
}

/// The event sources of a function: each reference to a resource of the
/// expected type.
pub open spec fn stream_edges(
    refs: Seq<RefView>,
    function: Seq<char>,
    event_props: ResolvedView,
    expected: Seq<char>,
    rs: ResolvedEntries,
) -> Seq<ConnectionView>
    decreases refs.len(),
{
    if refs.len() == 0 {
        Seq::empty()
    } else {
        let rest = stream_edges(refs.drop_last(), function, event_props, expected, rs);
        if declares_type(rs, refs.last().logical_id, expected) {
            rest.push(
                ConnectionView {
                    source: refs.last().logical_id,
                    target: function,
                    connection_type: ConnectionType::EventSource,
                    batch_size: number_under(event_props, "BatchSize"@),
                    parallelization_factor: number_under(event_props, "ParallelizationFactor"@),
                    factor: None,
                    source_hint: None,
                },
            )
        } else {
            rest
        }
    }
}

/// The connections of one event of a function.
pub open spec fn sam_event_edges(function: Seq<char>, event: ResolvedView, rs: ResolvedEntries) -> Seq<
    ConnectionView,
> {
    match (text_under(event, "Type"@), crate::cfn::resolved::resolved_get(event, "Properties"@)) {
        (Some(t), Some(props)) => if t == "S3"@ {
            if sam_created(props) {
                bucket_edges(refs_under(props, "Bucket"@), function, rs)
            } else {
                Seq::empty()
            }
        } else {
            match sam_source(t) {
                Some((key, expected)) => stream_edges(
                    refs_under(props, key),
                    function,
                    props,
                    expected,
                    rs,
                ),
                None => Seq::empty(),
            }
        },
        _ => Seq::empty(),
    }
}

/// The connections of the events of a function.
pub open spec fn sam_events_edges(
    function: Seq<char>,
    events: Seq<(Seq<char>, ResolvedView)>,
    rs: ResolvedEntries,
) -> Seq<ConnectionView>
    decreases events.len(),
{
    if events.len() == 0 {
        Seq::empty()
    } else {
        sam_events_edges(function, events.drop_last(), rs) + sam_event_edges(
            function,
            events.last().1,
            rs,
        )
    }
}

/// The connections of a serverless function.
pub open spec fn sam_edges(function: Seq<char>, props: ResolvedView, rs: ResolvedEntries) -> Seq<
    ConnectionView,
> {
    match crate::cfn::resolved::resolved_get(props, "Events"@) {
        Some(ResolvedView::Mapping(events)) => sam_events_edges(function, events, rs),
        _ => Seq::empty(),
    }
}

// ---------------------------------------------------------------------------
// Connections: models
// ---------------------------------------------------------------------------

/// The connections that a resource makes, by its type.
pub open spec fn resource_edges(
    id: Seq<char>,
    r: ResourceView<ResolvedView>,
    rs: ResolvedEntries,
) -> Seq<ConnectionView> {
    if r.resource_type == "AWS::Lambda::EventSourceMapping"@ {
        mapping_edges(r.properties, rs)
    } else if r.resource_type == "AWS::S3::Bucket"@ {
        s3_edges(id, r.properties)
    } else if r.resource_type == "AWS::SNS::Topic"@ {
        topic_edges(id, items_under(r.properties, "Subscription"@))
    } else if r.resource_type == "AWS::SNS::Subscription"@ {
        subscription_edges(r.properties)
    } else if r.resource_type == "AWS::Events::Rule"@ {
        rule_edges(id, items_under(r.properties, "Targets"@))
    } else if r.resource_type == "AWS::Serverless::Function"@ {
        sam_edges(id, r.properties, rs)
    } else {
        Seq::empty()
    }
}

/// The source of a connection need not be declared: an event source mapping
/// may name one outside the template.
pub open spec fn source_is_free(resource_type: Seq<char>) -> bool {
    resource_type == "AWS::Lambda::EventSourceMapping"@
}

/// The connections after `more` were offered one after the other.
pub open spec fn offered_all(
    s: Seq<ConnectionView>,
    more: Seq<ConnectionView>,
    rs: ResolvedEntries,
    free: bool,
) -> Seq<ConnectionView>
    decreases more.len(),
{
    if more.len() == 0 {
        s
    } else {
        crate::arch::offered(
            offered_all(s, more.drop_last(), rs, free),
            more.last(),
            free || declares(rs, more.last().source),
            declares(rs, more.last().target),
        )
    }
}

/// The connections that the first resources of a template make.
pub open spec fn connections_of(done: ResolvedEntries, rs: ResolvedEntries) -> Seq<ConnectionView>
    decreases done.len(),
{
    if done.len() == 0 {
        Seq::empty()
    } else {
        offered_all(
            connections_of(done.drop_last(), rs),
            resource_edges(done.last().0, done.last().1, rs),
            rs,
            source_is_free(done.last().1.resource_type),
        )
    }
}

// ---------------------------------------------------------------------------
// Groups: models
// ---------------------------------------------------------------------------

/// The parent that a property names: its only reference, where that is
/// declared and not the resource itself.
pub open spec fn parent_under(r: ResourceView<ResolvedView>, key: Seq<char>, rs: ResolvedEntries) -> Option<
    Seq<char>,
> {
    let refs = refs_under(r.properties, key);
    if refs.len() == 1 && refs[0].logical_id != r.logical_id && declares(rs, refs[0].logical_id) {
        Some(refs[0].logical_id)
    } else {
        None
    }
}

/// The resource that contains a resource: the parent that the first of
/// `Cluster`, `ClusterName`, `SubnetId`, `VpcId` names that names one.
pub open spec fn group_of(r: ResourceView<ResolvedView>, rs: ResolvedEntries) -> Option<Seq<char>> {
    match parent_under(r, "Cluster"@, rs) {
        Some(g) => Some(g),
        None => match parent_under(r, "ClusterName"@, rs) {
            Some(g) => Some(g),
            None => match parent_under(r, "SubnetId"@, rs) {
                Some(g) => Some(g),
                None => parent_under(r, "VpcId"@, rs),
            },
        },
    }
}

// ---------------------------------------------------------------------------
// Properties: models
// ---------------------------------------------------------------------------

/// A text by which a YAML number that JSON cannot hold is written.
pub open spec fn is_special_float(t: Seq<char>) -> bool {
    t == ".nan"@ || t == ".inf"@ || t == "-.inf"@
}

/// The JSON that stands for a YAML value. Keys that are not strings are left
/// out, numbers that JSON cannot hold become null, and a tagged value becomes
/// the text of the value under the tag.
pub open spec fn json_of_yaml(v: YamlView) -> JsonView
    decreases v,
{
    match v {
        YamlView::Null => JsonView::Null,
        YamlView::Bool(b) => JsonView::Bool(b),
        YamlView::Number(n) => match n {
            NumberView::Float(t) => if is_special_float(t) {
                JsonView::Null
            } else {
                JsonView::Number(n)
            },
            _ => JsonView::Number(n),
        },
        YamlView::String(s) => JsonView::String(s),
        YamlView::Sequence(s) => JsonView::Array(jsons_of_yaml(s)),
        YamlView::Mapping(m) => JsonView::Object(object_of_yaml(m)),
        YamlView::Tagged(_, x) => JsonView::String(
            crate::yaml::debug_text(crate::yaml::rebuilt(*x)),
        ),
    }
}

/// The JSON that stands for each item.
pub open spec fn jsons_of_yaml(s: Seq<YamlView>) -> Seq<JsonView>
    decreases s,
{
    if s.len() == 0 {
        Seq::empty()
    } else {
        jsons_of_yaml(s.drop_last()).push(json_of_yaml(s.last()))
    }
}

/// The object that stands for the entries with string keys.
pub open spec fn object_of_yaml(m: Seq<(YamlView, YamlView)>) -> Seq<(Seq<char>, JsonView)>
    decreases m,
{
    if m.len() == 0 {
        Seq::empty()
    } else {
        let rest = object_of_yaml(m.drop_last());
        match crate::yaml::yaml_str(m.last().0) {
            Some(key) => crate::strmap::inserted(rest, key, json_of_yaml(m.last().1)),
            None => rest,
        }
    }
}

/// The JSON that stands for a resolved value, with references in the `${...}`
/// syntax.
pub open spec fn json_of(v: ResolvedView) -> JsonView
    decreases v,
{
    match v {
        ResolvedView::Concrete(y) => json_of_yaml(y),
        ResolvedView::Ref(id) => JsonView::String(crate::cfn::resolved::ref_text(id)),
        ResolvedView::GetAtt { logical_id, attr } => JsonView::String(
            crate::cfn::resolved::getatt_text(logical_id, attr),
        ),
        ResolvedView::Interpolated(parts) => JsonView::String(
            crate::cfn::resolved::parts_text(parts),
        ),
        ResolvedView::Sequence(s) => JsonView::Array(jsons_of(s)),
        ResolvedView::Mapping(m) => JsonView::Object(object_of(m)),
    }
}

/// The JSON that stands for each element.
pub open spec fn jsons_of(s: Seq<ResolvedView>) -> Seq<JsonView>
    decreases s,
{
    if s.len() == 0 {
        Seq::empty()
    } else {
        jsons_of(s.drop_last()).push(json_of(s.last()))
    }
}

/// The object that stands for the entries of a mapping.
pub open spec fn object_of(m: Seq<(Seq<char>, ResolvedView)>) -> Seq<(Seq<char>, JsonView)>
    decreases m,
{
    if m.len() == 0 {
        Seq::empty()
    } else {
        crate::strmap::inserted(object_of(m.drop_last()), m.last().0, json_of(m.last().1))
    }
}

/// The property that stands for a resolved value: a typed reference where the
/// value is one, and otherwise JSON.
pub open spec fn property_of(v: ResolvedView) -> PropertyView {
    match v {
        ResolvedView::Ref(id) => PropertyView::ResourceRef { logical_id: id },
        ResolvedView::GetAtt { logical_id, attr } => PropertyView::ResourceAttr {
            logical_id,
            attr,
        },
        ResolvedView::Interpolated(parts) => if parts.len() == 1 && parts[0] is Ref {
            PropertyView::ResourceRef { logical_id: parts[0]->Ref_0 }
        } else if parts.len() == 1 && parts[0] is GetAtt {
            PropertyView::ResourceAttr {
                logical_id: parts[0]->logical_id,
                attr: parts[0]->attr,
            }
        } else {
            PropertyView::Concrete(JsonView::String(crate::cfn::resolved::parts_text(parts)))
        },
        _ => PropertyView::Concrete(json_of(v)),
    }
}

/// The properties that stand for the entries of a mapping.
pub open spec fn properties_of_entries(m: Seq<(Seq<char>, ResolvedView)>) -> Seq<
    (Seq<char>, PropertyView),
>
    decreases m.len(),
{
    if m.len() == 0 {
        Seq::empty()
    } else {
        crate::strmap::inserted(
            properties_of_entries(m.drop_last()),
            m.last().0,
            property_of(m.last().1),
        )
    }
}

/// The properties that stand for the entries of a concrete mapping.
pub open spec fn properties_of_yaml(m: Seq<(YamlView, YamlView)>) -> Seq<(Seq<char>, PropertyView)>
    decreases m.len(),
{
    if m.len() == 0 {
        Seq::empty()
    } else {
        let rest = properties_of_yaml(m.drop_last());
        match crate::yaml::yaml_str(m.last().0) {
            Some(key) => crate::strmap::inserted(
                rest,
                key,
                PropertyView::Concrete(json_of_yaml(m.last().1)),
            ),
            None => rest,
        }
    }
}

/// The properties that stand for a resolved properties block.
pub open spec fn properties_of(v: ResolvedView) -> Seq<(Seq<char>, PropertyView)> {
    match v {
        ResolvedView::Mapping(m) => properties_of_entries(m),
        ResolvedView::Concrete(YamlView::Mapping(m)) => properties_of_yaml(m),
        _ => Seq::empty(),
    }
}

// ---------------------------------------------------------------------------
// Architectures: models
// ---------------------------------------------------------------------------

/// The raw resource that an adapter is given.
pub open spec fn raw_of(id: Seq<char>, r: ResourceView<ResolvedView>) -> RawCfnView {
    RawCfnView {
        logical_id: id,
        resource_type: r.resource_type,
        properties: properties_of(r.properties),
    }
}

/// The shell of a resource: what its adapter makes of it, and the shell of an
/// unsupported resource where it has no adapter or the adapter fails.
pub open spec fn shell_of(
    id: Seq<char>,
    r: ResourceView<ResolvedView>,
    adapters: CfnAdapterRegistry,
) -> ShellView {
    match adapters.registered(r.resource_type) {
        None => crate::arch::other_shell(r.resource_type),
        Some(a) => match a.adapter.converted(raw_of(id, r)) {
            Ok(s) => s,
            Err(_) => crate::arch::other_shell(r.resource_type),
        },
    }
}

/// The node of an architecture that a resource becomes.
pub open spec fn node_of(
    id: Seq<char>,
    r: ResourceView<ResolvedView>,
    rs: ResolvedEntries,
    adapters: CfnAdapterRegistry,
) -> NodeView {
    NodeView {
        logical_id: id,
        resource_type: r.resource_type,
        shell: shell_of(id, r, adapters),
        group: group_of(r, rs),
    }
}

/// The architecture that resolved resources become.
pub open spec fn architecture_of(
    name: Seq<char>,
    region: Seq<char>,
    rs: ResolvedEntries,
    adapters: CfnAdapterRegistry,
) -> ArchitectureView {
    ArchitectureView {
        name,
        region,
        resources: rs.map_values(
            |e: (Seq<char>, ResourceView<ResolvedView>)| node_of(e.0, e.1, rs, adapters),
        ),
        connections: connections_of(rs, rs),
    }
}

// ---------------------------------------------------------------------------
// References and numbers
// ---------------------------------------------------------------------------

/// The resource with the given logical ID.
fn find_resource<'a>(resources: &'a StrMap<ResolvedResource>, id: &str) -> (r: Option<
    &'a ResolvedResource,
>)
    ensures
        crate::strmap::lookup(crate::cfn::parser::resolved_map(*resources), id@) == match r {
            Some(x) => Some(crate::cfn::parser::resolved_resource_view(*x)),
            None => None,
        },
{
    proof {
        crate::strmap::lemma_lookup_mapped(
            resources@,
            |r: ResolvedResource| crate::cfn::parser::resolved_resource_view(r),
            id@,
        );
    }
    resources.get(id)
}

/// Whether a template has a resource with the given logical ID.
fn is_declared(resources: &StrMap<ResolvedResource>, id: &str) -> (r: bool)
    ensures
        r == declares(crate::cfn::parser::resolved_map(*resources), id@),
{
    find_resource(resources, id).is_some()
}

/// The references that the value under `key` carries.
fn references_under(v: &ResolvedValue, key: &str) -> (r: Vec<Reference>)
    ensures
        crate::cfn::resolved::ref_views(r@) == refs_under(v@, key@),
{
    match v.get(key) {
        Some(x) => x.references(),
        None => {
            let r: Vec<Reference> = Vec::new();
            assert(crate::cfn::resolved::ref_views(r@) =~= Seq::empty());
            r
        },
    }
}

/// The text of the string under `key`.
fn string_under<'a>(v: &'a ResolvedValue, key: &str) -> (r: Option<&'a str>)
    ensures
        crate::cfn::parser::opt_str(r) == text_under(v@, key@),
{
    match v.get(key) {
        Some(x) => x.as_str(),
        None => None,
    }
}

/// The number under `key`: a number, or a text that writes one.
pub fn get_resolved_number(props: &ResolvedValue, key: &str) -> (r: Option<Number>)
    ensures
        crate::arch::opt_number(r) == number_under(props@, key@),
{
    match props.get(key) {
        Some(ResolvedValue::Concrete(Yaml::Number(n))) => Some(n.clone()),
        Some(ResolvedValue::Concrete(Yaml::String(s))) => if writes_float(s.as_str()) {
            Some(Number::Float(s.clone()))
        } else {
            None
        },
        _ => None,
    }
}

/// Copies an optional number.
fn clone_number(n: &Option<Number>) -> (r: Option<Number>)
    ensures
        crate::arch::opt_number(r) == crate::arch::opt_number(*n),
{
    match n {
        Some(x) => Some(x.clone()),
        None => None,
    }
}

/// Appends a connection from `source` to each reference.
fn push_edges(conns: &mut Vec<Connection>, source: &str, refs: &Vec<Reference>, kind: ConnectionType)
    ensures
        crate::arch::connection_views(final(conns)@) == crate::arch::connection_views(old(conns)@)
            + edges_to(source@, crate::cfn::resolved::ref_views(refs@), kind),
{
    let ghost start = conns@;
    let ghost all = edges_to(source@, crate::cfn::resolved::ref_views(refs@), kind);
    assert(crate::arch::connection_views(start) + all.subrange(0, 0)
        =~= crate::arch::connection_views(start));
    for i in 0..refs.len()
        invariant
            all == edges_to(source@, crate::cfn::resolved::ref_views(refs@), kind),
            crate::arch::connection_views(conns@) == crate::arch::connection_views(start)
                + all.subrange(0, i as int),
    {
        let c = simple_connection(source, refs[i].logical_id.as_str(), kind);
        let ghost before = conns@;
        conns.push(c);
        assert(crate::arch::connection_views(conns@) =~= crate::arch::connection_views(
            before,
        ).push(c@));
        assert(crate::arch::connection_views(conns@) =~= crate::arch::connection_views(start)
            + all.subrange(0, i + 1));
    }
    assert(all.subrange(0, refs@.len() as int) =~= all);
}

// ---------------------------------------------------------------------------
// Event source mappings
// ---------------------------------------------------------------------------

/// What follows the last `:` of an ARN.
pub fn arn_last_segment(arn: &str) -> (r: String)
    ensures
        r@ == last_segment(arn@),
{
    let v = chars_of(arn);
    let mut i: usize = v.len();
    let ghost whole = last_segment(v@);
    assert(v@.subrange(0, i as int) =~= v@);
    assert(last_segment(v@.subrange(0, i as int)) + v@.subrange(i as int, v@.len() as int)
        =~= whole);
    while i > 0 && v[i - 1] != ':'
        invariant
            i <= v@.len(),
            whole == last_segment(v@),
            last_segment(v@.subrange(0, i as int)) + v@.subrange(i as int, v@.len() as int)
                == whole,
        decreases i,
    {
        proof {
            let now = v@.subrange(0, i as int);
            assert(now.drop_last() =~= v@.subrange(0, i - 1));
            assert(now.last() == v@[i - 1]);
            assert(last_segment(now.drop_last()).push(now.last()) + v@.subrange(
                i as int,
                v@.len() as int,
            ) =~= last_segment(v@.subrange(0, i - 1)) + v@.subrange(i - 1, v@.len() as int));
        }
        i = i - 1;
    }
    assert(last_segment(v@.subrange(0, i as int)) =~= Seq::empty());
    text_of(&v, i, v.len())
}

/// The kind of event source that a logical ID names.
pub fn detect_source_type(logical_id: &str, resources: &StrMap<ResolvedResource>) -> (r: Option<
    String,
>)
    ensures
        crate::cfn::parser::opt_text(r) == declared_kind(
            logical_id@,
            crate::cfn::parser::resolved_map(*resources),
        ),
{
    match find_resource(resources, logical_id) {
        Some(x) => {
            let t = x.resource_type.as_str();
            if text_eq(t, "AWS::SQS::Queue") {
                Some("sqs".to_owned())
            } else if text_eq(t, "AWS::Kinesis::Stream") {
                Some("kinesis".to_owned())
            } else if text_eq(t, "AWS::DynamoDB::Table") {
                Some("dynamodb".to_owned())
            } else {
                None
            }
        },
        None => None,
    }
}

/// Candidate targets of an event source mapping.
///
/// Every typed reference in `FunctionName` is a candidate; a plain string is
/// taken as a name. Whether the target exists is checked later.
fn extract_function_logical_ids(props: &ResolvedValue) -> (r: Vec<String>)
    ensures
        crate::text::texts(r@) == mapping_targets(props@),
{
    let mut out: Vec<String> = Vec::new();
    assert(crate::text::texts(out@) =~= Seq::empty());
    match props.get("FunctionName") {
        None => {},
        Some(v) => {
            let refs = v.references();
            let ghost rv = crate::cfn::resolved::ref_views(refs@);
            if refs.len() > 0 {
                for i in 0..refs.len()
                    invariant
                        rv == crate::cfn::resolved::ref_views(refs@),
                        crate::text::texts(out@) == rv.map_values(
                            |r: RefView| r.logical_id,
                        ).subrange(0, i as int),
                {
                    let ghost before = out@;
                    out.push(refs[i].logical_id.clone());
                    assert(crate::text::texts(out@) =~= crate::text::texts(before).push(
                        refs@[i as int].logical_id@,
                    ));
                    assert(crate::text::texts(out@) =~= rv.map_values(
                        |r: RefView| r.logical_id,
                    ).subrange(0, i + 1));
                }
                assert(crate::text::texts(out@) =~= rv.map_values(|r: RefView| r.logical_id));
            } else if let Some(s) = v.as_str() {
                out.push(s.to_owned());
                assert(crate::text::texts(out@) =~= seq![s@]);
            }
        },
    }
    out
}

/// The models of pairs of strings.
pub open spec fn pair_texts(v: Seq<(String, String)>) -> Seq<(Seq<char>, Seq<char>)> {
    v.map_values(|p: (String, String)| (p.0@, p.1@))
}

/// Candidate sources of an event source mapping, with their kinds.
fn extract_source_logical_ids(
    props: &ResolvedValue,
    resources: &StrMap<ResolvedResource>,
) -> (r: Vec<(String, String)>)
    ensures
        pair_texts(r@) == mapping_sources(
            props@,
            crate::cfn::parser::resolved_map(*resources),
        ),
{
    let mut out: Vec<(String, String)> = Vec::new();
    let ghost rs = crate::cfn::parser::resolved_map(*resources);
    assert(pair_texts(out@) =~= Seq::empty());
    match props.get("EventSourceArn") {
        None => {},
        Some(v) => {
            let refs = v.references();
            let ghost rv = crate::cfn::resolved::ref_views(refs@);
            if refs.len() > 0 {
                for i in 0..refs.len()
                    invariant
                        rs == crate::cfn::parser::resolved_map(*resources),
                        rv == crate::cfn::resolved::ref_views(refs@),
                        pair_texts(out@) == declared_sources(rv.subrange(0, i as int), rs),
                {
                    proof {
                        let now = rv.subrange(0, i + 1);
                        assert(now.drop_last() =~= rv.subrange(0, i as int));
                        assert(now.last() == refs@[i as int]@);
                    }
                    let ghost before = out@;
                    if let Some(kind) = detect_source_type(
                        refs[i].logical_id.as_str(),
                        resources,
                    ) {
                        let e = (refs[i].logical_id.clone(), kind);
                        out.push(e);
                        assert(pair_texts(out@) =~= pair_texts(before).push((e.0@, e.1@)));
                    }
                }
                assert(rv.subrange(0, refs@.len() as int) =~= rv);
            } else if let Some(s) = v.as_str() {
                let kind: &str = if contains(s, ":sqs:") {
                    "sqs"
                } else if contains(s, ":kinesis:") {
                    "kinesis"
                } else if contains(s, ":dynamodb:") && contains(s, "/stream/") {
                    "dynamodb"
                } else {
                    assert(pair_texts(out@) =~= arn_source(s@));
                    return out;
                };
                out.push((arn_last_segment(s), kind.to_owned()));
                assert(pair_texts(out@) =~= arn_source(s@));
            }
        },
    }
    out
}

/// The connections of an event source mapping.
pub fn extract_event_source_connections(
    esm: &ResolvedResource,
    resources: &StrMap<ResolvedResource>,
) -> (r: Vec<Connection>)
    ensures
        crate::arch::connection_views(r@) == mapping_edges(
            esm.properties@,
            crate::cfn::parser::resolved_map(*resources),
        ),
{
    let props = &esm.properties;
    let batch_size = get_resolved_number(props, "BatchSize");
    let parallelization = get_resolved_number(props, "ParallelizationFactor");
    let targets = extract_function_logical_ids(props);
    let sources = extract_source_logical_ids(props, resources);
    let ghost sv = pair_texts(sources@);
    let ghost tv = crate::text::texts(targets@);
    let mut conns: Vec<Connection> = Vec::new();
    assert(crate::arch::connection_views(conns@) =~= Seq::empty());
    let mut i: usize = 0;
    while i < sources.len()
        invariant
            i <= sources@.len(),
            sv == pair_texts(sources@),
            tv == crate::text::texts(targets@),
            *props == esm.properties,
            crate::arch::opt_number(batch_size) == number_under(props@, "BatchSize"@),
            crate::arch::opt_number(parallelization) == number_under(
                props@,
                "ParallelizationFactor"@,
            ),
            crate::arch::connection_views(conns@) == mapping_edges_of(
                props@,
                sv.subrange(0, i as int),
                tv,
            ),
        decreases sources@.len() - i,
    {
        let ghost start = conns@;
        let ghost source = sv[i as int];
        let ghost all = tv.map_values(|t: Seq<char>| mapping_edge(props@, source, t));
        proof {
            let now = sv.subrange(0, i + 1);
            assert(now.drop_last() =~= sv.subrange(0, i as int));
            assert(now.last() == source);
            assert(crate::arch::connection_views(start) + all.subrange(0, 0)
                =~= crate::arch::connection_views(start));
        }
        for k in 0..targets.len()
            invariant
                i < sources@.len(),
                sv == pair_texts(sources@),
                source == sv[i as int],
                tv == crate::text::texts(targets@),
                all == tv.map_values(|t: Seq<char>| mapping_edge(props@, source, t)),
                crate::arch::opt_number(batch_size) == number_under(props@, "BatchSize"@),
                crate::arch::opt_number(parallelization) == number_under(
                    props@,
                    "ParallelizationFactor"@,
                ),
                crate::arch::connection_views(conns@) == crate::arch::connection_views(start)
                    + all.subrange(0, k as int),
        {
            let c = Connection {
                source: LogicalId::new(sources[i].0.as_str()),
                target: LogicalId::new(targets[k].as_str()),
                connection_type: ConnectionType::EventSource,
                batch_size: clone_number(&batch_size),
                parallelization_factor: clone_number(&parallelization),
                factor: None,
                source_hint: Some(sources[i].1.clone()),
            };
            let ghost before = conns@;
            conns.push(c);
            proof {
                assert(source == (sources@[i as int].0@, sources@[i as int].1@));
                assert(tv[k as int] == targets@[k as int]@);
                assert(c@ == mapping_edge(props@, source, tv[k as int]));
                assert(crate::arch::connection_views(conns@) =~= crate::arch::connection_views(
                    before,
                ).push(c@));
                assert(crate::arch::connection_views(conns@) =~= crate::arch::connection_views(
                    start,
                ) + all.subrange(0, k + 1));
            }
        }
        assert(all.subrange(0, targets@.len() as int) =~= all);
        i = i + 1;
    }
    assert(sv.subrange(0, i as int) =~= sv);
    conns
}

// ---------------------------------------------------------------------------
// Notifications and rules
// ---------------------------------------------------------------------------

/// Whether a notification is about created objects.
pub fn is_object_created_event(item: &ResolvedValue) -> (r: bool)
    ensures
        r == is_created_event(item@),
{
    match string_under(item, "Event") {
        Some(e) => starts_with(e, "s3:ObjectCreated"),
        None => false,
    }
}

/// Appends the connections of a list of notifications.
fn push_s3_list(
    conns: &mut Vec<Connection>,
    bucket: &str,
    notif: &ResolvedValue,
    list_key: &str,
    a: &str,
    b: &str,
)
    ensures
        crate::arch::connection_views(final(conns)@) == crate::arch::connection_views(old(conns)@)
            + s3_list_edges(bucket@, items_under(notif@, list_key@), a@, b@),
{
    let ghost start = conns@;
    match notif.get(list_key) {
        Some(v) => match v.as_seq() {
            Some(items) => {
                let ghost iv = crate::cfn::resolved::resolved_views(items@);
                assert(crate::arch::connection_views(start) + s3_list_edges(
                    bucket@,
                    iv.subrange(0, 0),
                    a@,
                    b@,
                ) =~= crate::arch::connection_views(start));
                for i in 0..items.len()
                    invariant
                        iv == crate::cfn::resolved::resolved_views(items@),
                        crate::arch::connection_views(conns@) == crate::arch::connection_views(
                            start,
                        ) + s3_list_edges(bucket@, iv.subrange(0, i as int), a@, b@),
                {
                    let item = &items[i];
                    let ghost before = conns@;
                    proof {
                        let now = iv.subrange(0, i + 1);
                        assert(now.drop_last() =~= iv.subrange(0, i as int));
                        assert(now.last() == item@);
                    }
                    if is_object_created_event(item) {
                        let target = match item.get(a) {
                            Some(x) => Some(x),
                            None => item.get(b),
                        };
                        if let Some(x) = target {
                            push_edges(conns, bucket, &x.references(), ConnectionType::Notification);
                        }
                    }
                    assert(crate::arch::connection_views(conns@)
                        =~= crate::arch::connection_views(before) + s3_item_edges(
                        bucket@,
                        item@,
                        a@,
                        b@,
                    ));
                    assert(crate::arch::connection_views(conns@)
                        =~= crate::arch::connection_views(start) + s3_list_edges(
                        bucket@,
                        iv.subrange(0, i + 1),
                        a@,
                        b@,
                    ));
                }
                assert(iv.subrange(0, items@.len() as int) =~= iv);
                return ;
            },
            None => {},
        },
        None => {},
    }
    assert(crate::arch::connection_views(start) + s3_list_edges(
        bucket@,
        Seq::empty(),
        a@,
        b@,
    ) =~= crate::arch::connection_views(start));
}

/// The connections of a bucket's notification configuration.
pub fn extract_s3_notification_connections(bucket_id: &str, cfn: &ResolvedResource) -> (r: Vec<
    Connection,
>)
    ensures
        crate::arch::connection_views(r@) == s3_edges(bucket_id@, cfn.properties@),
{
    let mut conns: Vec<Connection> = Vec::new();
    assert(crate::arch::connection_views(conns@) =~= Seq::empty());
    if let Some(notif) = cfn.properties.get("NotificationConfiguration") {
        push_s3_list(
            &mut conns,
            bucket_id,
            notif,
            "LambdaConfigurations",
            "Function",
            "LambdaFunctionArn",
        );
        push_s3_list(
            &mut conns,
            bucket_id,
            notif,
            "LambdaFunctionConfigurations",
            "Function",
            "LambdaFunctionArn",
        );
        push_s3_list(&mut conns, bucket_id, notif, "QueueConfigurations", "Queue", "QueueArn");
        push_s3_list(&mut conns, bucket_id, notif, "TopicConfigurations", "Topic", "TopicArn");
        assert(crate::arch::connection_views(conns@) =~= s3_edges(bucket_id@, cfn.properties@));
    }
    conns
}

/// Whether a subscription delivers to a resource at run time.
fn has_runtime_protocol(v: &ResolvedValue) -> (r: bool)
    ensures
        r == is_runtime_protocol(v@),
{
    match string_under(v, "Protocol") {
        Some(p) => text_eq(p, "lambda") || text_eq(p, "sqs"),
        None => false,
    }
}

/// The elements of the sequence under `key`.
fn sequence_under<'a>(v: &'a ResolvedValue, key: &str) -> (r: Option<&'a Vec<ResolvedValue>>)
    ensures
        items_under(v@, key@) == match r {
            Some(s) => crate::cfn::resolved::resolved_views(s@),
            None => Seq::empty(),
        },
{
    match v.get(key) {
        Some(x) => x.as_seq(),
        None => None,
    }
}

/// The connections of a topic's inline subscriptions.
///
/// Only protocols that invoke a function or a queue make a connection.
pub fn extract_sns_topic_subscription_connections(topic_id: &str, cfn: &ResolvedResource) -> (r:
    Vec<Connection>)
    ensures
        crate::arch::connection_views(r@) == topic_edges(
            topic_id@,
            items_under(cfn.properties@, "Subscription"@),
        ),
{
    let mut conns: Vec<Connection> = Vec::new();
    assert(crate::arch::connection_views(conns@) =~= Seq::empty());
    if let Some(subs) = sequence_under(&cfn.properties, "Subscription") {
        let ghost sv = crate::cfn::resolved::resolved_views(subs@);
        for i in 0..subs.len()
            invariant
                sv == crate::cfn::resolved::resolved_views(subs@),
                crate::arch::connection_views(conns@) == topic_edges(
                    topic_id@,
                    sv.subrange(0, i as int),
                ),
        {
            let sub = &subs[i];
            let ghost before = conns@;
            proof {
                let now = sv.subrange(0, i + 1);
                assert(now.drop_last() =~= sv.subrange(0, i as int));
                assert(now.last() == sub@);
            }
            if has_runtime_protocol(sub) {
                let refs = references_under(sub, "Endpoint");
                push_edges(&mut conns, topic_id, &refs, ConnectionType::Notification);
            } else {
                assert(crate::arch::connection_views(before) + Seq::<ConnectionView>::empty()
                    =~= crate::arch::connection_views(before));
            }
        }
        assert(sv.subrange(0, subs@.len() as int) =~= sv);
    }
    conns
}

/// The connections of a standalone subscription.
pub fn extract_sns_subscription_resource_connections(cfn: &ResolvedResource) -> (r: Vec<Connection>)
    ensures
        crate::arch::connection_views(r@) == subscription_edges(cfn.properties@),
{
    let props = &cfn.properties;
    let mut conns: Vec<Connection> = Vec::new();
    assert(crate::arch::connection_views(conns@) =~= Seq::empty());
    if !has_runtime_protocol(props) {
        return conns;
    }
    let sources = references_under(props, "TopicArn");
    let targets = references_under(props, "Endpoint");
    let ghost sv = crate::cfn::resolved::ref_views(sources@);
    let ghost tv = crate::cfn::resolved::ref_views(targets@);
    for i in 0..sources.len()
        invariant
            sv == crate::cfn::resolved::ref_views(sources@),
            tv == crate::cfn::resolved::ref_views(targets@),
            crate::arch::connection_views(conns@) == all_pairs(
                sv.subrange(0, i as int),
                tv,
                ConnectionType::Notification,
            ),
    {
        proof {
            let now = sv.subrange(0, i + 1);
            assert(now.drop_last() =~= sv.subrange(0, i as int));
            assert(now.last() == sources@[i as int]@);
        }
        push_edges(
            &mut conns,
            sources[i].logical_id.as_str(),
            &targets,
            ConnectionType::Notification,
        );
    }
    assert(sv.subrange(0, sources@.len() as int) =~= sv);
    conns
}

/// The connections of a rule's targets.
pub fn extract_events_rule_connections(rule_id: &str, cfn: &ResolvedResource) -> (r: Vec<
    Connection,
>)
    ensures
        crate::arch::connection_views(r@) == rule_edges(
            rule_id@,
            items_under(cfn.properties@, "Targets"@),
        ),
{
    let mut conns: Vec<Connection> = Vec::new();
    assert(crate::arch::connection_views(conns@) =~= Seq::empty());
    if let Some(targets) = sequence_under(&cfn.properties, "Targets") {
        let ghost tv = crate::cfn::resolved::resolved_views(targets@);
        for i in 0..targets.len()
            invariant
                tv == crate::cfn::resolved::resolved_views(targets@),
                crate::arch::connection_views(conns@) == rule_edges(
                    rule_id@,
                    tv.subrange(0, i as int),
                ),
        {
            proof {
                let now = tv.subrange(0, i + 1);
                assert(now.drop_last() =~= tv.subrange(0, i as int));
                assert(now.last() == targets@[i as int]@);
            }
            let refs = references_under(&targets[i], "Arn");
            push_edges(&mut conns, rule_id, &refs, ConnectionType::Invocation);
        }
        assert(tv.subrange(0, targets@.len() as int) =~= tv);
    }
    conns
}

// ---------------------------------------------------------------------------
// Serverless functions
// ---------------------------------------------------------------------------

/// Whether the `Events` of an S3 event, a string or a sequence of strings,
/// name an `s3:ObjectCreated` event.
pub fn sam_s3_events_has_object_created(event_props: &ResolvedValue) -> (r: bool)
    ensures
        r == sam_created(event_props@),
{
    let events = match event_props.get("Events") {
        Some(v) => v,
        None => {
            return false;
        },
    };
    if let Some(s) = events.as_str() {
        return starts_with(s, "s3:ObjectCreated");
    }
    match events.as_seq() {
        Some(items) => {
            let ghost iv = crate::cfn::resolved::resolved_views(items@);
            let mut i: usize = 0;
            while i < items.len()
                invariant
                    i <= items@.len(),
                    iv == crate::cfn::resolved::resolved_views(items@),
                    sam_created(event_props@) == some_created(iv),
                    forall|j: int|
                        0 <= j < i ==> !(crate::cfn::resolved::resolved_str(
                            #[trigger] iv[j],
                        ) is Some && names_object_created(
                            crate::cfn::resolved::resolved_str(iv[j])->Some_0,
                        )),
                decreases items@.len() - i,
            {
                assert(iv[i as int] == items@[i as int]@);
                if let Some(s) = items[i].as_str() {
                    if starts_with(s, "s3:ObjectCreated") {
                        return true;
                    }
                }
                i = i + 1;
            }
            false
        },
        None => false,
    }
}

/// The notifications from each declared bucket to a function.
fn bucket_connections(
    refs: &Vec<Reference>,
    function_id: &str,
    resources: &StrMap<ResolvedResource>,
) -> (r: Vec<Connection>)
    ensures
        crate::arch::connection_views(r@) == bucket_edges(
            crate::cfn::resolved::ref_views(refs@),
            function_id@,
            crate::cfn::parser::resolved_map(*resources),
        ),
{
    let ghost rs = crate::cfn::parser::resolved_map(*resources);
    let ghost rv = crate::cfn::resolved::ref_views(refs@);
    let mut conns: Vec<Connection> = Vec::new();
    assert(crate::arch::connection_views(conns@) =~= Seq::empty());
    for i in 0..refs.len()
        invariant
            rs == crate::cfn::parser::resolved_map(*resources),
            rv == crate::cfn::resolved::ref_views(refs@),
            crate::arch::connection_views(conns@) == bucket_edges(
                rv.subrange(0, i as int),
                function_id@,
                rs,
            ),
    {
        proof {
            let now = rv.subrange(0, i + 1);
            assert(now.drop_last() =~= rv.subrange(0, i as int));
            assert(now.last() == refs@[i as int]@);
        }
        let id = refs[i].logical_id.as_str();
        if is_declared(resources, id) {
            let c = simple_connection(id, function_id, ConnectionType::Notification);
            let ghost before = conns@;
            conns.push(c);
            assert(crate::arch::connection_views(conns@) =~= crate::arch::connection_views(
                before,
            ).push(c@));
        }
    }
    assert(rv.subrange(0, refs@.len() as int) =~= rv);
    conns
}

/// The event sources of a function.
fn stream_connections(
    refs: &Vec<Reference>,
    function_id: &str,
    event_props: &ResolvedValue,
    expected: &str,
    resources: &StrMap<ResolvedResource>,
) -> (r: Vec<Connection>)
    ensures
        crate::arch::connection_views(r@) == stream_edges(
            crate::cfn::resolved::ref_views(refs@),
            function_id@,
            event_props@,
            expected@,
            crate::cfn::parser::resolved_map(*resources),
        ),
{
    let ghost rs = crate::cfn::parser::resolved_map(*resources);
    let ghost rv = crate::cfn::resolved::ref_views(refs@);
    let batch_size = get_resolved_number(event_props, "BatchSize");
    let parallelization = get_resolved_number(event_props, "ParallelizationFactor");
    let mut conns: Vec<Connection> = Vec::new();
    assert(crate::arch::connection_views(conns@) =~= Seq::empty());
    for i in 0..refs.len()
        invariant
            rs == crate::cfn::parser::resolved_map(*resources),
            rv == crate::cfn::resolved::ref_views(refs@),
            crate::arch::opt_number(batch_size) == number_under(event_props@, "BatchSize"@),
            crate::arch::opt_number(parallelization) == number_under(
                event_props@,
                "ParallelizationFactor"@,
            ),
            crate::arch::connection_views(conns@) == stream_edges(
                rv.subrange(0, i as int),
                function_id@,
                event_props@,
                expected@,
                rs,
            ),
    {
        proof {
            let now = rv.subrange(0, i + 1);
            assert(now.drop_last() =~= rv.subrange(0, i as int));
            assert(now.last() == refs@[i as int]@);
        }
        let id = refs[i].logical_id.as_str();
        let fits: bool = match find_resource(resources, id) {
            Some(x) => text_eq(x.resource_type.as_str(), expected),
            None => false,
        };
        if fits {
            let c = Connection {
                source: LogicalId::new(id),
                target: LogicalId::new(function_id),
                connection_type: ConnectionType::EventSource,
                batch_size: clone_number(&batch_size),
                parallelization_factor: clone_number(&parallelization),
                factor: None,
                source_hint: None,
            };
            let ghost before = conns@;
            conns.push(c);
            assert(crate::arch::connection_views(conns@) =~= crate::arch::connection_views(
                before,
            ).push(c@));
        }
    }
    assert(rv.subrange(0, refs@.len() as int) =~= rv);
    conns
}

/// The connections of one event of a function.
fn sam_event_connections(
    function_id: &str,
    event: &ResolvedValue,
    resources: &StrMap<ResolvedResource>,
) -> (r: Vec<Connection>)
    ensures
        crate::arch::connection_views(r@) == sam_event_edges(
            function_id@,
            event@,
            crate::cfn::parser::resolved_map(*resources),
        ),
{
    let none: Vec<Connection> = Vec::new();
    assert(crate::arch::connection_views(none@) =~= Seq::empty());
    let event_type = match string_under(event, "Type") {
        Some(t) => t,
        None => {
            return none;
        },
    };
    let event_props = match event.get("Properties") {
        Some(p) => p,
        None => {
            return none;
        },
    };
    if text_eq(event_type, "S3") {
        // Mirrors what the SAM transform writes into the bucket's
        // notification configuration.
        if !sam_s3_events_has_object_created(event_props) {
            return none;
        }
        let refs = references_under(event_props, "Bucket");
        return bucket_connections(&refs, function_id, resources);
    }
    if text_eq(event_type, "SQS") {
        let refs = references_under(event_props, "Queue");
        return stream_connections(&refs, function_id, event_props, "AWS::SQS::Queue", resources);
    }
    if text_eq(event_type, "Kinesis") {
        let refs = references_under(event_props, "Stream");
        return stream_connections(
            &refs,
            function_id,
            event_props,
            "AWS::Kinesis::Stream",
            resources,
        );
    }
    if text_eq(event_type, "DynamoDB") {
        let refs = references_under(event_props, "Stream");
        return stream_connections(
            &refs,
            function_id,
            event_props,
            "AWS::DynamoDB::Table",
            resources,
        );
    }
    none
}

/// The connections of a serverless function.
pub fn extract_sam_function_event_connections(
    function_id: &str,
    cfn: &ResolvedResource,
    resources: &StrMap<ResolvedResource>,
) -> (r: Vec<Connection>)
    ensures
        crate::arch::connection_views(r@) == sam_edges(
            function_id@,
            cfn.properties@,
            crate::cfn::parser::resolved_map(*resources),
        ),
{
    let ghost rs = crate::cfn::parser::resolved_map(*resources);
    let mut conns: Vec<Connection> = Vec::new();
    assert(crate::arch::connection_views(conns@) =~= Seq::empty());
    if let Some(found) = cfn.properties.get("Events") {
        if let ResolvedValue::Mapping(events) = found {
            let ghost ev = crate::cfn::resolved::resolved_entries(events@);
            assert(found@->Mapping_0 =~= ev);
            for i in 0..events.len()
                invariant
                    rs == crate::cfn::parser::resolved_map(*resources),
                    ev == crate::cfn::resolved::resolved_entries(events@),
                    crate::arch::connection_views(conns@) == sam_events_edges(
                        function_id@,
                        ev.subrange(0, i as int),
                        rs,
                    ),
            {
                proof {
                    let now = ev.subrange(0, i + 1);
                    assert(now.drop_last() =~= ev.subrange(0, i as int));
                    assert(now.last() == (events@[i as int].0@, events@[i as int].1@));
                }
                let mut more = sam_event_connections(function_id, &events[i].1, resources);
                let ghost before = conns@;
                let ghost added = more@;
                conns.append(&mut more);
                assert(crate::arch::connection_views(conns@) =~= crate::arch::connection_views(
                    before,
                ) + crate::arch::connection_views(added));
            }
            assert(ev.subrange(0, events@.len() as int) =~= ev);
        }
    }
    conns
}

// ---------------------------------------------------------------------------
// Connections
// ---------------------------------------------------------------------------

/// Offers connections one after the other. The target of a connection must be
/// declared, and its source too unless `free` is set.
fn offer_connections(
    dedupe: &mut ConnectionDeduper,
    more: Vec<Connection>,
    resources: &StrMap<ResolvedResource>,
    free: bool,
)
    ensures
        final(dedupe)@ == offered_all(
            old(dedupe)@,
            crate::arch::connection_views(more@),
            crate::cfn::parser::resolved_map(*resources),
            free,
        ),
{
    let ghost start = dedupe@;
    let ghost rs = crate::cfn::parser::resolved_map(*resources);
    let ghost all = crate::arch::connection_views(more@);
    let mut rest = more;
    assert(all.subrange(0, 0) =~= Seq::empty());
    let n: usize = rest.len();
    let mut i: usize = 0;
    while i < n
        invariant
            i <= n == all.len(),
            rs == crate::cfn::parser::resolved_map(*resources),
            crate::arch::connection_views(rest@) == all.subrange(i as int, n as int),
            dedupe@ == offered_all(start, all.subrange(0, i as int), rs, free),
        decreases n - i,
    {
        assert(rest@.len() == n - i) by {
            assert(crate::arch::connection_views(rest@).len() == rest@.len());
        }
        let ghost before = rest@;
        let c = rest.remove(0);
        proof {
            assert(crate::arch::connection_views(before)[0] == c@);
            assert(all[i as int] == c@);
            assert(crate::arch::connection_views(rest@) =~= all.subrange(i + 1, n as int)) by {
                assert forall|k: int| 0 <= k < rest@.len() implies #[trigger] rest@[k]@
                    == all[i + 1 + k] by {
                    assert(rest@[k] == before[k + 1]);
                    assert(crate::arch::connection_views(before)[k + 1] == all[i + k + 1]);
                }
            }
            let now = all.subrange(0, i + 1);
            assert(now.drop_last() =~= all.subrange(0, i as int));
            assert(now.last() == c@);
        }
        let source_ok: bool = free || is_declared(resources, c.source.as_str());
        let target_ok: bool = is_declared(resources, c.target.as_str());
        dedupe.try_push(c, source_ok, target_ok);
        i = i + 1;
    }
    assert(all.subrange(0, n as int) =~= all);
}

/// The connections between the resources of a template, each edge once.
pub fn build_connections(resources: &StrMap<ResolvedResource>) -> (r: Vec<Connection>)
    ensures
        crate::arch::connection_views(r@) == connections_of(
            crate::cfn::parser::resolved_map(*resources),
            crate::cfn::parser::resolved_map(*resources),
        ),
{
    let ghost rs = crate::cfn::parser::resolved_map(*resources);
    let mut dedupe = ConnectionDeduper::new();
    let n: usize = resources.len();
    let mut i: usize = 0;
    while i < n
        invariant
            i <= n == resources@.len(),
            rs == crate::cfn::parser::resolved_map(*resources),
            dedupe@ == connections_of(rs.subrange(0, i as int), rs),
        decreases n - i,
    {
        let id = resources.key_at(i).as_str();
        let cfn = resources.value_at(i);
        proof {
            let now = rs.subrange(0, i + 1);
            assert(now.drop_last() =~= rs.subrange(0, i as int));
            assert(now.last() == (id@, crate::cfn::parser::resolved_resource_view(*cfn)));
        }
        let t = cfn.resource_type.as_str();
        let is_mapping: bool = text_eq(t, "AWS::Lambda::EventSourceMapping");
        let more = if is_mapping {
            extract_event_source_connections(cfn, resources)
        } else if text_eq(t, "AWS::S3::Bucket") {
            extract_s3_notification_connections(id, cfn)
        } else if text_eq(t, "AWS::SNS::Topic") {
            extract_sns_topic_subscription_connections(id, cfn)
        } else if text_eq(t, "AWS::SNS::Subscription") {
            extract_sns_subscription_resource_connections(cfn)
        } else if text_eq(t, "AWS::Events::Rule") {
            extract_events_rule_connections(id, cfn)
        } else if text_eq(t, "AWS::Serverless::Function") {
            extract_sam_function_event_connections(id, cfn, resources)
        } else {
            let none: Vec<Connection> = Vec::new();
            assert(crate::arch::connection_views(none@) =~= Seq::empty());
            none
        };
        offer_connections(&mut dedupe, more, resources, is_mapping);
        i = i + 1;
    }
    assert(rs.subrange(0, n as int) =~= rs);
    dedupe.into_connections()
}

// ---------------------------------------------------------------------------
// Groups
// ---------------------------------------------------------------------------

/// The parent that a property names.
fn extract_parent(cfn: &ResolvedResource, key: &str, resources: &StrMap<ResolvedResource>) -> (r:
    Option<LogicalId>)
    ensures
        match r {
            Some(g) => parent_under(
                crate::cfn::parser::resolved_resource_view(*cfn),
                key@,
                crate::cfn::parser::resolved_map(*resources),
            ) == Some(g@),
            None => parent_under(
                crate::cfn::parser::resolved_resource_view(*cfn),
                key@,
                crate::cfn::parser::resolved_map(*resources),
            ) is None,
        },
{
    let refs = references_under(&cfn.properties, key);
    let ghost rv = crate::cfn::resolved::ref_views(refs@);
    if refs.len() != 1 {
        assert(rv.len() != 1);
        return None;
    }
    assert(rv[0] == refs@[0]@);
    let id = refs[0].logical_id.as_str();
    if text_eq(id, cfn.logical_id.as_str()) {
        return None;
    }
    if is_declared(resources, id) {
        Some(LogicalId::new(id))
    } else {
        None
    }
}

/// Determines the containment parent of a resource.
///
/// Priority: `Cluster`, `ClusterName`, `SubnetId`, `VpcId`. A property counts
/// only if it carries exactly one reference, to another declared resource.
pub fn extract_group(cfn: &ResolvedResource, resources: &StrMap<ResolvedResource>) -> (r: Option<
    LogicalId,
>)
    ensures
        match r {
            Some(g) => group_of(
                crate::cfn::parser::resolved_resource_view(*cfn),
                crate::cfn::parser::resolved_map(*resources),
            ) == Some(g@),
            None => group_of(
                crate::cfn::parser::resolved_resource_view(*cfn),
                crate::cfn::parser::resolved_map(*resources),
            ) is None,
        },
{
    if let Some(g) = extract_parent(cfn, "Cluster", resources) {
        return Some(g);
    }
    if let Some(g) = extract_parent(cfn, "ClusterName", resources) {
        return Some(g);
    }
    if let Some(g) = extract_parent(cfn, "SubnetId", resources) {
        return Some(g);
    }
    extract_parent(cfn, "VpcId", resources)
}

// ---------------------------------------------------------------------------
// Properties
// ---------------------------------------------------------------------------

/// Storing in an object and taking the model is taking the model and storing.
proof fn lemma_object_insert(
    v: Seq<(String, Json)>,
    w: Seq<(String, Json)>,
    key: Seq<char>,
    x: Json,
)
    requires
        crate::strmap::pairs(w) == crate::strmap::inserted(crate::strmap::pairs(v), key, x),
    ensures
        crate::json::json_entries(w) == crate::strmap::inserted(
            crate::json::json_entries(v),
            key,
            x@,
        ),
{
    let f = |j: Json| j@;
    crate::strmap::lemma_inserted_mapped(crate::strmap::pairs(v), f, key, x);
    crate::json::lemma_json_entries(v);
    crate::json::lemma_json_entries(w);
}

/// Converts a YAML value to JSON.
pub fn yaml_to_json(value: &Yaml) -> (r: Json)
    ensures
        r@ == json_of_yaml(value@),
    decreases value,
{
    match value {
        Yaml::Null => Json::Null,
        Yaml::Bool(b) => Json::Bool(*b),
        Yaml::Number(n) => {
            if let Number::Float(t) = n {
                if text_eq(t.as_str(), ".nan") || text_eq(t.as_str(), ".inf") || text_eq(
                    t.as_str(),
                    "-.inf",
                ) {
                    return Json::Null;
                }
            }
            Json::Number(n.clone())
        },
        Yaml::String(s) => Json::String(s.clone()),
        Yaml::Sequence(seq) => {
            let ghost sv = crate::yaml::yaml_views(seq@);
            assert(value@->Sequence_0 =~= sv);
            let mut out: Vec<Json> = Vec::new();
            assert(crate::json::json_views(out@) =~= Seq::empty());
            for i in 0..seq.len()
                invariant
                    value is Sequence,
                    value->Sequence_0 == seq,
                    sv == crate::yaml::yaml_views(seq@),
                    crate::json::json_views(out@) == jsons_of_yaml(sv.subrange(0, i as int)),
            {
                proof {
                    let now = sv.subrange(0, i + 1);
                    assert(now.drop_last() =~= sv.subrange(0, i as int));
                    assert(now.last() == seq@[i as int]@);
                }
                let x = yaml_to_json(&seq[i]);
                let ghost before = out@;
                out.push(x);
                assert(crate::json::json_views(out@) =~= crate::json::json_views(before).push(x@));
            }
            assert(sv.subrange(0, seq@.len() as int) =~= sv);
            let r = Json::Array(out);
            assert(r@->Array_0 =~= crate::json::json_views(out@));
            r
        },
        Yaml::Mapping(map) => {
            let ghost mv = crate::yaml::entry_views(map@);
            assert(value@->Mapping_0 =~= mv);
            let mut out: Vec<(String, Json)> = Vec::new();
            assert(crate::json::json_entries(out@) =~= Seq::empty());
            for i in 0..map.len()
                invariant
                    value is Mapping,
                    value->Mapping_0 == map,
                    mv == crate::yaml::entry_views(map@),
                    crate::json::json_entries(out@) == object_of_yaml(mv.subrange(0, i as int)),
            {
                proof {
                    let now = mv.subrange(0, i + 1);
                    assert(now.drop_last() =~= mv.subrange(0, i as int));
                    assert(now.last() == (map@[i as int].0@, map@[i as int].1@));
                    assert(decreases_to!(value => map@[i as int]));
                }
                if let Some(key) = map[i].0.as_str() {
                    let x = yaml_to_json(&map[i].1);
                    let ghost before = out@;
                    vec_insert(&mut out, key.to_owned(), x);
                    proof {
                        lemma_object_insert(before, out@, key@, x);
                    }
                }
            }
            assert(mv.subrange(0, map@.len() as int) =~= mv);
            let r = Json::Object(out);
            assert(r@->Object_0 =~= crate::json::json_entries(out@));
            r
        },
        // Tagged values (unresolved intrinsics) become a text.
        Yaml::Tagged(_, x) => Json::String(unresolved_text(&**x)),
    }
}

/// Renders a resolved value to JSON for adapters.
///
/// References are rendered with the `${...}` substitution syntax; adapters
/// treat them as opaque strings.
pub fn resolved_to_json(value: &ResolvedValue) -> (r: Json)
    ensures
        r@ == json_of(value@),
    decreases value,
{
    match value {
        ResolvedValue::Concrete(v) => yaml_to_json(v),
        ResolvedValue::Ref(id) => Json::String(render_ref(id.as_str())),
        ResolvedValue::GetAtt { logical_id, attr } => Json::String(
            render_getatt(logical_id.as_str(), attr.as_str()),
        ),
        ResolvedValue::Interpolated(parts) => Json::String(render_parts(parts)),
        ResolvedValue::Sequence(seq) => {
            let ghost sv = crate::cfn::resolved::resolved_views(seq@);
            assert(value@->Sequence_0 =~= sv);
            let mut out: Vec<Json> = Vec::new();
            assert(crate::json::json_views(out@) =~= Seq::empty());
            for i in 0..seq.len()
                invariant
                    value is Sequence,
                    value->Sequence_0 == seq,
                    sv == crate::cfn::resolved::resolved_views(seq@),
                    crate::json::json_views(out@) == jsons_of(sv.subrange(0, i as int)),
            {
                proof {
                    let now = sv.subrange(0, i + 1);
                    assert(now.drop_last() =~= sv.subrange(0, i as int));
                    assert(now.last() == seq@[i as int]@);
                }
                let x = resolved_to_json(&seq[i]);
                let ghost before = out@;
                out.push(x);
                assert(crate::json::json_views(out@) =~= crate::json::json_views(before).push(x@));
            }
            assert(sv.subrange(0, seq@.len() as int) =~= sv);
            let r = Json::Array(out);
            assert(r@->Array_0 =~= crate::json::json_views(out@));
            r
        },
        ResolvedValue::Mapping(map) => {
            let ghost mv = crate::cfn::resolved::resolved_entries(map@);
            assert(value@->Mapping_0 =~= mv);
            let mut out: Vec<(String, Json)> = Vec::new();
            assert(crate::json::json_entries(out@) =~= Seq::empty());
            for i in 0..map.len()
                invariant
                    value is Mapping,
                    value->Mapping_0 == map,
                    mv == crate::cfn::resolved::resolved_entries(map@),
                    crate::json::json_entries(out@) == object_of(mv.subrange(0, i as int)),
            {
                proof {
                    let now = mv.subrange(0, i + 1);
                    assert(now.drop_last() =~= mv.subrange(0, i as int));
                    assert(now.last() == (map@[i as int].0@, map@[i as int].1@));
                    assert(decreases_to!(value => map@[i as int]));
                }
                let x = resolved_to_json(&map[i].1);
                let ghost before = out@;
                vec_insert(&mut out, map[i].0.clone(), x);
                proof {
                    lemma_object_insert(before, out@, map@[i as int].0@, x);
                }
            }
            assert(mv.subrange(0, map@.len() as int) =~= mv);
            let r = Json::Object(out);
            assert(r@->Object_0 =~= crate::json::json_entries(out@));
            r
        },
    }
}

/// Converts a single top-level resolved property.
pub fn resolved_to_cfn_property(value: &ResolvedValue) -> (r: IacPropertyValue)
    ensures
        r@ == property_of(value@),
{
    match value {
        ResolvedValue::Ref(id) => IacPropertyValue::ResourceRef { logical_id: id.clone() },
        ResolvedValue::GetAtt { logical_id, attr } => IacPropertyValue::ResourceAttr {
            logical_id: logical_id.clone(),
            attr: attr.clone(),
        },
        ResolvedValue::Interpolated(parts) => {
            let ghost pv = crate::cfn::resolved::part_views(parts@);
            // A lone reference is promoted here too, in case the value was
            // not built from parts.
            if parts.len() == 1 {
                assert(pv[0] == parts@[0]@);
                match &parts[0] {
                    StringPart::Ref(id) => {
                        return IacPropertyValue::ResourceRef { logical_id: id.clone() };
                    },
                    StringPart::GetAtt { logical_id, attr } => {
                        return IacPropertyValue::ResourceAttr {
                            logical_id: logical_id.clone(),
                            attr: attr.clone(),
                        };
                    },
                    StringPart::Literal(_) => {},
                }
            }
            IacPropertyValue::Concrete(Json::String(render_parts(parts)))
        },
        other => IacPropertyValue::Concrete(resolved_to_json(other)),
    }
}

/// Converts a resolved properties block for the adapter boundary.
///
/// Typed references become reference values, everything else becomes JSON.
pub fn resolved_to_cfn_properties(value: &ResolvedValue) -> (r: StrMap<IacPropertyValue>)
    ensures
        crate::iac::property_entries(r@) == properties_of(value@),
{
    let mut out: StrMap<IacPropertyValue> = StrMap::new();
    let ghost f = |p: IacPropertyValue| p@;
    assert(crate::strmap::mapped(out@, f) =~= Seq::empty());
    match value {
        ResolvedValue::Mapping(map) => {
            let ghost mv = crate::cfn::resolved::resolved_entries(map@);
            assert(value@->Mapping_0 =~= mv);
            for i in 0..map.len()
                invariant
                    mv == crate::cfn::resolved::resolved_entries(map@),
                    f == (|p: IacPropertyValue| p@),
                    crate::strmap::mapped(out@, f) == properties_of_entries(
                        mv.subrange(0, i as int),
                    ),
            {
                let x = resolved_to_cfn_property(&map[i].1);
                proof {
                    let now = mv.subrange(0, i + 1);
                    assert(now.drop_last() =~= mv.subrange(0, i as int));
                    assert(now.last() == (map@[i as int].0@, map@[i as int].1@));
                    crate::strmap::lemma_inserted_mapped(out@, f, map@[i as int].0@, x);
                }
                out.insert(map[i].0.clone(), x);
            }
            assert(mv.subrange(0, map@.len() as int) =~= mv);
        },
        ResolvedValue::Concrete(y) => {
            if let Yaml::Mapping(map) = y {
                let ghost mv = crate::yaml::entry_views(map@);
                assert(y@->Mapping_0 =~= mv);
                for i in 0..map.len()
                    invariant
                        mv == crate::yaml::entry_views(map@),
                        f == (|p: IacPropertyValue| p@),
                        crate::strmap::mapped(out@, f) == properties_of_yaml(
                            mv.subrange(0, i as int),
                        ),
                {
                    proof {
                        let now = mv.subrange(0, i + 1);
                        assert(now.drop_last() =~= mv.subrange(0, i as int));
                        assert(now.last() == (map@[i as int].0@, map@[i as int].1@));
                    }
                    if let Some(key) = map[i].0.as_str() {
                        let x = IacPropertyValue::Concrete(yaml_to_json(&map[i].1));
                        proof {
                            crate::strmap::lemma_inserted_mapped(out@, f, key@, x);
                        }
                        out.insert(key.to_owned(), x);
                    }
                }
                assert(mv.subrange(0, map@.len() as int) =~= mv);
            }
        },
        _ => {},
    }
    out
}

// ---------------------------------------------------------------------------
// Architectures
// ---------------------------------------------------------------------------

/// Converts a resolved template to an architecture, with the adapters that
/// are registered.
pub fn build_architecture(
    name: &str,
    region: &str,
    template: &ResolvedTemplate,
    adapters: &CfnAdapterRegistry,
) -> (r: Architecture)
    ensures
        r@ == architecture_of(
            name@,
            region@,
            crate::cfn::parser::resolved_map(template.resources),
            *adapters,
        ),
{
    let ghost rs = crate::cfn::parser::resolved_map(template.resources);
    let ghost nodes = rs.map_values(
        |e: (Seq<char>, ResourceView<ResolvedView>)| node_of(e.0, e.1, rs, *adapters),
    );
    let mut resources: Vec<Resource> = Vec::new();
    let n: usize = template.resources.len();
    let mut i: usize = 0;
    while i < n
        invariant
            i <= n == template.resources@.len(),
            rs == crate::cfn::parser::resolved_map(template.resources),
            nodes == rs.map_values(
                |e: (Seq<char>, ResourceView<ResolvedView>)| node_of(e.0, e.1, rs, *adapters),
            ),
            crate::arch::node_views(resources@) == nodes.subrange(0, i as int),
        decreases n - i,
    {
        let id = template.resources.key_at(i).as_str();
        let cfn = template.resources.value_at(i);
        let raw = RawCfnResource {
            logical_id: LogicalId::new(id),
            resource_type: ResourceType::new(cfn.resource_type.as_str()),
            properties: resolved_to_cfn_properties(&cfn.properties),
        };
        let shell = match adapters.convert(&raw) {
            Some(Ok(s)) => s,
            _ => ResourceShell::other(cfn.resource_type.as_str()),
        };
        let node = Resource {
            logical_id: LogicalId::new(id),
            resource_type: ResourceType::new(cfn.resource_type.as_str()),
            shell,
            group: extract_group(cfn, &template.resources),
        };
        let ghost before = resources@;
        resources.push(node);
        proof {
            assert(rs[i as int] == (id@, crate::cfn::parser::resolved_resource_view(*cfn)));
            assert(raw@ == raw_of(rs[i as int].0, rs[i as int].1));
            assert(node@ == nodes[i as int]);
            assert(crate::arch::node_views(resources@) =~= crate::arch::node_views(before).push(
                node@,
            ));
            assert(crate::arch::node_views(resources@) =~= nodes.subrange(0, i + 1));
        }
        i = i + 1;
    }
    assert(nodes.subrange(0, n as int) =~= nodes);
    Architecture {
        name: name.to_owned(),
        region: Region::new(region),
        resources,
        connections: build_connections(&template.resources),
    }
}

// ---------------------------------------------------------------------------
// Laws
// ---------------------------------------------------------------------------

/// Every connection leads to a declared resource.
pub open spec fn targets_declared(s: Seq<ConnectionView>, rs: ResolvedEntries) -> bool {
    forall|i: int| 0 <= i < s.len() ==> declares(rs, (#[trigger] s[i]).target)
}

/// Every connection comes from a declared resource, or is an event source
/// that names its kind.
pub open spec fn sources_declared(s: Seq<ConnectionView>, rs: ResolvedEntries) -> bool {
    forall|i: int|
        0 <= i < s.len() ==> declares(rs, (#[trigger] s[i]).source) || (s[i].connection_type
            == ConnectionType::EventSource && s[i].source_hint is Some)
}

proof fn lemma_offered_all(
    s: Seq<ConnectionView>,
    more: Seq<ConnectionView>,
    rs: ResolvedEntries,
    free: bool,
)
    requires
        crate::arch::edges_distinct(s),
        targets_declared(s, rs),
        sources_declared(s, rs),
        free ==> forall|i: int|
            0 <= i < more.len() ==> (#[trigger] more[i]).connection_type
                == ConnectionType::EventSource && more[i].source_hint is Some,
    ensures
        crate::arch::edges_distinct(offered_all(s, more, rs, free)),
        targets_declared(offered_all(s, more, rs, free), rs),
        sources_declared(offered_all(s, more, rs, free), rs),
    decreases more.len(),
{
    if more.len() > 0 {
        let rest = more.drop_last();
        if free {
            assert forall|i: int| 0 <= i < rest.len() implies (
            #[trigger] rest[i]).connection_type == ConnectionType::EventSource
                && rest[i].source_hint is Some by {
                assert(more[i].source_hint is Some);
            }
            assert(more[more.len() - 1].source_hint is Some);
        }
        lemma_offered_all(s, rest, rs, free);
    }
}

proof fn lemma_mapping_edges_are_event_sources(
    props: ResolvedView,
    sources: Seq<(Seq<char>, Seq<char>)>,
    targets: Seq<Seq<char>>,
)
    ensures
        forall|i: int|
            0 <= i < mapping_edges_of(props, sources, targets).len() ==> (
            #[trigger] mapping_edges_of(props, sources, targets)[i]).connection_type
                == ConnectionType::EventSource && mapping_edges_of(
                props,
                sources,
                targets,
            )[i].source_hint is Some,
    decreases sources.len(),
{
    if sources.len() > 0 {
        lemma_mapping_edges_are_event_sources(props, sources.drop_last(), targets);
    }
}

proof fn lemma_connections(done: ResolvedEntries, rs: ResolvedEntries)
    ensures
        crate::arch::edges_distinct(connections_of(done, rs)),
        targets_declared(connections_of(done, rs), rs),
        sources_declared(connections_of(done, rs), rs),
    decreases done.len(),
{
    if done.len() > 0 {
        lemma_connections(done.drop_last(), rs);
        let r = done.last().1;
        if source_is_free(r.resource_type) {
            lemma_mapping_edges_are_event_sources(
                r.properties,
                mapping_sources(r.properties, rs),
                mapping_targets(r.properties),
            );
        }
        lemma_offered_all(
            connections_of(done.drop_last(), rs),
            resource_edges(done.last().0, r, rs),
            rs,
            source_is_free(r.resource_type),
        );
    }
}

/// No two connections of a template's architecture have the same edge, every
/// connection leads to a resource of the template, and comes from one unless
/// it is an event source mapping, whose source may lie outside.
pub proof fn law_connections_are_sound(
    name: Seq<char>,
    region: Seq<char>,
    rs: ResolvedEntries,
    adapters: CfnAdapterRegistry,
)
    ensures
        crate::arch::edges_distinct(architecture_of(name, region, rs, adapters).connections),
        targets_declared(architecture_of(name, region, rs, adapters).connections, rs),
        sources_declared(architecture_of(name, region, rs, adapters).connections, rs),
{
    lemma_connections(rs, rs);
}

/// Every resource of a template becomes one node, under its own logical ID and
/// type and in the order of the logical IDs; a group names a declared resource
/// other than the node itself.
pub proof fn law_nodes_follow_the_template(
    name: Seq<char>,
    region: Seq<char>,
    rs: ResolvedEntries,
    adapters: CfnAdapterRegistry,
    i: int,
)
    requires
        0 <= i < rs.len(),
    ensures
        architecture_of(name, region, rs, adapters).resources.len() == rs.len(),
        ({
            let node = architecture_of(name, region, rs, adapters).resources[i];
            &&& node.logical_id == rs[i].0
            &&& node.resource_type == rs[i].1.resource_type
            &&& node.group is Some ==> declares(rs, node.group->Some_0) && node.group->Some_0
                != rs[i].1.logical_id
        }),
{
}

} // verus!
