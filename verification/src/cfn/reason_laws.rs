//! Why the connections of a template's architecture are there.

use vstd::prelude::*;

use crate::arch::ConnectionType;
use crate::arch::ConnectionView;
use crate::cfn::convert::architecture_of;
use crate::cfn::convert::connections_of;
use crate::cfn::convert::resource_edges;
use crate::cfn::convert_laws::hint_of_type;
use crate::cfn::convert_laws::refers_to;
use crate::cfn::parser::ResolvedEntries;
use crate::cfn::parser::ResourceView;
use crate::cfn::resolved::ResolvedView;
use crate::cfn::sentinel::RefView;
use crate::iac::CfnAdapterRegistry;
use crate::strmap::lookup;
use crate::yaml::NumberView;
use crate::yaml::YamlView;

verus! {

// ---------------------------------------------------------------------------
// Reasons
// ---------------------------------------------------------------------------

/// What stands under a key of a mapping.
pub open spec fn at(v: ResolvedView, key: Seq<char>) -> Option<ResolvedView> {
    match v {
        ResolvedView::Mapping(m) => lookup(m, key),
        _ => None,
    }
}

/// The items of the list under a key.
pub open spec fn list_at(v: ResolvedView, key: Seq<char>) -> Seq<ResolvedView> {
    match at(v, key) {
        Some(ResolvedView::Sequence(s)) => s,
        _ => Seq::empty(),
    }
}

/// The string under a key.
pub open spec fn string_at(v: ResolvedView, key: Seq<char>) -> Option<Seq<char>> {
    match at(v, key) {
        Some(ResolvedView::Concrete(YamlView::String(s))) => Some(s),
        _ => None,
    }
}

/// What stands under a key refers to a resource.
pub open spec fn refers_at(v: ResolvedView, key: Seq<char>, id: Seq<char>) -> bool {
    at(v, key) is Some && refers_to(at(v, key)->Some_0, id)
}

/// The text is that of an event about created objects.
pub open spec fn about_created(s: Option<Seq<char>>) -> bool {
    s is Some && crate::text::has_prefix(s->Some_0, "s3:ObjectCreated"@)
}

/// The number under a key: a number, or a string that writes one.
pub open spec fn number_at(v: ResolvedView, key: Seq<char>) -> Option<NumberView> {
    match at(v, key) {
        Some(ResolvedView::Concrete(YamlView::Number(n))) => Some(n),
        Some(ResolvedView::Concrete(YamlView::String(s))) => if crate::text::is_float_text(s) {
            Some(NumberView::Float(s))
        } else {
            None
        },
        _ => None,
    }
}

/// The connection says no more than what it connects, and how.
pub open spec fn is_plain(c: ConnectionView) -> bool {
    c.batch_size is None && c.parallelization_factor is None && c.factor is None
        && c.source_hint is None
}

/// Some notification of a list is about created objects and goes to a resource,
/// which the first of two keys that it has refers to.
pub open spec fn list_notifies(
    config: ResolvedView,
    list: Seq<char>,
    key: Seq<char>,
    other: Seq<char>,
    target: Seq<char>,
) -> bool {
    exists|i: int|
        0 <= i < list_at(config, list).len() && about_created(
            string_at(#[trigger] list_at(config, list)[i], "Event"@),
        ) && (refers_at(list_at(config, list)[i], key, target) || (at(
            list_at(config, list)[i],
            key,
        ) is None && refers_at(list_at(config, list)[i], other, target)))
}

/// A bucket is set up to notify a resource of created objects.
pub open spec fn bucket_notifies(props: ResolvedView, target: Seq<char>) -> bool {
    at(props, "NotificationConfiguration"@) is Some && ({
        let config = at(props, "NotificationConfiguration"@)->Some_0;
        ||| list_notifies(
            config,
            "LambdaConfigurations"@,
            "Function"@,
            "LambdaFunctionArn"@,
            target,
        )
        ||| list_notifies(
            config,
            "LambdaFunctionConfigurations"@,
            "Function"@,
            "LambdaFunctionArn"@,
            target,
        )
        ||| list_notifies(config, "QueueConfigurations"@, "Queue"@, "QueueArn"@, target)
        ||| list_notifies(config, "TopicConfigurations"@, "Topic"@, "TopicArn"@, target)
    })
}

/// The subscription is one of a function or a queue.
pub open spec fn delivers(sub: ResolvedView) -> bool {
    string_at(sub, "Protocol"@) == Some("lambda"@) || string_at(sub, "Protocol"@) == Some("sqs"@)
}

/// The text is an ARN of an event source of a kind, and the source is what stands
/// behind its last colon.
pub open spec fn is_arn_of(s: Seq<char>, source: Seq<char>, hint: Seq<char>) -> bool {
    &&& !source.contains(':')
    &&& exists|before: Seq<char>| s == #[trigger] (before + seq![':'] + source)
    &&& {
        ||| hint == "sqs"@ && crate::text::contains_text(s, ":sqs:"@)
        ||| hint == "kinesis"@ && crate::text::contains_text(s, ":kinesis:"@)
            && !crate::text::contains_text(s, ":sqs:"@)
        ||| hint == "dynamodb"@ && crate::text::contains_text(s, ":dynamodb:"@)
            && crate::text::contains_text(s, "/stream/"@) && !crate::text::contains_text(
            s,
            ":sqs:"@,
        ) && !crate::text::contains_text(s, ":kinesis:"@)
    }
}

/// A mapping names the source, with the hint by its kind, and the function.
pub open spec fn mapping_asks(props: ResolvedView, rs: ResolvedEntries, c: ConnectionView) -> bool {
    &&& c.connection_type == ConnectionType::EventSource
    &&& c.source_hint is Some
    &&& c.factor is None
    &&& c.batch_size == number_at(props, "BatchSize"@)
    &&& c.parallelization_factor == number_at(props, "ParallelizationFactor"@)
    &&& refers_at(props, "FunctionName"@, c.target) || string_at(props, "FunctionName"@) == Some(
        c.target,
    )
    &&& {
        ||| refers_at(props, "EventSourceArn"@, c.source) && lookup(rs, c.source) is Some
            && hint_of_type(lookup(rs, c.source)->Some_0.resource_type, c.source_hint->Some_0)
        ||| string_at(props, "EventSourceArn"@) is Some && is_arn_of(
            string_at(props, "EventSourceArn"@)->Some_0,
            c.source,
            c.source_hint->Some_0,
        )
    }
}

/// The events of a function's trigger, a text or a list, are about created objects.
pub open spec fn trigger_created(props: ResolvedView) -> bool {
    ||| about_created(string_at(props, "Events"@))
    ||| exists|i: int|
        0 <= i < list_at(props, "Events"@).len() && (#[trigger] list_at(props, "Events"@)[i]
            matches ResolvedView::Concrete(YamlView::String(s)) && about_created(Some(s)))
}

/// An event of a function makes the connection to it.
pub open spec fn trigger_asks(
    function: Seq<char>,
    event: ResolvedView,
    rs: ResolvedEntries,
    c: ConnectionView,
) -> bool {
    let kind = string_at(event, "Type"@);
    &&& c.target == function
    &&& at(event, "Properties"@) is Some
    &&& lookup(rs, c.source) is Some
    &&& ({
        let props = at(event, "Properties"@)->Some_0;
        let t = lookup(rs, c.source)->Some_0.resource_type;
        if c.connection_type == ConnectionType::Notification {
            kind == Some("S3"@) && trigger_created(props) && refers_at(props, "Bucket"@, c.source)
                && is_plain(c)
        } else {
            &&& c.connection_type == ConnectionType::EventSource
            &&& c.batch_size == number_at(props, "BatchSize"@)
            &&& c.parallelization_factor == number_at(props, "ParallelizationFactor"@)
            &&& c.factor is None
            &&& c.source_hint is None
            &&& {
                ||| kind == Some("SQS"@) && refers_at(props, "Queue"@, c.source) && t
                    == "AWS::SQS::Queue"@
                ||| kind == Some("Kinesis"@) && refers_at(props, "Stream"@, c.source) && t
                    == "AWS::Kinesis::Stream"@
                ||| kind == Some("DynamoDB"@) && refers_at(props, "Stream"@, c.source) && t
                    == "AWS::DynamoDB::Table"@
            }
        }
    })
}

/// A resource asks for a connection.
pub open spec fn asks_for(
    id: Seq<char>,
    r: ResourceView<ResolvedView>,
    rs: ResolvedEntries,
    c: ConnectionView,
) -> bool {
    let p = r.properties;
    ||| r.resource_type == "AWS::Lambda::EventSourceMapping"@ && mapping_asks(p, rs, c)
    ||| r.resource_type == "AWS::S3::Bucket"@ && c.source == id && bucket_notifies(p, c.target)
        && c.connection_type == ConnectionType::Notification && is_plain(c)
    ||| r.resource_type == "AWS::SNS::Topic"@ && c.source == id && c.connection_type
        == ConnectionType::Notification && is_plain(c) && exists|i: int|
        0 <= i < list_at(p, "Subscription"@).len() && delivers(
            #[trigger] list_at(p, "Subscription"@)[i],
        ) && refers_at(list_at(p, "Subscription"@)[i], "Endpoint"@, c.target)
    ||| r.resource_type == "AWS::SNS::Subscription"@ && delivers(p) && refers_at(
        p,
        "TopicArn"@,
        c.source,
    ) && refers_at(p, "Endpoint"@, c.target) && c.connection_type == ConnectionType::Notification
        && is_plain(c)
    ||| r.resource_type == "AWS::Events::Rule"@ && c.source == id && c.connection_type
        == ConnectionType::Invocation && is_plain(c) && exists|i: int|
        0 <= i < list_at(p, "Targets"@).len() && refers_at(
            #[trigger] list_at(p, "Targets"@)[i],
            "Arn"@,
            c.target,
        )
    ||| r.resource_type == "AWS::Serverless::Function"@ && (at(p, "Events"@) matches Some(
        ResolvedView::Mapping(events),
    ) && exists|i: int|
        0 <= i < events.len() && trigger_asks(id, (#[trigger] events[i]).1, rs, c))
}

// ---------------------------------------------------------------------------
// From connections to reasons
// ---------------------------------------------------------------------------

proof fn lemma_refs_at(v: ResolvedView, key: Seq<char>, j: int)
    requires
        0 <= j < crate::cfn::convert::refs_under(v, key).len(),
    ensures
        refers_at(v, key, crate::cfn::convert::refs_under(v, key)[j].logical_id),
{
    crate::cfn::convert_laws::lemma_refers_back(at(v, key)->Some_0, j);
}

proof fn lemma_edge_at(
    source: Seq<char>,
    v: ResolvedView,
    key: Seq<char>,
    kind: ConnectionType,
    c: ConnectionView,
)
    requires
        crate::cfn::convert::edges_to(
            source,
            crate::cfn::convert::refs_under(v, key),
            kind,
        ).contains(c),
    ensures
        c.source == source,
        c.connection_type == kind,
        is_plain(c),
        refers_at(v, key, c.target),
{
    let refs = crate::cfn::convert::refs_under(v, key);
    let s = crate::cfn::convert::edges_to(source, refs, kind);
    let j = choose|j: int| 0 <= j < s.len() && s[j] == c;
    lemma_refs_at(v, key, j);
    assert(s[j] == crate::arch::plain_connection(source, refs[j].logical_id, kind));
}

proof fn lemma_list(
    bucket: Seq<char>,
    config: ResolvedView,
    list: Seq<char>,
    items: Seq<ResolvedView>,
    key: Seq<char>,
    other: Seq<char>,
    c: ConnectionView,
)
    requires
        items.len() <= list_at(config, list).len(),
        items == list_at(config, list).subrange(0, items.len() as int),
        crate::cfn::convert::s3_list_edges(bucket, items, key, other).contains(c),
    ensures
        list_notifies(config, list, key, other, c.target),
        c.source == bucket,
        c.connection_type == ConnectionType::Notification,
        is_plain(c),
    decreases items.len(),
{
    let all = list_at(config, list);
    let t = items.drop_last();
    let n = items.len() - 1;
    let item = items.last();
    assert(item == all[n]);
    crate::cfn::convert_laws::lemma_add_back(
        crate::cfn::convert::s3_list_edges(bucket, t, key, other),
        crate::cfn::convert::s3_item_edges(bucket, item, key, other),
        c,
    );
    if crate::cfn::convert::s3_list_edges(bucket, t, key, other).contains(c) {
        assert(t =~= all.subrange(0, t.len() as int));
        lemma_list(bucket, config, list, t, key, other, c);
    } else {
        if at(item, key) is Some {
            lemma_edge_at(bucket, item, key, ConnectionType::Notification, c);
        } else {
            lemma_edge_at(bucket, item, other, ConnectionType::Notification, c);
        }
        assert(about_created(string_at(all[n], "Event"@)));
    }
}

proof fn lemma_bucket(bucket: Seq<char>, props: ResolvedView, c: ConnectionView)
    requires
        crate::cfn::convert::s3_edges(bucket, props).contains(c),
    ensures
        bucket_notifies(props, c.target),
        c.source == bucket,
        c.connection_type == ConnectionType::Notification,
        is_plain(c),
{
    let config = at(props, "NotificationConfiguration"@)->Some_0;
    let l1 = list_at(config, "LambdaConfigurations"@);
    let l2 = list_at(config, "LambdaFunctionConfigurations"@);
    let l3 = list_at(config, "QueueConfigurations"@);
    let l4 = list_at(config, "TopicConfigurations"@);
    let e1 = crate::cfn::convert::s3_list_edges(bucket, l1, "Function"@, "LambdaFunctionArn"@);
    let e2 = crate::cfn::convert::s3_list_edges(bucket, l2, "Function"@, "LambdaFunctionArn"@);
    let e3 = crate::cfn::convert::s3_list_edges(bucket, l3, "Queue"@, "QueueArn"@);
    let e4 = crate::cfn::convert::s3_list_edges(bucket, l4, "Topic"@, "TopicArn"@);
    assert(crate::cfn::convert::s3_edges(bucket, props) == e1 + e2 + e3 + e4);
    crate::cfn::convert_laws::lemma_add_back(e1 + e2 + e3, e4, c);
    assert(l1 =~= l1.subrange(0, l1.len() as int));
    assert(l2 =~= l2.subrange(0, l2.len() as int));
    assert(l3 =~= l3.subrange(0, l3.len() as int));
    assert(l4 =~= l4.subrange(0, l4.len() as int));
    if e4.contains(c) {
        lemma_list(bucket, config, "TopicConfigurations"@, l4, "Topic"@, "TopicArn"@, c);
    } else {
        crate::cfn::convert_laws::lemma_add_back(e1 + e2, e3, c);
        if e3.contains(c) {
            lemma_list(bucket, config, "QueueConfigurations"@, l3, "Queue"@, "QueueArn"@, c);
        } else {
            crate::cfn::convert_laws::lemma_add_back(e1, e2, c);
            if e2.contains(c) {
                lemma_list(
                    bucket,
                    config,
                    "LambdaFunctionConfigurations"@,
                    l2,
                    "Function"@,
                    "LambdaFunctionArn"@,
                    c,
                );
            } else {
                lemma_list(
                    bucket,
                    config,
                    "LambdaConfigurations"@,
                    l1,
                    "Function"@,
                    "LambdaFunctionArn"@,
                    c,
                );
            }
        }
    }
}

proof fn lemma_topic(topic: Seq<char>, subs: Seq<ResolvedView>, c: ConnectionView)
    requires
        crate::cfn::convert::topic_edges(topic, subs).contains(c),
    ensures
        c.source == topic,
        c.connection_type == ConnectionType::Notification,
        is_plain(c),
        exists|i: int|
            0 <= i < subs.len() && delivers(#[trigger] subs[i]) && refers_at(
                subs[i],
                "Endpoint"@,
                c.target,
            ),
    decreases subs.len(),
{
    let t = subs.drop_last();
    let last = subs.last();
    let more = if crate::cfn::convert::is_runtime_protocol(last) {
        crate::cfn::convert::edges_to(
            topic,
            crate::cfn::convert::refs_under(last, "Endpoint"@),
            ConnectionType::Notification,
        )
    } else {
        Seq::empty()
    };
    crate::cfn::convert_laws::lemma_add_back(
        crate::cfn::convert::topic_edges(topic, t),
        more,
        c,
    );
    if crate::cfn::convert::topic_edges(topic, t).contains(c) {
        lemma_topic(topic, t, c);
        let i = choose|i: int|
            0 <= i < t.len() && delivers(#[trigger] t[i]) && refers_at(
                t[i],
                "Endpoint"@,
                c.target,
            );
        assert(subs[i] == t[i]);
    } else {
        lemma_edge_at(topic, last, "Endpoint"@, ConnectionType::Notification, c);
        assert(delivers(subs[subs.len() - 1]));
    }
}

proof fn lemma_rule(rule: Seq<char>, targets: Seq<ResolvedView>, c: ConnectionView)
    requires
        crate::cfn::convert::rule_edges(rule, targets).contains(c),
    ensures
        c.source == rule,
        c.connection_type == ConnectionType::Invocation,
        is_plain(c),
        exists|i: int|
            0 <= i < targets.len() && refers_at(#[trigger] targets[i], "Arn"@, c.target),
    decreases targets.len(),
{
    let t = targets.drop_last();
    let last = targets.last();
    let more = crate::cfn::convert::edges_to(
        rule,
        crate::cfn::convert::refs_under(last, "Arn"@),
        ConnectionType::Invocation,
    );
    crate::cfn::convert_laws::lemma_add_back(crate::cfn::convert::rule_edges(rule, t), more, c);
    if crate::cfn::convert::rule_edges(rule, t).contains(c) {
        lemma_rule(rule, t, c);
        let i = choose|i: int|
            0 <= i < t.len() && refers_at(#[trigger] t[i], "Arn"@, c.target);
        assert(targets[i] == t[i]);
    } else {
        lemma_edge_at(rule, last, "Arn"@, ConnectionType::Invocation, c);
        assert(refers_at(targets[targets.len() - 1], "Arn"@, c.target));
    }
}

proof fn lemma_subscription(
    props: ResolvedView,
    sources: Seq<RefView>,
    c: ConnectionView,
)
    requires
        sources.len() <= crate::cfn::convert::refs_under(props, "TopicArn"@).len(),
        sources == crate::cfn::convert::refs_under(props, "TopicArn"@).subrange(
            0,
            sources.len() as int,
        ),
        crate::cfn::convert::all_pairs(
            sources,
            crate::cfn::convert::refs_under(props, "Endpoint"@),
            ConnectionType::Notification,
        ).contains(c),
    ensures
        refers_at(props, "TopicArn"@, c.source),
        refers_at(props, "Endpoint"@, c.target),
        c.connection_type == ConnectionType::Notification,
        is_plain(c),
    decreases sources.len(),
{
    let all = crate::cfn::convert::refs_under(props, "TopicArn"@);
    let targets = crate::cfn::convert::refs_under(props, "Endpoint"@);
    let t = sources.drop_last();
    let n = sources.len() - 1;
    assert(sources.last() == all[n]);
    let more = crate::cfn::convert::edges_to(
        sources.last().logical_id,
        targets,
        ConnectionType::Notification,
    );
    let rest = crate::cfn::convert::all_pairs(t, targets, ConnectionType::Notification);
    crate::cfn::convert_laws::lemma_add_back(rest, more, c);
    if rest.contains(c) {
        assert(t =~= all.subrange(0, t.len() as int));
        lemma_subscription(props, t, c);
    } else {
        lemma_edge_at(
            sources.last().logical_id,
            props,
            "Endpoint"@,
            ConnectionType::Notification,
            c,
        );
        lemma_refs_at(props, "TopicArn"@, n);
    }
}

proof fn lemma_pairs(
    props: ResolvedView,
    sources: Seq<(Seq<char>, Seq<char>)>,
    targets: Seq<Seq<char>>,
    c: ConnectionView,
)
    requires
        crate::cfn::convert::mapping_edges_of(props, sources, targets).contains(c),
    ensures
        exists|i: int, j: int|
            0 <= i < sources.len() && 0 <= j < targets.len() && c
                == #[trigger] crate::cfn::convert::mapping_edge(props, sources[i], targets[j]),
    decreases sources.len(),
{
    let t = sources.drop_last();
    let rest = crate::cfn::convert::mapping_edges_of(props, t, targets);
    let last = sources.last();
    let more = targets.map_values(
        |x: Seq<char>| crate::cfn::convert::mapping_edge(props, last, x),
    );
    crate::cfn::convert_laws::lemma_add_back(rest, more, c);
    if rest.contains(c) {
        lemma_pairs(props, t, targets, c);
        let (i, j) = choose|i: int, j: int|
            0 <= i < t.len() && 0 <= j < targets.len() && c
                == #[trigger] crate::cfn::convert::mapping_edge(props, t[i], targets[j]);
        assert(c == crate::cfn::convert::mapping_edge(props, sources[i], targets[j]));
    } else {
        let j = choose|j: int| 0 <= j < more.len() && more[j] == c;
        let n = sources.len() - 1;
        assert(c == crate::cfn::convert::mapping_edge(props, sources[n], targets[j]));
    }
}

proof fn lemma_declared(refs: Seq<RefView>, rs: ResolvedEntries, i: int)
    requires
        0 <= i < crate::cfn::convert::declared_sources(refs, rs).len(),
    ensures
        ({
            let s = crate::cfn::convert::declared_sources(refs, rs)[i];
            &&& lookup(rs, s.0) is Some
            &&& hint_of_type(lookup(rs, s.0)->Some_0.resource_type, s.1)
            &&& exists|j: int| 0 <= j < refs.len() && (#[trigger] refs[j]).logical_id == s.0
        }),
    decreases refs.len(),
{
    let t = refs.drop_last();
    let rest = crate::cfn::convert::declared_sources(t, rs);
    let all = crate::cfn::convert::declared_sources(refs, rs);
    if i < rest.len() {
        lemma_declared(t, rs, i);
        assert(all[i] == rest[i]);
        let j = choose|j: int| 0 <= j < t.len() && (#[trigger] t[j]).logical_id == rest[i].0;
        assert(refs[j] == t[j]);
    } else {
        assert(refs[refs.len() - 1] == refs.last());
    }
}

proof fn lemma_segment(s: Seq<char>)
    ensures
        ({
            let l = crate::cfn::convert::last_segment(s);
            &&& !l.contains(':')
            &&& s.contains(':') ==> exists|before: Seq<char>| s
                == #[trigger] (before + seq![':'] + l)
        }),
    decreases s.len(),
{
    let l = crate::cfn::convert::last_segment(s);
    if s.len() == 0 {
        assert(l =~= Seq::empty());
    } else if s.last() == ':' {
        assert(l =~= Seq::empty());
        let before = s.drop_last();
        assert(s =~= before + seq![':'] + l);
    } else {
        let t = s.drop_last();
        lemma_segment(t);
        let m = crate::cfn::convert::last_segment(t);
        assert(l == m.push(s.last()));
        assert(!l.contains(':')) by {
            if l.contains(':') {
                let i = choose|i: int| 0 <= i < l.len() && l[i] == ':';
                assert(m[i] == ':');
            }
        }
        if s.contains(':') {
            let i = choose|i: int| 0 <= i < s.len() && s[i] == ':';
            assert(t[i] == ':');
            let before = choose|before: Seq<char>| t == #[trigger] (before + seq![':'] + m);
            assert(s =~= t.push(s.last()));
            assert(s =~= before + seq![':'] + l);
        }
    }
}

proof fn lemma_has_colon(s: Seq<char>, p: Seq<char>)
    requires
        crate::text::contains_text(s, p),
        p.len() > 0,
        p[0] == ':',
    ensures
        s.contains(':'),
{
    let i = choose|i: int| crate::text::occurs_at(s, p, i);
    assert(s.subrange(i, i + p.len())[0] == p[0]);
    assert(s[i] == ':');
}

proof fn lemma_mapping(props: ResolvedView, rs: ResolvedEntries, c: ConnectionView)
    requires
        crate::cfn::convert::mapping_edges(props, rs).contains(c),
    ensures
        mapping_asks(props, rs, c),
{
    let sources = crate::cfn::convert::mapping_sources(props, rs);
    let targets = crate::cfn::convert::mapping_targets(props);
    lemma_pairs(props, sources, targets, c);
    let (i, j) = choose|i: int, j: int|
        0 <= i < sources.len() && 0 <= j < targets.len() && c
            == #[trigger] crate::cfn::convert::mapping_edge(props, sources[i], targets[j]);
    let f = at(props, "FunctionName"@)->Some_0;
    let frefs = crate::cfn::resolved::resolved_refs(f);
    if frefs.len() > 0 {
        assert(targets[j] == frefs[j].logical_id);
        crate::cfn::convert_laws::lemma_refers_back(f, j);
    } else {
        assert(string_at(props, "FunctionName"@) == Some(c.target));
    }
    let v = at(props, "EventSourceArn"@)->Some_0;
    let refs = crate::cfn::resolved::resolved_refs(v);
    if refs.len() > 0 {
        lemma_declared(refs, rs, i);
        let k = choose|k: int|
            0 <= k < refs.len() && (#[trigger] refs[k]).logical_id == sources[i].0;
        crate::cfn::convert_laws::lemma_refers_back(v, k);
    } else {
        let s = string_at(props, "EventSourceArn"@)->Some_0;
        reveal_strlit(":sqs:");
        reveal_strlit(":kinesis:");
        reveal_strlit(":dynamodb:");
        assert(":sqs:"@[0] == ':');
        assert(":kinesis:"@[0] == ':');
        assert(":dynamodb:"@[0] == ':');
        if crate::text::contains_text(s, ":sqs:"@) {
            lemma_has_colon(s, ":sqs:"@);
        } else if crate::text::contains_text(s, ":kinesis:"@) {
            lemma_has_colon(s, ":kinesis:"@);
        } else {
            lemma_has_colon(s, ":dynamodb:"@);
        }
        lemma_segment(s);
    }
}

proof fn lemma_stream(
    refs: Seq<RefView>,
    function: Seq<char>,
    props: ResolvedView,
    expected: Seq<char>,
    rs: ResolvedEntries,
    c: ConnectionView,
)
    requires
        crate::cfn::convert::stream_edges(refs, function, props, expected, rs).contains(c),
    ensures
        c.target == function,
        c.connection_type == ConnectionType::EventSource,
        c.batch_size == number_at(props, "BatchSize"@),
        c.parallelization_factor == number_at(props, "ParallelizationFactor"@),
        c.factor is None,
        c.source_hint is None,
        lookup(rs, c.source) is Some,
        lookup(rs, c.source)->Some_0.resource_type == expected,
        exists|j: int| 0 <= j < refs.len() && (#[trigger] refs[j]).logical_id == c.source,
    decreases refs.len(),
{
    let t = refs.drop_last();
    let rest = crate::cfn::convert::stream_edges(t, function, props, expected, rs);
    let all = crate::cfn::convert::stream_edges(refs, function, props, expected, rs);
    let i = choose|i: int| 0 <= i < all.len() && all[i] == c;
    if i < rest.len() {
        assert(rest[i] == c);
        lemma_stream(t, function, props, expected, rs, c);
        let j = choose|j: int| 0 <= j < t.len() && (#[trigger] t[j]).logical_id == c.source;
        assert(refs[j] == t[j]);
    } else {
        assert(refs[refs.len() - 1] == refs.last());
    }
}

proof fn lemma_bucket_trigger(
    refs: Seq<RefView>,
    function: Seq<char>,
    rs: ResolvedEntries,
    c: ConnectionView,
)
    requires
        crate::cfn::convert::bucket_edges(refs, function, rs).contains(c),
    ensures
        c.target == function,
        c.connection_type == ConnectionType::Notification,
        is_plain(c),
        lookup(rs, c.source) is Some,
        exists|j: int| 0 <= j < refs.len() && (#[trigger] refs[j]).logical_id == c.source,
    decreases refs.len(),
{
    let t = refs.drop_last();
    let rest = crate::cfn::convert::bucket_edges(t, function, rs);
    let all = crate::cfn::convert::bucket_edges(refs, function, rs);
    let i = choose|i: int| 0 <= i < all.len() && all[i] == c;
    if i < rest.len() {
        assert(rest[i] == c);
        lemma_bucket_trigger(t, function, rs, c);
        let j = choose|j: int| 0 <= j < t.len() && (#[trigger] t[j]).logical_id == c.source;
        assert(refs[j] == t[j]);
    } else {
        assert(refs[refs.len() - 1] == refs.last());
    }
}

proof fn lemma_event(
    function: Seq<char>,
    event: ResolvedView,
    rs: ResolvedEntries,
    c: ConnectionView,
)
    requires
        crate::cfn::convert::sam_event_edges(function, event, rs).contains(c),
    ensures
        trigger_asks(function, event, rs, c),
{
    let props = at(event, "Properties"@)->Some_0;
    let kind = string_at(event, "Type"@)->Some_0;
    reveal_strlit("S3");
    reveal_strlit("SQS");
    reveal_strlit("Kinesis");
    reveal_strlit("DynamoDB");
    assert("S3"@.len() == 2);
    assert("SQS"@.len() == 3);
    assert("Kinesis"@.len() == 7);
    assert("DynamoDB"@.len() == 8);
    if kind == "S3"@ {
        let refs = crate::cfn::convert::refs_under(props, "Bucket"@);
        lemma_bucket_trigger(refs, function, rs, c);
        let j = choose|j: int| 0 <= j < refs.len() && (#[trigger] refs[j]).logical_id == c.source;
        lemma_refs_at(props, "Bucket"@, j);
        if string_at(props, "Events"@) is None {
            let items = list_at(props, "Events"@);
            let i = choose|i: int|
                0 <= i < items.len() && crate::cfn::resolved::resolved_str(
                    #[trigger] items[i],
                ) is Some && crate::cfn::convert::names_object_created(
                    crate::cfn::resolved::resolved_str(items[i])->Some_0,
                );
            assert(list_at(props, "Events"@)[i] is Concrete);
        }
    } else {
        let (key, expected) = crate::cfn::convert::sam_source(kind)->Some_0;
        let refs = crate::cfn::convert::refs_under(props, key);
        lemma_stream(refs, function, props, expected, rs, c);
        let j = choose|j: int| 0 <= j < refs.len() && (#[trigger] refs[j]).logical_id == c.source;
        lemma_refs_at(props, key, j);
    }
}

proof fn lemma_events(
    function: Seq<char>,
    events: Seq<(Seq<char>, ResolvedView)>,
    rs: ResolvedEntries,
    c: ConnectionView,
)
    requires
        crate::cfn::convert::sam_events_edges(function, events, rs).contains(c),
    ensures
        exists|i: int|
            0 <= i < events.len() && trigger_asks(function, (#[trigger] events[i]).1, rs, c),
    decreases events.len(),
{
    let t = events.drop_last();
    let rest = crate::cfn::convert::sam_events_edges(function, t, rs);
    let more = crate::cfn::convert::sam_event_edges(function, events.last().1, rs);
    crate::cfn::convert_laws::lemma_add_back(rest, more, c);
    if rest.contains(c) {
        lemma_events(function, t, rs, c);
        let i = choose|i: int|
            0 <= i < t.len() && trigger_asks(function, (#[trigger] t[i]).1, rs, c);
        assert(events[i] == t[i]);
    } else {
        lemma_event(function, events.last().1, rs, c);
        assert(trigger_asks(function, events[events.len() - 1].1, rs, c));
    }
}

/// Every connection of a template's architecture is one that a resource of the
/// template asks for, with what it says: no notification without a subscription of
/// a function or a queue, a notification or a trigger about created objects, no
/// invocation without a target of a rule, and no event source without a mapping or
/// a trigger that names a source of the right type.
pub proof fn law_connections_are_asked_for(
    name: Seq<char>,
    region: Seq<char>,
    rs: ResolvedEntries,
    adapters: CfnAdapterRegistry,
    i: int,
)
    requires
        0 <= i < architecture_of(name, region, rs, adapters).connections.len(),
    ensures
        exists|k: int|
            0 <= k < rs.len() && asks_for(
                (#[trigger] rs[k]).0,
                rs[k].1,
                rs,
                architecture_of(name, region, rs, adapters).connections[i],
            ),
{
    let c = architecture_of(name, region, rs, adapters).connections[i];
    assert(connections_of(rs, rs).contains(c));
    crate::cfn::convert_laws::lemma_origin(rs, rs, c);
    let k = choose|k: int|
        0 <= k < rs.len() && resource_edges((#[trigger] rs[k]).0, rs[k].1, rs).contains(c);
    let r = rs[k].1;
    let p = r.properties;
    reveal_strlit("AWS::Lambda::EventSourceMapping");
    reveal_strlit("AWS::S3::Bucket");
    reveal_strlit("AWS::SNS::Topic");
    reveal_strlit("AWS::SNS::Subscription");
    reveal_strlit("AWS::Events::Rule");
    reveal_strlit("AWS::Serverless::Function");
    assert("AWS::Lambda::EventSourceMapping"@.len() == 31);
    assert("AWS::S3::Bucket"@.len() == 15);
    assert("AWS::SNS::Topic"@.len() == 15);
    assert("AWS::SNS::Subscription"@.len() == 22);
    assert("AWS::Events::Rule"@.len() == 17);
    assert("AWS::Serverless::Function"@.len() == 25);
    assert("AWS::S3::Bucket"@[6] != "AWS::SNS::Topic"@[6]);
    if r.resource_type == "AWS::Lambda::EventSourceMapping"@ {
        lemma_mapping(p, rs, c);
    } else if r.resource_type == "AWS::S3::Bucket"@ {
        lemma_bucket(rs[k].0, p, c);
    } else if r.resource_type == "AWS::SNS::Topic"@ {
        lemma_topic(rs[k].0, list_at(p, "Subscription"@), c);
    } else if r.resource_type == "AWS::SNS::Subscription"@ {
        let sources = crate::cfn::convert::refs_under(p, "TopicArn"@);
        assert(sources =~= sources.subrange(0, sources.len() as int));
        lemma_subscription(p, sources, c);
    } else if r.resource_type == "AWS::Events::Rule"@ {
        lemma_rule(rs[k].0, list_at(p, "Targets"@), c);
    } else {
        lemma_events(rs[k].0, at(p, "Events"@)->Some_0->Mapping_0, rs, c);
    }
    assert(asks_for(rs[k].0, rs[k].1, rs, c));
}

/// The shell of an unsupported resource is that of no service and no provider.
pub proof fn law_unsupported_resources(resource_type: Seq<char>)
    ensures
        crate::arch::other_shell(resource_type).service_id == "other"@,
        crate::arch::other_shell(resource_type).provider == crate::arch::Provider::Other,
{
}

} // verus!
