//! What holds of the architectures that resolved templates become.

use vstd::prelude::*;

use crate::arch::ConnectionType;
use crate::arch::ConnectionView;
use crate::cfn::convert::architecture_of;
use crate::cfn::convert::connections_of;
use crate::cfn::convert::offered_all;
use crate::cfn::convert::resource_edges;
use crate::cfn::parser::ResolvedEntries;
use crate::cfn::parser::ResourceView;
use crate::cfn::resolved::PartView;
use crate::cfn::resolved::ResolvedView;
use crate::cfn::sentinel::RefView;
use crate::iac::CfnAdapterRegistry;
use crate::iac::PropertyView;
use crate::json::JsonView;
use crate::strmap::lookup;
use crate::yaml::NumberView;
use crate::yaml::YamlView;

verus! {

// ---------------------------------------------------------------------------
// References
// ---------------------------------------------------------------------------

/// A value refers to a resource: it is a reference to it or to one of its
/// attributes, or a text with such a reference in it.
pub open spec fn refers_to(v: ResolvedView, id: Seq<char>) -> bool {
    match v {
        ResolvedView::Ref(x) => x == id,
        ResolvedView::GetAtt { logical_id, .. } => logical_id == id,
        ResolvedView::Interpolated(parts) => exists|i: int|
            0 <= i < parts.len() && ((#[trigger] parts[i]) == PartView::Ref(id) || (
            parts[i] is GetAtt && parts[i]->logical_id == id)),
        _ => false,
    }
}

/// Some reference among `refs` is one to `id`.
spec fn has_ref(refs: Seq<RefView>, id: Seq<char>) -> bool {
    exists|i: int| 0 <= i < refs.len() && (#[trigger] refs[i]).logical_id == id
}

proof fn lemma_parts_ref(parts: Seq<PartView>, i: int, id: Seq<char>)
    requires
        0 <= i < parts.len(),
        parts[i] == PartView::Ref(id) || (parts[i] is GetAtt && parts[i]->logical_id == id),
    ensures
        has_ref(crate::cfn::resolved::parts_refs(parts), id),
    decreases parts.len(),
{
    let all = crate::cfn::resolved::parts_refs(parts);
    let t = parts.drop_last();
    if i < t.len() {
        assert(t[i] == parts[i]);
        lemma_parts_ref(t, i, id);
        let rest = crate::cfn::resolved::parts_refs(t);
        let j = choose|j: int| 0 <= j < rest.len() && (#[trigger] rest[j]).logical_id == id;
        assert(all[j] == rest[j]);
    } else {
        assert(all[all.len() - 1].logical_id == id);
    }
}

proof fn lemma_refers(v: ResolvedView, id: Seq<char>)
    requires
        refers_to(v, id),
    ensures
        has_ref(crate::cfn::resolved::resolved_refs(v), id),
{
    let refs = crate::cfn::resolved::resolved_refs(v);
    match v {
        ResolvedView::Interpolated(parts) => {
            let i = choose|i: int|
                0 <= i < parts.len() && ((#[trigger] parts[i]) == PartView::Ref(id) || (
                parts[i] is GetAtt && parts[i]->logical_id == id));
            lemma_parts_ref(parts, i, id);
        },
        _ => {
            assert(refs[0].logical_id == id);
        },
    }
}

proof fn lemma_parts_refs_back(parts: Seq<PartView>, j: int)
    requires
        0 <= j < crate::cfn::resolved::parts_refs(parts).len(),
    ensures
        refers_to(
            ResolvedView::Interpolated(parts),
            crate::cfn::resolved::parts_refs(parts)[j].logical_id,
        ),
    decreases parts.len(),
{
    let all = crate::cfn::resolved::parts_refs(parts);
    let t = parts.drop_last();
    let rest = crate::cfn::resolved::parts_refs(t);
    if j < rest.len() {
        assert(all[j] == rest[j]);
        lemma_parts_refs_back(t, j);
        let id = all[j].logical_id;
        let i = choose|i: int|
            0 <= i < t.len() && ((#[trigger] t[i]) == PartView::Ref(id) || (t[i] is GetAtt
                && t[i]->logical_id == id));
        assert(parts[i] == t[i]);
    } else {
        assert(parts[parts.len() - 1] == parts.last());
    }
}

pub proof fn lemma_refers_back(v: ResolvedView, j: int)
    requires
        0 <= j < crate::cfn::resolved::resolved_refs(v).len(),
    ensures
        refers_to(v, crate::cfn::resolved::resolved_refs(v)[j].logical_id),
{
    if let ResolvedView::Interpolated(parts) = v {
        lemma_parts_refs_back(parts, j);
    }
}

// ---------------------------------------------------------------------------
// Connections
// ---------------------------------------------------------------------------

/// Some connection leads from `source` to `target` and is of the given kind.
pub open spec fn connects(
    s: Seq<ConnectionView>,
    source: Seq<char>,
    target: Seq<char>,
    kind: ConnectionType,
) -> bool {
    exists|i: int|
        0 <= i < s.len() && (#[trigger] s[i]).source == source && s[i].target == target
            && s[i].connection_type == kind
}

proof fn lemma_offered_keeps(
    s: Seq<ConnectionView>,
    more: Seq<ConnectionView>,
    rs: ResolvedEntries,
    free: bool,
)
    ensures
        s.len() <= offered_all(s, more, rs, free).len(),
        forall|i: int| 0 <= i < s.len() ==> #[trigger] offered_all(s, more, rs, free)[i] == s[i],
    decreases more.len(),
{
    if more.len() > 0 {
        lemma_offered_keeps(s, more.drop_last(), rs, free);
    }
}

proof fn lemma_offered_has(
    s: Seq<ConnectionView>,
    more: Seq<ConnectionView>,
    rs: ResolvedEntries,
    free: bool,
    i: int,
)
    requires
        0 <= i < more.len(),
        free || lookup(rs, more[i].source) is Some,
        lookup(rs, more[i].target) is Some,
    ensures
        connects(
            offered_all(s, more, rs, free),
            more[i].source,
            more[i].target,
            more[i].connection_type,
        ),
    decreases more.len(),
{
    let t = more.drop_last();
    let before = offered_all(s, t, rs, free);
    let all = offered_all(s, more, rs, free);
    if i < t.len() {
        assert(t[i] == more[i]);
        lemma_offered_has(s, t, rs, free, i);
        let j = choose|j: int|
            0 <= j < before.len() && (#[trigger] before[j]).source == more[i].source
                && before[j].target == more[i].target && before[j].connection_type
                == more[i].connection_type;
        assert(all[j] == before[j]);
    } else {
        let c = more[i];
        if crate::arch::has_edge(before, c) {
            let j = choose|j: int|
                0 <= j < before.len() && crate::arch::same_edge(#[trigger] before[j], c);
            assert(all[j] == before[j]);
        } else {
            assert(all[all.len() - 1] == c);
        }
    }
}

proof fn lemma_made(done: ResolvedEntries, rs: ResolvedEntries, k: int, c: ConnectionView)
    requires
        0 <= k < done.len(),
        resource_edges(done[k].0, done[k].1, rs).contains(c),
        done[k].1.resource_type == "AWS::Lambda::EventSourceMapping"@ || lookup(
            rs,
            c.source,
        ) is Some,
        lookup(rs, c.target) is Some,
    ensures
        connects(connections_of(done, rs), c.source, c.target, c.connection_type),
    decreases done.len(),
{
    let t = done.drop_last();
    let before = connections_of(t, rs);
    let all = connections_of(done, rs);
    let more = resource_edges(done.last().0, done.last().1, rs);
    let free = crate::cfn::convert::source_is_free(done.last().1.resource_type);
    if k < t.len() {
        assert(t[k] == done[k]);
        lemma_made(t, rs, k, c);
        lemma_offered_keeps(before, more, rs, free);
        let j = choose|j: int|
            0 <= j < before.len() && (#[trigger] before[j]).source == c.source && before[j].target
                == c.target && before[j].connection_type == c.connection_type;
        assert(all[j] == before[j]);
    } else {
        let i = choose|i: int| 0 <= i < more.len() && more[i] == c;
        lemma_offered_has(before, more, rs, free, i);
    }
}

proof fn lemma_offered_origin(
    s: Seq<ConnectionView>,
    more: Seq<ConnectionView>,
    rs: ResolvedEntries,
    free: bool,
    j: int,
)
    requires
        0 <= j < offered_all(s, more, rs, free).len(),
    ensures
        s.contains(offered_all(s, more, rs, free)[j]) || more.contains(
            offered_all(s, more, rs, free)[j],
        ),
    decreases more.len(),
{
    let c = offered_all(s, more, rs, free)[j];
    if more.len() > 0 {
        let t = more.drop_last();
        let before = offered_all(s, t, rs, free);
        if j < before.len() {
            lemma_offered_origin(s, t, rs, free, j);
            if t.contains(c) {
                let i = choose|i: int| 0 <= i < t.len() && t[i] == c;
                assert(more[i] == c);
            }
        } else {
            assert(more[more.len() - 1] == c);
        }
    } else {
        assert(s[j] == c);
    }
}

/// Every connection is one that some resource makes.
pub proof fn lemma_origin(done: ResolvedEntries, rs: ResolvedEntries, c: ConnectionView)
    requires
        connections_of(done, rs).contains(c),
    ensures
        exists|k: int|
            0 <= k < done.len() && resource_edges(
                (#[trigger] done[k]).0,
                done[k].1,
                rs,
            ).contains(c),
    decreases done.len(),
{
    if done.len() > 0 {
        let t = done.drop_last();
        let all = connections_of(done, rs);
        let j = choose|j: int| 0 <= j < all.len() && all[j] == c;
        lemma_offered_origin(
            connections_of(t, rs),
            resource_edges(done.last().0, done.last().1, rs),
            rs,
            crate::cfn::convert::source_is_free(done.last().1.resource_type),
            j,
        );
        if connections_of(t, rs).contains(c) {
            lemma_origin(t, rs, c);
            let k = choose|k: int|
                0 <= k < t.len() && resource_edges((#[trigger] t[k]).0, t[k].1, rs).contains(c);
            assert(done[k] == t[k]);
        } else {
            assert(done[done.len() - 1] == done.last());
        }
    }
}

proof fn lemma_add_left<A>(a: Seq<A>, b: Seq<A>, x: A)
    requires
        a.contains(x),
    ensures
        (a + b).contains(x),
{
    let i = choose|i: int| 0 <= i < a.len() && a[i] == x;
    assert((a + b)[i] == x);
}

proof fn lemma_add_right<A>(a: Seq<A>, b: Seq<A>, x: A)
    requires
        b.contains(x),
    ensures
        (a + b).contains(x),
{
    let i = choose|i: int| 0 <= i < b.len() && b[i] == x;
    assert((a + b)[a.len() + i] == x);
}

pub proof fn lemma_add_back<A>(a: Seq<A>, b: Seq<A>, x: A)
    requires
        (a + b).contains(x),
    ensures
        a.contains(x) || b.contains(x),
{
    let i = choose|i: int| 0 <= i < (a + b).len() && (a + b)[i] == x;
    if i < a.len() {
        assert(a[i] == x);
    } else {
        assert(b[i - a.len()] == x);
    }
}

proof fn lemma_edges_to(
    source: Seq<char>,
    refs: Seq<RefView>,
    kind: ConnectionType,
    target: Seq<char>,
)
    requires
        has_ref(refs, target),
    ensures
        crate::cfn::convert::edges_to(source, refs, kind).contains(
            crate::arch::plain_connection(source, target, kind),
        ),
{
    let i = choose|i: int| 0 <= i < refs.len() && (#[trigger] refs[i]).logical_id == target;
    assert(crate::cfn::convert::edges_to(source, refs, kind)[i] == crate::arch::plain_connection(
        source,
        target,
        kind,
    ));
}

proof fn lemma_edges_to_back(
    source: Seq<char>,
    refs: Seq<RefView>,
    kind: ConnectionType,
    c: ConnectionView,
)
    requires
        crate::cfn::convert::edges_to(source, refs, kind).contains(c),
    ensures
        c.source == source,
        c.connection_type == kind,
        has_ref(refs, c.target),
{
    let s = crate::cfn::convert::edges_to(source, refs, kind);
    let i = choose|i: int| 0 <= i < s.len() && s[i] == c;
    assert(refs[i].logical_id == c.target);
}

// ---------------------------------------------------------------------------
// Event source mappings
// ---------------------------------------------------------------------------

/// The hint of an event source, by the type of the resource that is the source.
pub open spec fn hint_of_type(resource_type: Seq<char>, hint: Seq<char>) -> bool {
    ||| resource_type == "AWS::SQS::Queue"@ && hint == "sqs"@
    ||| resource_type == "AWS::Kinesis::Stream"@ && hint == "kinesis"@
    ||| resource_type == "AWS::DynamoDB::Table"@ && hint == "dynamodb"@
}

proof fn lemma_source_types()
    ensures
        "AWS::SQS::Queue"@ != "AWS::Kinesis::Stream"@,
        "AWS::SQS::Queue"@ != "AWS::DynamoDB::Table"@,
        "AWS::Kinesis::Stream"@ != "AWS::DynamoDB::Table"@,
{
    reveal_strlit("AWS::SQS::Queue");
    reveal_strlit("AWS::Kinesis::Stream");
    reveal_strlit("AWS::DynamoDB::Table");
    assert("AWS::SQS::Queue"@.len() == 15);
    assert("AWS::Kinesis::Stream"@.len() == 20);
    assert("AWS::DynamoDB::Table"@.len() == 20);
    assert("AWS::Kinesis::Stream"@[5] != "AWS::DynamoDB::Table"@[5]);
}

proof fn lemma_declared_sources(
    refs: Seq<RefView>,
    rs: ResolvedEntries,
    source: Seq<char>,
    hint: Seq<char>,
)
    requires
        has_ref(refs, source),
        lookup(rs, source) is Some,
        hint_of_type(lookup(rs, source)->Some_0.resource_type, hint),
    ensures
        crate::cfn::convert::declared_sources(refs, rs).contains((source, hint)),
    decreases refs.len(),
{
    lemma_source_types();
    let t = refs.drop_last();
    let all = crate::cfn::convert::declared_sources(refs, rs);
    let rest = crate::cfn::convert::declared_sources(t, rs);
    let i = choose|i: int| 0 <= i < refs.len() && (#[trigger] refs[i]).logical_id == source;
    if i < t.len() {
        assert(t[i].logical_id == source);
        lemma_declared_sources(t, rs, source, hint);
        let j = choose|j: int| 0 <= j < rest.len() && rest[j] == (source, hint);
        assert(all[j] == rest[j]);
    } else {
        assert(all[all.len() - 1] == (source, hint));
    }
}

proof fn lemma_declared_sources_back(refs: Seq<RefView>, rs: ResolvedEntries, j: int)
    requires
        0 <= j < crate::cfn::convert::declared_sources(refs, rs).len(),
    ensures
        ({
            let x = crate::cfn::convert::declared_sources(refs, rs)[j];
            &&& has_ref(refs, x.0)
            &&& lookup(rs, x.0) is Some
            &&& hint_of_type(lookup(rs, x.0)->Some_0.resource_type, x.1)
        }),
    decreases refs.len(),
{
    let t = refs.drop_last();
    let all = crate::cfn::convert::declared_sources(refs, rs);
    let rest = crate::cfn::convert::declared_sources(t, rs);
    if j < rest.len() {
        assert(all[j] == rest[j]);
        lemma_declared_sources_back(t, rs, j);
        let i = choose|i: int| 0 <= i < t.len() && (#[trigger] t[i]).logical_id == rest[j].0;
        assert(refs[i].logical_id == all[j].0);
    } else {
        assert(refs[refs.len() - 1].logical_id == all[j].0);
    }
}

proof fn lemma_mapping_edges(
    props: ResolvedView,
    sources: Seq<(Seq<char>, Seq<char>)>,
    targets: Seq<Seq<char>>,
    s: (Seq<char>, Seq<char>),
    t: Seq<char>,
)
    requires
        sources.contains(s),
        targets.contains(t),
    ensures
        crate::cfn::convert::mapping_edges_of(props, sources, targets).contains(
            crate::cfn::convert::mapping_edge(props, s, t),
        ),
    decreases sources.len(),
{
    let rest = sources.drop_last();
    let a = crate::cfn::convert::mapping_edges_of(props, rest, targets);
    let b = targets.map_values(
        |x: Seq<char>| crate::cfn::convert::mapping_edge(props, sources.last(), x),
    );
    let e = crate::cfn::convert::mapping_edge(props, s, t);
    let i = choose|i: int| 0 <= i < sources.len() && sources[i] == s;
    if i < rest.len() {
        assert(rest[i] == s);
        lemma_mapping_edges(props, rest, targets, s, t);
        lemma_add_left(a, b, e);
    } else {
        let j = choose|j: int| 0 <= j < targets.len() && targets[j] == t;
        assert(b[j] == e);
        lemma_add_right(a, b, e);
    }
}

proof fn lemma_mapping_edges_back(
    props: ResolvedView,
    sources: Seq<(Seq<char>, Seq<char>)>,
    targets: Seq<Seq<char>>,
    c: ConnectionView,
)
    requires
        crate::cfn::convert::mapping_edges_of(props, sources, targets).contains(c),
    ensures
        exists|i: int, j: int|
            0 <= i < sources.len() && 0 <= j < targets.len() && c
                == crate::cfn::convert::mapping_edge(
                props,
                #[trigger] sources[i],
                #[trigger] targets[j],
            ),
    decreases sources.len(),
{
    if sources.len() > 0 {
        let rest = sources.drop_last();
        let a = crate::cfn::convert::mapping_edges_of(props, rest, targets);
        let b = targets.map_values(
            |x: Seq<char>| crate::cfn::convert::mapping_edge(props, sources.last(), x),
        );
        lemma_add_back(a, b, c);
        if a.contains(c) {
            lemma_mapping_edges_back(props, rest, targets, c);
            let (i, j) = choose|i: int, j: int|
                0 <= i < rest.len() && 0 <= j < targets.len() && c
                    == crate::cfn::convert::mapping_edge(
                    props,
                    #[trigger] rest[i],
                    #[trigger] targets[j],
                );
            assert(sources[i] == rest[i]);
            assert(c == crate::cfn::convert::mapping_edge(props, sources[i], targets[j]));
        } else {
            let j = choose|j: int| 0 <= j < b.len() && b[j] == c;
            let n = sources.len() - 1;
            assert(c == crate::cfn::convert::mapping_edge(props, sources[n], targets[j]));
        }
    }
}

/// An event source mapping whose `EventSourceArn` refers to a declared queue,
/// stream or table and whose `FunctionName` refers to a declared function
/// connects the two: the architecture has an event source connection from one
/// to the other. Where no other resource of the template makes event source
/// connections, its hint is `sqs`, `kinesis` or `dynamodb`, by the type of the
/// source, and its batch size and parallelization factor are those of the
/// mapping.
pub proof fn law_event_source_mapping_connects(
    name: Seq<char>,
    region: Seq<char>,
    rs: ResolvedEntries,
    adapters: CfnAdapterRegistry,
    k: int,
    props: Seq<(Seq<char>, ResolvedView)>,
    source: Seq<char>,
    target: Seq<char>,
    hint: Seq<char>,
)
    requires
        0 <= k < rs.len(),
        rs[k].1.resource_type == "AWS::Lambda::EventSourceMapping"@,
        rs[k].1.properties == ResolvedView::Mapping(props),
        lookup(props, "EventSourceArn"@) is Some,
        refers_to(lookup(props, "EventSourceArn"@)->Some_0, source),
        lookup(props, "FunctionName"@) is Some,
        refers_to(lookup(props, "FunctionName"@)->Some_0, target),
        lookup(rs, source) is Some,
        hint_of_type(lookup(rs, source)->Some_0.resource_type, hint),
        lookup(rs, target) is Some,
    ensures
        connects(
            architecture_of(name, region, rs, adapters).connections,
            source,
            target,
            ConnectionType::EventSource,
        ),
        (forall|j: int|
            0 <= j < rs.len() && j != k ==> (#[trigger] rs[j]).1.resource_type
                != "AWS::Lambda::EventSourceMapping"@ && rs[j].1.resource_type
                != "AWS::Serverless::Function"@) ==> ({
            let all = architecture_of(name, region, rs, adapters).connections;
            forall|i: int|
                0 <= i < all.len() && (#[trigger] all[i]).source == source && all[i].target
                    == target && all[i].connection_type == ConnectionType::EventSource
                    ==> all[i].source_hint == Some(hint) && all[i].factor is None
                    && all[i].batch_size == crate::cfn::convert::number_under(
                    rs[k].1.properties,
                    "BatchSize"@,
                ) && all[i].parallelization_factor == crate::cfn::convert::number_under(
                    rs[k].1.properties,
                    "ParallelizationFactor"@,
                )
        }),
{
    let v = lookup(props, "EventSourceArn"@)->Some_0;
    let f = lookup(props, "FunctionName"@)->Some_0;
    let p = rs[k].1.properties;
    lemma_refers(v, source);
    lemma_refers(f, target);
    lemma_source_types();
    let refs = crate::cfn::resolved::resolved_refs(v);
    lemma_declared_sources(refs, rs, source, hint);
    let sources = crate::cfn::convert::mapping_sources(p, rs);
    assert(refs.len() > 0);
    assert(sources == crate::cfn::convert::declared_sources(refs, rs));
    let targets = crate::cfn::convert::mapping_targets(p);
    let trefs = crate::cfn::resolved::resolved_refs(f);
    let i = choose|i: int| 0 <= i < trefs.len() && (#[trigger] trefs[i]).logical_id == target;
    assert(targets[i] == target);
    lemma_mapping_edges(p, sources, targets, (source, hint), target);
    let e = crate::cfn::convert::mapping_edge(p, (source, hint), target);
    lemma_made(rs, rs, k, e);
    let all = architecture_of(name, region, rs, adapters).connections;
    if forall|j: int|
        0 <= j < rs.len() && j != k ==> (#[trigger] rs[j]).1.resource_type
            != "AWS::Lambda::EventSourceMapping"@ && rs[j].1.resource_type
            != "AWS::Serverless::Function"@ {
        assert forall|i: int|
            0 <= i < all.len() && (#[trigger] all[i]).source == source && all[i].target == target
                && all[i].connection_type
                == ConnectionType::EventSource implies all[i].source_hint == Some(hint)
            && all[i].factor is None && all[i].batch_size == crate::cfn::convert::number_under(
            rs[k].1.properties,
            "BatchSize"@,
        ) && all[i].parallelization_factor == crate::cfn::convert::number_under(
            rs[k].1.properties,
            "ParallelizationFactor"@,
        ) by {
            let c = all[i];
            assert(connections_of(rs, rs).contains(c));
            lemma_origin(rs, rs, c);
            let j = choose|j: int|
                0 <= j < rs.len() && resource_edges((#[trigger] rs[j]).0, rs[j].1, rs).contains(c);
            if j != k {
                lemma_kinds(rs[j].0, rs[j].1, rs, c);
            }
            lemma_mapping_edges_back(p, sources, targets, c);
            let (a, b) = choose|a: int, b: int|
                0 <= a < sources.len() && 0 <= b < targets.len() && c
                    == crate::cfn::convert::mapping_edge(
                    p,
                    #[trigger] sources[a],
                    #[trigger] targets[b],
                );
            lemma_declared_sources_back(refs, rs, a);
        }
    }
}

/// An event source mapping whose `EventSourceArn` is the text of an ARN takes the
/// last segment for the source, which need not be declared, and whose
/// `FunctionName` is a text takes it for the function.
pub proof fn law_literal_event_source_connects(
    name: Seq<char>,
    region: Seq<char>,
    rs: ResolvedEntries,
    adapters: CfnAdapterRegistry,
    k: int,
    props: Seq<(Seq<char>, ResolvedView)>,
    before: Seq<char>,
    source: Seq<char>,
    target: Seq<char>,
)
    requires
        0 <= k < rs.len(),
        rs[k].1.resource_type == "AWS::Lambda::EventSourceMapping"@,
        rs[k].1.properties == ResolvedView::Mapping(props),
        !source.contains(':'),
        lookup(props, "EventSourceArn"@) == Some(
            ResolvedView::Concrete(YamlView::String(before + seq![':'] + source)),
        ),
        crate::text::contains_text(before + seq![':'] + source, ":sqs:"@)
            || crate::text::contains_text(before + seq![':'] + source, ":kinesis:"@) || (
        crate::text::contains_text(before + seq![':'] + source, ":dynamodb:"@)
            && crate::text::contains_text(before + seq![':'] + source, "/stream/"@)),
        lookup(props, "FunctionName"@) == Some(ResolvedView::Concrete(YamlView::String(target))),
        lookup(rs, target) is Some,
    ensures
        connects(
            architecture_of(name, region, rs, adapters).connections,
            source,
            target,
            ConnectionType::EventSource,
        ),
{
    let p = rs[k].1.properties;
    let arn = before + seq![':'] + source;
    lemma_last_segment(before, source);
    let sources = crate::cfn::convert::mapping_sources(p, rs);
    let targets = crate::cfn::convert::mapping_targets(p);
    assert(targets[0] == target);
    assert(sources.len() == 1 && sources[0].0 == source);
    lemma_mapping_edges(p, sources, targets, sources[0], target);
    lemma_made(rs, rs, k, crate::cfn::convert::mapping_edge(p, sources[0], target));
}

proof fn lemma_last_segment(before: Seq<char>, s: Seq<char>)
    requires
        !s.contains(':'),
    ensures
        crate::cfn::convert::last_segment(before + seq![':'] + s) == s,
    decreases s.len(),
{
    let t = before + seq![':'] + s;
    if s.len() > 0 {
        assert(s.contains(s[s.len() - 1]));
        let r = s.drop_last();
        assert(!r.contains(':')) by {
            if r.contains(':') {
                let i = r.index_of(':');
                assert(s[i] == ':');
            }
        }
        lemma_last_segment(before, r);
        assert(t.drop_last() =~= before + seq![':'] + r);
        assert(r.push(s.last()) =~= s);
    } else {
        assert(t.last() == ':');
        assert(s =~= Seq::empty());
    }
}

/// What connections a resource makes, by its type: an event source mapping and
/// a serverless function make event sources; a bucket, a topic, a subscription
/// and a serverless function make notifications; a rule makes invocations; and
/// nothing else makes any.
proof fn lemma_kinds(
    id: Seq<char>,
    r: ResourceView<ResolvedView>,
    rs: ResolvedEntries,
    c: ConnectionView,
)
    requires
        resource_edges(id, r, rs).contains(c),
    ensures
        match c.connection_type {
            ConnectionType::EventSource => r.resource_type
                == "AWS::Lambda::EventSourceMapping"@ || (r.resource_type
                == "AWS::Serverless::Function"@ && c.target == id),
            ConnectionType::Notification => ((r.resource_type == "AWS::S3::Bucket"@
                || r.resource_type == "AWS::SNS::Topic"@) && c.source == id) || r.resource_type
                == "AWS::SNS::Subscription"@ || (r.resource_type == "AWS::Serverless::Function"@
                && c.target == id),
            ConnectionType::Invocation => r.resource_type == "AWS::Events::Rule"@ && c.source == id,
            ConnectionType::DataFlow => false,
        },
{
    reveal_strlit("AWS::Lambda::EventSourceMapping");
    reveal_strlit("AWS::S3::Bucket");
    reveal_strlit("AWS::SNS::Topic");
    reveal_strlit("AWS::SNS::Subscription");
    reveal_strlit("AWS::Events::Rule");
    reveal_strlit("AWS::Serverless::Function");
    assert("AWS::Lambda::EventSourceMapping"@.len() == 31);
    assert("AWS::S3::Bucket"@.len() == 15);
    assert("AWS::SNS::Topic"@.len() == 15);
    assert("AWS::SNS::Subscription"@.len() == 22);
    assert("AWS::Events::Rule"@.len() == 17);
    assert("AWS::Serverless::Function"@.len() == 25);
    assert("AWS::S3::Bucket"@[6] != "AWS::SNS::Topic"@[6]);
    let p = r.properties;
    if r.resource_type == "AWS::Lambda::EventSourceMapping"@ {
        lemma_mapping_edges_back(
            p,
            crate::cfn::convert::mapping_sources(p, rs),
            crate::cfn::convert::mapping_targets(p),
            c,
        );
    } else if r.resource_type == "AWS::S3::Bucket"@ {
        lemma_s3_edges_back(id, p, c);
    } else if r.resource_type == "AWS::SNS::Topic"@ {
        lemma_topic_edges_back(id, crate::cfn::convert::items_under(p, "Subscription"@), c);
    } else if r.resource_type == "AWS::SNS::Subscription"@ {
        lemma_pairs_back(
            crate::cfn::convert::refs_under(p, "TopicArn"@),
            crate::cfn::convert::refs_under(p, "Endpoint"@),
            ConnectionType::Notification,
            c,
        );
    } else if r.resource_type == "AWS::Events::Rule"@ {
        lemma_rule_edges_back(id, crate::cfn::convert::items_under(p, "Targets"@), c);
    } else if r.resource_type == "AWS::Serverless::Function"@ {
        if let Some(ResolvedView::Mapping(events)) = crate::cfn::resolved::resolved_get(
            p,
            "Events"@,
        ) {
            lemma_sam_edges_back(id, events, rs, c);
        }
    }
}

/// Every connection of a template's architecture comes from a resource that
/// makes connections of its kind: invocations come from rules, notifications
/// from buckets, topics, subscriptions and functions, and event sources from
/// mappings and functions.
pub proof fn law_connections_have_a_reason(
    name: Seq<char>,
    region: Seq<char>,
    rs: ResolvedEntries,
    adapters: CfnAdapterRegistry,
    i: int,
)
    requires
        0 <= i < architecture_of(name, region, rs, adapters).connections.len(),
    ensures
        ({
            let c = architecture_of(name, region, rs, adapters).connections[i];
            exists|k: int|
                0 <= k < rs.len() && match c.connection_type {
                    ConnectionType::EventSource => (#[trigger] rs[k]).1.resource_type
                        == "AWS::Lambda::EventSourceMapping"@ || (rs[k].1.resource_type
                        == "AWS::Serverless::Function"@ && c.target == rs[k].0),
                    ConnectionType::Notification => ((rs[k].1.resource_type
                        == "AWS::S3::Bucket"@ || rs[k].1.resource_type == "AWS::SNS::Topic"@)
                        && c.source == rs[k].0) || rs[k].1.resource_type
                        == "AWS::SNS::Subscription"@ || (rs[k].1.resource_type
                        == "AWS::Serverless::Function"@ && c.target == rs[k].0),
                    ConnectionType::Invocation => rs[k].1.resource_type == "AWS::Events::Rule"@
                        && c.source == rs[k].0,
                    ConnectionType::DataFlow => false,
                }
        }),
{
    let c = architecture_of(name, region, rs, adapters).connections[i];
    assert(connections_of(rs, rs).contains(c));
    lemma_origin(rs, rs, c);
    let k = choose|k: int|
        0 <= k < rs.len() && resource_edges((#[trigger] rs[k]).0, rs[k].1, rs).contains(c);
    lemma_kinds(rs[k].0, rs[k].1, rs, c);
}

// ---------------------------------------------------------------------------
// Buckets
// ---------------------------------------------------------------------------

proof fn lemma_s3_list(
    bucket: Seq<char>,
    items: Seq<ResolvedView>,
    a: Seq<char>,
    b: Seq<char>,
    i: int,
    v: ResolvedView,
    target: Seq<char>,
)
    requires
        0 <= i < items.len(),
        crate::cfn::convert::is_created_event(items[i]),
        crate::cfn::convert::first_under(items[i], a, b) == Some(v),
        refers_to(v, target),
    ensures
        crate::cfn::convert::s3_list_edges(bucket, items, a, b).contains(
            crate::arch::plain_connection(bucket, target, ConnectionType::Notification),
        ),
    decreases items.len(),
{
    let t = items.drop_last();
    let x = crate::cfn::convert::s3_list_edges(bucket, t, a, b);
    let y = crate::cfn::convert::s3_item_edges(bucket, items.last(), a, b);
    let e = crate::arch::plain_connection(bucket, target, ConnectionType::Notification);
    if i < t.len() {
        assert(t[i] == items[i]);
        lemma_s3_list(bucket, t, a, b, i, v, target);
        lemma_add_left(x, y, e);
    } else {
        lemma_refers(v, target);
        lemma_edges_to(
            bucket,
            crate::cfn::resolved::resolved_refs(v),
            ConnectionType::Notification,
            target,
        );
        lemma_add_right(x, y, e);
    }
}

proof fn lemma_s3_list_back(
    bucket: Seq<char>,
    items: Seq<ResolvedView>,
    a: Seq<char>,
    b: Seq<char>,
    c: ConnectionView,
)
    requires
        crate::cfn::convert::s3_list_edges(bucket, items, a, b).contains(c),
    ensures
        c.source == bucket,
        c.connection_type == ConnectionType::Notification,
    decreases items.len(),
{
    if items.len() > 0 {
        let t = items.drop_last();
        let x = crate::cfn::convert::s3_list_edges(bucket, t, a, b);
        let y = crate::cfn::convert::s3_item_edges(bucket, items.last(), a, b);
        lemma_add_back(x, y, c);
        if x.contains(c) {
            lemma_s3_list_back(bucket, t, a, b, c);
        } else if let Some(v) = crate::cfn::convert::first_under(items.last(), a, b) {
            lemma_edges_to_back(
                bucket,
                crate::cfn::resolved::resolved_refs(v),
                ConnectionType::Notification,
                c,
            );
        }
    }
}

proof fn lemma_s3_edges_back(bucket: Seq<char>, p: ResolvedView, c: ConnectionView)
    requires
        crate::cfn::convert::s3_edges(bucket, p).contains(c),
    ensures
        c.source == bucket,
        c.connection_type == ConnectionType::Notification,
{
    if let Some(n) = crate::cfn::resolved::resolved_get(p, "NotificationConfiguration"@) {
        let i1 = crate::cfn::convert::items_under(n, "LambdaConfigurations"@);
        let i2 = crate::cfn::convert::items_under(n, "LambdaFunctionConfigurations"@);
        let i3 = crate::cfn::convert::items_under(n, "QueueConfigurations"@);
        let i4 = crate::cfn::convert::items_under(n, "TopicConfigurations"@);
        let a = crate::cfn::convert::s3_list_edges(bucket, i1, "Function"@, "LambdaFunctionArn"@);
        let b = crate::cfn::convert::s3_list_edges(bucket, i2, "Function"@, "LambdaFunctionArn"@);
        let q = crate::cfn::convert::s3_list_edges(bucket, i3, "Queue"@, "QueueArn"@);
        let t = crate::cfn::convert::s3_list_edges(bucket, i4, "Topic"@, "TopicArn"@);
        lemma_add_back(a + b + q, t, c);
        if t.contains(c) {
            lemma_s3_list_back(bucket, i4, "Topic"@, "TopicArn"@, c);
        } else {
            lemma_add_back(a + b, q, c);
            if q.contains(c) {
                lemma_s3_list_back(bucket, i3, "Queue"@, "QueueArn"@, c);
            } else {
                lemma_add_back(a, b, c);
                if b.contains(c) {
                    lemma_s3_list_back(bucket, i2, "Function"@, "LambdaFunctionArn"@, c);
                } else {
                    lemma_s3_list_back(bucket, i1, "Function"@, "LambdaFunctionArn"@, c);
                }
            }
        }
    }
}

/// A bucket whose notification configuration names a function, a queue or a
/// topic of the template for created objects notifies it.
pub proof fn law_bucket_notifies(
    name: Seq<char>,
    region: Seq<char>,
    rs: ResolvedEntries,
    adapters: CfnAdapterRegistry,
    k: int,
    props: Seq<(Seq<char>, ResolvedView)>,
    config: Seq<(Seq<char>, ResolvedView)>,
    list: Seq<char>,
    items: Seq<ResolvedView>,
    i: int,
    item: Seq<(Seq<char>, ResolvedView)>,
    event: Seq<char>,
    key: Seq<char>,
    target: Seq<char>,
)
    requires
        crate::strmap::keys_rise(rs),
        0 <= k < rs.len(),
        rs[k].1.resource_type == "AWS::S3::Bucket"@,
        rs[k].1.properties == ResolvedView::Mapping(props),
        lookup(props, "NotificationConfiguration"@) == Some(ResolvedView::Mapping(config)),
        lookup(config, list) == Some(ResolvedView::Sequence(items)),
        0 <= i < items.len(),
        items[i] == ResolvedView::Mapping(item),
        lookup(item, "Event"@) == Some(
            ResolvedView::Concrete(YamlView::String("s3:ObjectCreated"@ + event)),
        ),
        lookup(item, key) is Some,
        refers_to(lookup(item, key)->Some_0, target),
        ({
            ||| (list == "LambdaConfigurations"@ || list == "LambdaFunctionConfigurations"@) && (key
                == "Function"@ || (key == "LambdaFunctionArn"@ && lookup(item, "Function"@) is None))
            ||| list == "QueueConfigurations"@ && (key == "Queue"@ || (key == "QueueArn"@ && lookup(
                item,
                "Queue"@,
            ) is None))
            ||| list == "TopicConfigurations"@ && (key == "Topic"@ || (key == "TopicArn"@ && lookup(
                item,
                "Topic"@,
            ) is None))
        }),
        lookup(rs, target) is Some,
    ensures
        connects(
            architecture_of(name, region, rs, adapters).connections,
            rs[k].0,
            target,
            ConnectionType::Notification,
        ),
{
    reveal_strlit("AWS::Lambda::EventSourceMapping");
    reveal_strlit("AWS::S3::Bucket");
    reveal_strlit("AWS::SNS::Topic");
    reveal_strlit("AWS::SNS::Subscription");
    reveal_strlit("AWS::Events::Rule");
    reveal_strlit("AWS::Serverless::Function");
    assert("AWS::Lambda::EventSourceMapping"@.len() == 31);
    assert("AWS::S3::Bucket"@.len() == 15);
    assert("AWS::SNS::Topic"@.len() == 15);
    assert("AWS::SNS::Subscription"@.len() == 22);
    assert("AWS::Events::Rule"@.len() == 17);
    assert("AWS::Serverless::Function"@.len() == 25);
    assert("AWS::S3::Bucket"@[6] != "AWS::SNS::Topic"@[6]);
    reveal_strlit("LambdaConfigurations");
    reveal_strlit("LambdaFunctionConfigurations");
    reveal_strlit("QueueConfigurations");
    reveal_strlit("TopicConfigurations");
    assert("LambdaConfigurations"@.len() == 20);
    assert("LambdaFunctionConfigurations"@.len() == 28);
    assert("QueueConfigurations"@.len() == 19);
    assert("TopicConfigurations"@.len() == 19);
    assert("QueueConfigurations"@[0] != "TopicConfigurations"@[0]);
    let bucket = rs[k].0;
    let n = ResolvedView::Mapping(config);
    let v = lookup(item, key)->Some_0;
    let text = "s3:ObjectCreated"@ + event;
    assert(crate::text::has_prefix(text, "s3:ObjectCreated"@)) by {
        assert(text.subrange(0, "s3:ObjectCreated"@.len() as int) =~= "s3:ObjectCreated"@);
    }
    assert(crate::cfn::convert::is_created_event(items[i]));
    let i1 = crate::cfn::convert::items_under(n, "LambdaConfigurations"@);
    let i2 = crate::cfn::convert::items_under(n, "LambdaFunctionConfigurations"@);
    let i3 = crate::cfn::convert::items_under(n, "QueueConfigurations"@);
    let i4 = crate::cfn::convert::items_under(n, "TopicConfigurations"@);
    let a = crate::cfn::convert::s3_list_edges(bucket, i1, "Function"@, "LambdaFunctionArn"@);
    let b = crate::cfn::convert::s3_list_edges(bucket, i2, "Function"@, "LambdaFunctionArn"@);
    let q = crate::cfn::convert::s3_list_edges(bucket, i3, "Queue"@, "QueueArn"@);
    let t = crate::cfn::convert::s3_list_edges(bucket, i4, "Topic"@, "TopicArn"@);
    let e = crate::arch::plain_connection(bucket, target, ConnectionType::Notification);
    if list == "LambdaConfigurations"@ {
        lemma_s3_list(bucket, i1, "Function"@, "LambdaFunctionArn"@, i, v, target);
        lemma_add_left(a, b, e);
        lemma_add_left(a + b, q, e);
        lemma_add_left(a + b + q, t, e);
    } else if list == "LambdaFunctionConfigurations"@ {
        lemma_s3_list(bucket, i2, "Function"@, "LambdaFunctionArn"@, i, v, target);
        lemma_add_right(a, b, e);
        lemma_add_left(a + b, q, e);
        lemma_add_left(a + b + q, t, e);
    } else if list == "QueueConfigurations"@ {
        lemma_s3_list(bucket, i3, "Queue"@, "QueueArn"@, i, v, target);
        lemma_add_right(a + b, q, e);
        lemma_add_left(a + b + q, t, e);
    } else {
        lemma_s3_list(bucket, i4, "Topic"@, "TopicArn"@, i, v, target);
        lemma_add_right(a + b + q, t, e);
    }
    crate::strmap::lemma_lookup_sorted(rs, k);
    lemma_made(rs, rs, k, e);
}

// ---------------------------------------------------------------------------
// Topics
// ---------------------------------------------------------------------------

proof fn lemma_topic_edges_back(topic: Seq<char>, subs: Seq<ResolvedView>, c: ConnectionView)
    requires
        crate::cfn::convert::topic_edges(topic, subs).contains(c),
    ensures
        c.source == topic,
        c.connection_type == ConnectionType::Notification,
        exists|i: int|
            0 <= i < subs.len() && (crate::cfn::convert::text_under(
                #[trigger] subs[i],
                "Protocol"@,
            ) == Some("lambda"@) || crate::cfn::convert::text_under(subs[i], "Protocol"@) == Some(
                "sqs"@,
            )),
    decreases subs.len(),
{
    if subs.len() > 0 {
        let t = subs.drop_last();
        let x = crate::cfn::convert::topic_edges(topic, t);
        let refs = crate::cfn::convert::refs_under(subs.last(), "Endpoint"@);
        let y = if crate::cfn::convert::is_runtime_protocol(subs.last()) {
            crate::cfn::convert::edges_to(topic, refs, ConnectionType::Notification)
        } else {
            Seq::empty()
        };
        lemma_add_back(x, y, c);
        if x.contains(c) {
            lemma_topic_edges_back(topic, t, c);
            let i = choose|i: int|
                0 <= i < t.len() && (crate::cfn::convert::text_under(
                    #[trigger] t[i],
                    "Protocol"@,
                ) == Some("lambda"@) || crate::cfn::convert::text_under(t[i], "Protocol"@) == Some(
                    "sqs"@,
                ));
            assert(subs[i] == t[i]);
        } else {
            lemma_edges_to_back(topic, refs, ConnectionType::Notification, c);
            assert(subs[subs.len() - 1] == subs.last());
        }
    }
}

proof fn lemma_topic_edges(
    topic: Seq<char>,
    subs: Seq<ResolvedView>,
    i: int,
    item: Seq<(Seq<char>, ResolvedView)>,
    protocol: Seq<char>,
    target: Seq<char>,
)
    requires
        0 <= i < subs.len(),
        subs[i] == ResolvedView::Mapping(item),
        protocol == "lambda"@ || protocol == "sqs"@,
        lookup(item, "Protocol"@) == Some(ResolvedView::Concrete(YamlView::String(protocol))),
        lookup(item, "Endpoint"@) is Some,
        refers_to(lookup(item, "Endpoint"@)->Some_0, target),
    ensures
        crate::cfn::convert::topic_edges(topic, subs).contains(
            crate::arch::plain_connection(topic, target, ConnectionType::Notification),
        ),
    decreases subs.len(),
{
    let t = subs.drop_last();
    let x = crate::cfn::convert::topic_edges(topic, t);
    let refs = crate::cfn::convert::refs_under(subs.last(), "Endpoint"@);
    let y = if crate::cfn::convert::is_runtime_protocol(subs.last()) {
        crate::cfn::convert::edges_to(topic, refs, ConnectionType::Notification)
    } else {
        Seq::empty()
    };
    let e = crate::arch::plain_connection(topic, target, ConnectionType::Notification);
    if i < t.len() {
        assert(t[i] == subs[i]);
        lemma_topic_edges(topic, t, i, item, protocol, target);
        lemma_add_left(x, y, e);
    } else {
        lemma_refers(lookup(item, "Endpoint"@)->Some_0, target);
        lemma_edges_to(topic, refs, ConnectionType::Notification, target);
        lemma_add_right(x, y, e);
    }
}

/// A topic with an inline subscription of a function or a queue of the template
/// notifies it.
pub proof fn law_topic_notifies(
    name: Seq<char>,
    region: Seq<char>,
    rs: ResolvedEntries,
    adapters: CfnAdapterRegistry,
    k: int,
    props: Seq<(Seq<char>, ResolvedView)>,
    subs: Seq<ResolvedView>,
    i: int,
    item: Seq<(Seq<char>, ResolvedView)>,
    protocol: Seq<char>,
    target: Seq<char>,
)
    requires
        crate::strmap::keys_rise(rs),
        0 <= k < rs.len(),
        rs[k].1.resource_type == "AWS::SNS::Topic"@,
        rs[k].1.properties == ResolvedView::Mapping(props),
        lookup(props, "Subscription"@) == Some(ResolvedView::Sequence(subs)),
        0 <= i < subs.len(),
        subs[i] == ResolvedView::Mapping(item),
        protocol == "lambda"@ || protocol == "sqs"@,
        lookup(item, "Protocol"@) == Some(ResolvedView::Concrete(YamlView::String(protocol))),
        lookup(item, "Endpoint"@) is Some,
        refers_to(lookup(item, "Endpoint"@)->Some_0, target),
        lookup(rs, target) is Some,
    ensures
        connects(
            architecture_of(name, region, rs, adapters).connections,
            rs[k].0,
            target,
            ConnectionType::Notification,
        ),
{
    reveal_strlit("AWS::Lambda::EventSourceMapping");
    reveal_strlit("AWS::S3::Bucket");
    reveal_strlit("AWS::SNS::Topic");
    reveal_strlit("AWS::SNS::Subscription");
    reveal_strlit("AWS::Events::Rule");
    reveal_strlit("AWS::Serverless::Function");
    assert("AWS::Lambda::EventSourceMapping"@.len() == 31);
    assert("AWS::S3::Bucket"@.len() == 15);
    assert("AWS::SNS::Topic"@.len() == 15);
    assert("AWS::SNS::Subscription"@.len() == 22);
    assert("AWS::Events::Rule"@.len() == 17);
    assert("AWS::Serverless::Function"@.len() == 25);
    assert("AWS::S3::Bucket"@[6] != "AWS::SNS::Topic"@[6]);
    lemma_topic_edges(rs[k].0, subs, i, item, protocol, target);
    crate::strmap::lemma_lookup_sorted(rs, k);
    lemma_made(
        rs,
        rs,
        k,
        crate::arch::plain_connection(rs[k].0, target, ConnectionType::Notification),
    );
}

proof fn lemma_pairs(
    sources: Seq<RefView>,
    targets: Seq<RefView>,
    kind: ConnectionType,
    source: Seq<char>,
    target: Seq<char>,
)
    requires
        has_ref(sources, source),
        has_ref(targets, target),
    ensures
        crate::cfn::convert::all_pairs(sources, targets, kind).contains(
            crate::arch::plain_connection(source, target, kind),
        ),
    decreases sources.len(),
{
    let t = sources.drop_last();
    let x = crate::cfn::convert::all_pairs(t, targets, kind);
    let y = crate::cfn::convert::edges_to(sources.last().logical_id, targets, kind);
    let e = crate::arch::plain_connection(source, target, kind);
    let i = choose|i: int| 0 <= i < sources.len() && (#[trigger] sources[i]).logical_id == source;
    if i < t.len() {
        assert(t[i].logical_id == source);
        lemma_pairs(t, targets, kind, source, target);
        lemma_add_left(x, y, e);
    } else {
        lemma_edges_to(source, targets, kind, target);
        lemma_add_right(x, y, e);
    }
}

proof fn lemma_pairs_back(
    sources: Seq<RefView>,
    targets: Seq<RefView>,
    kind: ConnectionType,
    c: ConnectionView,
)
    requires
        crate::cfn::convert::all_pairs(sources, targets, kind).contains(c),
    ensures
        c.connection_type == kind,
    decreases sources.len(),
{
    if sources.len() > 0 {
        let t = sources.drop_last();
        let x = crate::cfn::convert::all_pairs(t, targets, kind);
        let y = crate::cfn::convert::edges_to(sources.last().logical_id, targets, kind);
        lemma_add_back(x, y, c);
        if x.contains(c) {
            lemma_pairs_back(t, targets, kind, c);
        } else {
            lemma_edges_to_back(sources.last().logical_id, targets, kind, c);
        }
    }
}

/// A subscription of a function or a queue to a topic, all of the template,
/// makes the topic notify it.
pub proof fn law_subscription_notifies(
    name: Seq<char>,
    region: Seq<char>,
    rs: ResolvedEntries,
    adapters: CfnAdapterRegistry,
    k: int,
    props: Seq<(Seq<char>, ResolvedView)>,
    protocol: Seq<char>,
    topic: Seq<char>,
    target: Seq<char>,
)
    requires
        0 <= k < rs.len(),
        rs[k].1.resource_type == "AWS::SNS::Subscription"@,
        rs[k].1.properties == ResolvedView::Mapping(props),
        protocol == "lambda"@ || protocol == "sqs"@,
        lookup(props, "Protocol"@) == Some(ResolvedView::Concrete(YamlView::String(protocol))),
        lookup(props, "TopicArn"@) is Some,
        refers_to(lookup(props, "TopicArn"@)->Some_0, topic),
        lookup(props, "Endpoint"@) is Some,
        refers_to(lookup(props, "Endpoint"@)->Some_0, target),
        lookup(rs, topic) is Some,
        lookup(rs, target) is Some,
    ensures
        connects(
            architecture_of(name, region, rs, adapters).connections,
            topic,
            target,
            ConnectionType::Notification,
        ),
{
    reveal_strlit("AWS::Lambda::EventSourceMapping");
    reveal_strlit("AWS::S3::Bucket");
    reveal_strlit("AWS::SNS::Topic");
    reveal_strlit("AWS::SNS::Subscription");
    reveal_strlit("AWS::Events::Rule");
    reveal_strlit("AWS::Serverless::Function");
    assert("AWS::Lambda::EventSourceMapping"@.len() == 31);
    assert("AWS::S3::Bucket"@.len() == 15);
    assert("AWS::SNS::Topic"@.len() == 15);
    assert("AWS::SNS::Subscription"@.len() == 22);
    assert("AWS::Events::Rule"@.len() == 17);
    assert("AWS::Serverless::Function"@.len() == 25);
    assert("AWS::S3::Bucket"@[6] != "AWS::SNS::Topic"@[6]);
    lemma_refers(lookup(props, "TopicArn"@)->Some_0, topic);
    lemma_refers(lookup(props, "Endpoint"@)->Some_0, target);
    let p = rs[k].1.properties;
    lemma_pairs(
        crate::cfn::convert::refs_under(p, "TopicArn"@),
        crate::cfn::convert::refs_under(p, "Endpoint"@),
        ConnectionType::Notification,
        topic,
        target,
    );
    lemma_made(
        rs,
        rs,
        k,
        crate::arch::plain_connection(topic, target, ConnectionType::Notification),
    );
}

/// A subscription with any other protocol connects nothing: where all the
/// subscriptions of a template are such and nothing else notifies, there are no
/// notifications.
pub proof fn law_other_protocols_connect_nothing(
    id: Seq<char>,
    r: ResourceView<ResolvedView>,
    rs: ResolvedEntries,
    props: Seq<(Seq<char>, ResolvedView)>,
    protocol: Seq<char>,
)
    requires
        r.resource_type == "AWS::SNS::Subscription"@,
        r.properties == ResolvedView::Mapping(props),
        protocol != "lambda"@ && protocol != "sqs"@,
        lookup(props, "Protocol"@) == Some(ResolvedView::Concrete(YamlView::String(protocol))),
    ensures
        resource_edges(id, r, rs).len() == 0,
{
    reveal_strlit("AWS::Lambda::EventSourceMapping");
    reveal_strlit("AWS::S3::Bucket");
    reveal_strlit("AWS::SNS::Topic");
    reveal_strlit("AWS::SNS::Subscription");
    reveal_strlit("AWS::Events::Rule");
    reveal_strlit("AWS::Serverless::Function");
    assert("AWS::Lambda::EventSourceMapping"@.len() == 31);
    assert("AWS::S3::Bucket"@.len() == 15);
    assert("AWS::SNS::Topic"@.len() == 15);
    assert("AWS::SNS::Subscription"@.len() == 22);
    assert("AWS::Events::Rule"@.len() == 17);
    assert("AWS::Serverless::Function"@.len() == 25);
    assert("AWS::S3::Bucket"@[6] != "AWS::SNS::Topic"@[6]);
}

// ---------------------------------------------------------------------------
// Rules
// ---------------------------------------------------------------------------

proof fn lemma_rule_edges(
    rule: Seq<char>,
    targets: Seq<ResolvedView>,
    i: int,
    item: Seq<(Seq<char>, ResolvedView)>,
    target: Seq<char>,
)
    requires
        0 <= i < targets.len(),
        targets[i] == ResolvedView::Mapping(item),
        lookup(item, "Arn"@) is Some,
        refers_to(lookup(item, "Arn"@)->Some_0, target),
    ensures
        crate::cfn::convert::rule_edges(rule, targets).contains(
            crate::arch::plain_connection(rule, target, ConnectionType::Invocation),
        ),
    decreases targets.len(),
{
    let t = targets.drop_last();
    let x = crate::cfn::convert::rule_edges(rule, t);
    let refs = crate::cfn::convert::refs_under(targets.last(), "Arn"@);
    let y = crate::cfn::convert::edges_to(rule, refs, ConnectionType::Invocation);
    let e = crate::arch::plain_connection(rule, target, ConnectionType::Invocation);
    if i < t.len() {
        assert(t[i] == targets[i]);
        lemma_rule_edges(rule, t, i, item, target);
        lemma_add_left(x, y, e);
    } else {
        lemma_refers(lookup(item, "Arn"@)->Some_0, target);
        lemma_edges_to(rule, refs, ConnectionType::Invocation, target);
        lemma_add_right(x, y, e);
    }
}

proof fn lemma_rule_edges_back(rule: Seq<char>, targets: Seq<ResolvedView>, c: ConnectionView)
    requires
        crate::cfn::convert::rule_edges(rule, targets).contains(c),
    ensures
        c.source == rule,
        c.connection_type == ConnectionType::Invocation,
    decreases targets.len(),
{
    if targets.len() > 0 {
        let t = targets.drop_last();
        let x = crate::cfn::convert::rule_edges(rule, t);
        let refs = crate::cfn::convert::refs_under(targets.last(), "Arn"@);
        let y = crate::cfn::convert::edges_to(rule, refs, ConnectionType::Invocation);
        lemma_add_back(x, y, c);
        if x.contains(c) {
            lemma_rule_edges_back(rule, t, c);
        } else {
            lemma_edges_to_back(rule, refs, ConnectionType::Invocation, c);
        }
    }
}

/// A rule invokes each resource of the template that its targets refer to.
pub proof fn law_rule_invokes(
    name: Seq<char>,
    region: Seq<char>,
    rs: ResolvedEntries,
    adapters: CfnAdapterRegistry,
    k: int,
    props: Seq<(Seq<char>, ResolvedView)>,
    targets: Seq<ResolvedView>,
    i: int,
    item: Seq<(Seq<char>, ResolvedView)>,
    target: Seq<char>,
)
    requires
        crate::strmap::keys_rise(rs),
        0 <= k < rs.len(),
        rs[k].1.resource_type == "AWS::Events::Rule"@,
        rs[k].1.properties == ResolvedView::Mapping(props),
        lookup(props, "Targets"@) == Some(ResolvedView::Sequence(targets)),
        0 <= i < targets.len(),
        targets[i] == ResolvedView::Mapping(item),
        lookup(item, "Arn"@) is Some,
        refers_to(lookup(item, "Arn"@)->Some_0, target),
        lookup(rs, target) is Some,
    ensures
        connects(
            architecture_of(name, region, rs, adapters).connections,
            rs[k].0,
            target,
            ConnectionType::Invocation,
        ),
{
    reveal_strlit("AWS::Lambda::EventSourceMapping");
    reveal_strlit("AWS::S3::Bucket");
    reveal_strlit("AWS::SNS::Topic");
    reveal_strlit("AWS::SNS::Subscription");
    reveal_strlit("AWS::Events::Rule");
    reveal_strlit("AWS::Serverless::Function");
    assert("AWS::Lambda::EventSourceMapping"@.len() == 31);
    assert("AWS::S3::Bucket"@.len() == 15);
    assert("AWS::SNS::Topic"@.len() == 15);
    assert("AWS::SNS::Subscription"@.len() == 22);
    assert("AWS::Events::Rule"@.len() == 17);
    assert("AWS::Serverless::Function"@.len() == 25);
    assert("AWS::S3::Bucket"@[6] != "AWS::SNS::Topic"@[6]);
    lemma_rule_edges(rs[k].0, targets, i, item, target);
    crate::strmap::lemma_lookup_sorted(rs, k);
    lemma_made(
        rs,
        rs,
        k,
        crate::arch::plain_connection(rs[k].0, target, ConnectionType::Invocation),
    );
}

// ---------------------------------------------------------------------------
// Serverless functions
// ---------------------------------------------------------------------------

proof fn lemma_bucket_edges(
    refs: Seq<RefView>,
    function: Seq<char>,
    rs: ResolvedEntries,
    source: Seq<char>,
)
    requires
        has_ref(refs, source),
        lookup(rs, source) is Some,
    ensures
        crate::cfn::convert::bucket_edges(refs, function, rs).contains(
            crate::arch::plain_connection(source, function, ConnectionType::Notification),
        ),
    decreases refs.len(),
{
    let t = refs.drop_last();
    let all = crate::cfn::convert::bucket_edges(refs, function, rs);
    let rest = crate::cfn::convert::bucket_edges(t, function, rs);
    let e = crate::arch::plain_connection(source, function, ConnectionType::Notification);
    let i = choose|i: int| 0 <= i < refs.len() && (#[trigger] refs[i]).logical_id == source;
    if i < t.len() {
        assert(t[i].logical_id == source);
        lemma_bucket_edges(t, function, rs, source);
        let j = choose|j: int| 0 <= j < rest.len() && rest[j] == e;
        assert(all[j] == e);
    } else {
        assert(all[all.len() - 1] == e);
    }
}

proof fn lemma_bucket_edges_back(
    refs: Seq<RefView>,
    function: Seq<char>,
    rs: ResolvedEntries,
    c: ConnectionView,
)
    requires
        crate::cfn::convert::bucket_edges(refs, function, rs).contains(c),
    ensures
        c.target == function,
        c.connection_type == ConnectionType::Notification,
    decreases refs.len(),
{
    if refs.len() > 0 {
        let all = crate::cfn::convert::bucket_edges(refs, function, rs);
        let rest = crate::cfn::convert::bucket_edges(refs.drop_last(), function, rs);
        let j = choose|j: int| 0 <= j < all.len() && all[j] == c;
        if j < rest.len() {
            assert(rest[j] == c);
            lemma_bucket_edges_back(refs.drop_last(), function, rs, c);
        }
    }
}

proof fn lemma_stream_edges(
    refs: Seq<RefView>,
    function: Seq<char>,
    p: ResolvedView,
    expected: Seq<char>,
    rs: ResolvedEntries,
    source: Seq<char>,
)
    requires
        has_ref(refs, source),
        lookup(rs, source) is Some,
        lookup(rs, source)->Some_0.resource_type == expected,
    ensures
        crate::cfn::convert::stream_edges(refs, function, p, expected, rs).contains(
            (ConnectionView {
                source,
                target: function,
                connection_type: ConnectionType::EventSource,
                batch_size: crate::cfn::convert::number_under(p, "BatchSize"@),
                parallelization_factor: crate::cfn::convert::number_under(
                    p,
                    "ParallelizationFactor"@,
                ),
                factor: None,
                source_hint: None,
            }),
        ),
    decreases refs.len(),
{
    let t = refs.drop_last();
    let all = crate::cfn::convert::stream_edges(refs, function, p, expected, rs);
    let rest = crate::cfn::convert::stream_edges(t, function, p, expected, rs);
    let e = ConnectionView {
        source,
        target: function,
        connection_type: ConnectionType::EventSource,
        batch_size: crate::cfn::convert::number_under(p, "BatchSize"@),
        parallelization_factor: crate::cfn::convert::number_under(p, "ParallelizationFactor"@),
        factor: None,
        source_hint: None,
    };
    let i = choose|i: int| 0 <= i < refs.len() && (#[trigger] refs[i]).logical_id == source;
    if i < t.len() {
        assert(t[i].logical_id == source);
        lemma_stream_edges(t, function, p, expected, rs, source);
        let j = choose|j: int| 0 <= j < rest.len() && rest[j] == e;
        assert(all[j] == e);
    } else {
        assert(all[all.len() - 1] == e);
    }
}

proof fn lemma_stream_edges_back(
    refs: Seq<RefView>,
    function: Seq<char>,
    p: ResolvedView,
    expected: Seq<char>,
    rs: ResolvedEntries,
    c: ConnectionView,
)
    requires
        crate::cfn::convert::stream_edges(refs, function, p, expected, rs).contains(c),
    ensures
        c.target == function,
        c.connection_type == ConnectionType::EventSource,
    decreases refs.len(),
{
    if refs.len() > 0 {
        let all = crate::cfn::convert::stream_edges(refs, function, p, expected, rs);
        let rest = crate::cfn::convert::stream_edges(refs.drop_last(), function, p, expected, rs);
        let j = choose|j: int| 0 <= j < all.len() && all[j] == c;
        if j < rest.len() {
            assert(rest[j] == c);
            lemma_stream_edges_back(refs.drop_last(), function, p, expected, rs, c);
        }
    }
}

proof fn lemma_sam_edges_back(
    function: Seq<char>,
    events: Seq<(Seq<char>, ResolvedView)>,
    rs: ResolvedEntries,
    c: ConnectionView,
)
    requires
        crate::cfn::convert::sam_events_edges(function, events, rs).contains(c),
    ensures
        c.target == function,
        c.connection_type == ConnectionType::EventSource || c.connection_type
            == ConnectionType::Notification,
    decreases events.len(),
{
    if events.len() > 0 {
        let t = events.drop_last();
        let x = crate::cfn::convert::sam_events_edges(function, t, rs);
        let event = events.last().1;
        let y = crate::cfn::convert::sam_event_edges(function, event, rs);
        lemma_add_back(x, y, c);
        if x.contains(c) {
            lemma_sam_edges_back(function, t, rs, c);
        } else {
            let kind = crate::cfn::convert::text_under(event, "Type"@)->Some_0;
            let props = crate::cfn::resolved::resolved_get(event, "Properties"@)->Some_0;
            if kind == "S3"@ {
                lemma_bucket_edges_back(
                    crate::cfn::convert::refs_under(props, "Bucket"@),
                    function,
                    rs,
                    c,
                );
            } else {
                let (key, expected) = crate::cfn::convert::sam_source(kind)->Some_0;
                lemma_stream_edges_back(
                    crate::cfn::convert::refs_under(props, key),
                    function,
                    props,
                    expected,
                    rs,
                    c,
                );
            }
        }
    }
}

proof fn lemma_sam_events(
    function: Seq<char>,
    events: Seq<(Seq<char>, ResolvedView)>,
    rs: ResolvedEntries,
    i: int,
    c: ConnectionView,
)
    requires
        0 <= i < events.len(),
        crate::cfn::convert::sam_event_edges(function, events[i].1, rs).contains(c),
    ensures
        crate::cfn::convert::sam_events_edges(function, events, rs).contains(c),
    decreases events.len(),
{
    let t = events.drop_last();
    let x = crate::cfn::convert::sam_events_edges(function, t, rs);
    let y = crate::cfn::convert::sam_event_edges(function, events.last().1, rs);
    if i < t.len() {
        assert(t[i] == events[i]);
        lemma_sam_events(function, t, rs, i, c);
        lemma_add_left(x, y, c);
    } else {
        lemma_add_right(x, y, c);
    }
}

/// A serverless function with an event of type `SQS`, `Kinesis` or `DynamoDB`
/// whose queue or stream is a resource of the template of that type has it for
/// an event source; with an event of type `S3` for created objects, the bucket
/// notifies it.
pub proof fn law_serverless_events_connect(
    name: Seq<char>,
    region: Seq<char>,
    rs: ResolvedEntries,
    adapters: CfnAdapterRegistry,
    k: int,
    props: Seq<(Seq<char>, ResolvedView)>,
    events: Seq<(Seq<char>, ResolvedView)>,
    i: int,
    event: Seq<(Seq<char>, ResolvedView)>,
    kind: Seq<char>,
    event_props: Seq<(Seq<char>, ResolvedView)>,
    key: Seq<char>,
    source: Seq<char>,
    created: Seq<char>,
)
    requires
        crate::strmap::keys_rise(rs),
        0 <= k < rs.len(),
        rs[k].1.resource_type == "AWS::Serverless::Function"@,
        rs[k].1.properties == ResolvedView::Mapping(props),
        lookup(props, "Events"@) == Some(ResolvedView::Mapping(events)),
        0 <= i < events.len(),
        events[i].1 == ResolvedView::Mapping(event),
        lookup(event, "Type"@) == Some(ResolvedView::Concrete(YamlView::String(kind))),
        lookup(event, "Properties"@) == Some(ResolvedView::Mapping(event_props)),
        lookup(event_props, key) is Some,
        refers_to(lookup(event_props, key)->Some_0, source),
        lookup(rs, source) is Some,
        ({
            let t = lookup(rs, source)->Some_0.resource_type;
            ||| kind == "SQS"@ && key == "Queue"@ && t == "AWS::SQS::Queue"@
            ||| kind == "Kinesis"@ && key == "Stream"@ && t == "AWS::Kinesis::Stream"@
            ||| kind == "DynamoDB"@ && key == "Stream"@ && t == "AWS::DynamoDB::Table"@
            ||| kind == "S3"@ && key == "Bucket"@ && lookup(event_props, "Events"@) == Some(
                ResolvedView::Concrete(YamlView::String("s3:ObjectCreated"@ + created)),
            )
        }),
    ensures
        connects(
            architecture_of(name, region, rs, adapters).connections,
            source,
            rs[k].0,
            if kind == "S3"@ {
                ConnectionType::Notification
            } else {
                ConnectionType::EventSource
            },
        ),
{
    reveal_strlit("AWS::Lambda::EventSourceMapping");
    reveal_strlit("AWS::S3::Bucket");
    reveal_strlit("AWS::SNS::Topic");
    reveal_strlit("AWS::SNS::Subscription");
    reveal_strlit("AWS::Events::Rule");
    reveal_strlit("AWS::Serverless::Function");
    assert("AWS::Lambda::EventSourceMapping"@.len() == 31);
    assert("AWS::S3::Bucket"@.len() == 15);
    assert("AWS::SNS::Topic"@.len() == 15);
    assert("AWS::SNS::Subscription"@.len() == 22);
    assert("AWS::Events::Rule"@.len() == 17);
    assert("AWS::Serverless::Function"@.len() == 25);
    assert("AWS::S3::Bucket"@[6] != "AWS::SNS::Topic"@[6]);
    reveal_strlit("SQS");
    reveal_strlit("Kinesis");
    reveal_strlit("DynamoDB");
    reveal_strlit("S3");
    assert("SQS"@.len() == 3);
    assert("Kinesis"@.len() == 7);
    assert("DynamoDB"@.len() == 8);
    assert("S3"@.len() == 2);
    let function = rs[k].0;
    let ep = ResolvedView::Mapping(event_props);
    let v = lookup(event_props, key)->Some_0;
    let refs = crate::cfn::resolved::resolved_refs(v);
    lemma_refers(v, source);
    crate::strmap::lemma_lookup_sorted(rs, k);
    if kind == "S3"@ {
        let text = "s3:ObjectCreated"@ + created;
        assert(crate::text::has_prefix(text, "s3:ObjectCreated"@)) by {
            assert(text.subrange(0, "s3:ObjectCreated"@.len() as int) =~= "s3:ObjectCreated"@);
        }
        lemma_bucket_edges(refs, function, rs, source);
        let e = crate::arch::plain_connection(source, function, ConnectionType::Notification);
        lemma_sam_events(function, events, rs, i, e);
        lemma_made(rs, rs, k, e);
    } else {
        let expected = lookup(rs, source)->Some_0.resource_type;
        lemma_stream_edges(refs, function, ep, expected, rs, source);
        let e = ConnectionView {
            source,
            target: function,
            connection_type: ConnectionType::EventSource,
            batch_size: crate::cfn::convert::number_under(ep, "BatchSize"@),
            parallelization_factor: crate::cfn::convert::number_under(ep, "ParallelizationFactor"@),
            factor: None,
            source_hint: None,
        };
        lemma_sam_events(function, events, rs, i, e);
        lemma_made(rs, rs, k, e);
    }
}

// ---------------------------------------------------------------------------
// Nodes
// ---------------------------------------------------------------------------

/// A resource stands in the group of the one declared resource that its
/// `Cluster` refers to, or else its `ClusterName`, `SubnetId` or `VpcId`.
pub proof fn law_group_is_the_parent(
    name: Seq<char>,
    region: Seq<char>,
    rs: ResolvedEntries,
    adapters: CfnAdapterRegistry,
    k: int,
    props: Seq<(Seq<char>, ResolvedView)>,
    key: Seq<char>,
    parent: Seq<char>,
)
    requires
        0 <= k < rs.len(),
        rs[k].1.properties == ResolvedView::Mapping(props),
        lookup(props, key) == Some(ResolvedView::Ref(parent)),
        parent != rs[k].1.logical_id,
        lookup(rs, parent) is Some,
        key == "Cluster"@ || (lookup(props, "Cluster"@) is None && (key == "ClusterName"@ || (lookup(
            props,
            "ClusterName"@,
        ) is None && (key == "SubnetId"@ || (lookup(props, "SubnetId"@) is None && key
            == "VpcId"@))))),
    ensures
        architecture_of(name, region, rs, adapters).resources[k].group == Some(parent),
{
}

/// A resource without such a property stands in no group.
pub proof fn law_no_parent_no_group(
    name: Seq<char>,
    region: Seq<char>,
    rs: ResolvedEntries,
    adapters: CfnAdapterRegistry,
    k: int,
    props: Seq<(Seq<char>, ResolvedView)>,
)
    requires
        0 <= k < rs.len(),
        rs[k].1.properties == ResolvedView::Mapping(props),
        lookup(props, "Cluster"@) is None,
        lookup(props, "ClusterName"@) is None,
        lookup(props, "SubnetId"@) is None,
        lookup(props, "VpcId"@) is None,
    ensures
        architecture_of(name, region, rs, adapters).resources[k].group is None,
        architecture_of(name, region, rs, adapters).name == name,
        architecture_of(name, region, rs, adapters).region == region,
{
}

proof fn lemma_properties(m: Seq<(Seq<char>, ResolvedView)>, key: Seq<char>)
    requires
        crate::strmap::keys_rise(m),
    ensures
        lookup(crate::cfn::convert::properties_of_entries(m), key) == match lookup(m, key) {
            Some(v) => Some(crate::cfn::convert::property_of(v)),
            None => None,
        },
    decreases m.len(),
{
    if m.len() > 0 {
        let t = m.drop_last();
        assert forall|i: int, j: int| 0 <= i < j < t.len() implies crate::text::text_lt(
            #[trigger] t[i].0,
            #[trigger] t[j].0,
        ) by {
            assert(crate::text::text_lt(m[i].0, m[j].0));
        }
        lemma_properties(t, key);
        crate::strmap::lemma_lookup_inserted(
            crate::cfn::convert::properties_of_entries(t),
            m.last().0,
            crate::cfn::convert::property_of(m.last().1),
            key,
        );
        if key == m.last().0 {
            crate::strmap::lemma_lookup_sorted(m, m.len() - 1);
        } else {
            crate::cfn::laws::lemma_lookup_push(t, m.last(), key);
            assert(t.push(m.last()) =~= m);
        }
    }
}

/// What the adapter of a resource's type is given: under each key of the
/// properties the typed reference that stands there, or else the JSON of what
/// stands there. A resource without an adapter is of an unsupported kind.
pub proof fn law_adapters_are_given_the_properties(
    name: Seq<char>,
    region: Seq<char>,
    rs: ResolvedEntries,
    adapters: CfnAdapterRegistry,
    k: int,
    m: Seq<(Seq<char>, ResolvedView)>,
    key: Seq<char>,
)
    requires
        0 <= k < rs.len(),
        rs[k].1.properties == ResolvedView::Mapping(m),
        crate::strmap::keys_rise(m),
        lookup(m, key) is Some,
    ensures
        ({
            let shell = architecture_of(name, region, rs, adapters).resources[k].shell;
            match adapters.registered(rs[k].1.resource_type) {
                None => shell == crate::arch::other_shell(rs[k].1.resource_type),
                Some(a) => {
                    let raw = crate::iac::RawCfnView {
                        logical_id: rs[k].0,
                        resource_type: rs[k].1.resource_type,
                        properties: crate::cfn::convert::properties_of(rs[k].1.properties),
                    };
                    match a.adapter.converted(raw) {
                        Ok(s) => shell == s,
                        Err(_) => shell == crate::arch::other_shell(rs[k].1.resource_type),
                    }
                },
            }
        }),
        ({
            let p = lookup(crate::cfn::convert::properties_of(rs[k].1.properties), key);
            match lookup(m, key)->Some_0 {
                ResolvedView::Ref(id) => p == Some(PropertyView::ResourceRef { logical_id: id }),
                ResolvedView::GetAtt { logical_id, attr } => p == Some(
                    PropertyView::ResourceAttr { logical_id, attr },
                ),
                ResolvedView::Concrete(YamlView::String(s)) => p == Some(
                    PropertyView::Concrete(JsonView::String(s)),
                ),
                ResolvedView::Concrete(YamlView::Bool(b)) => p == Some(
                    PropertyView::Concrete(JsonView::Bool(b)),
                ),
                ResolvedView::Concrete(YamlView::Null) => p == Some(
                    PropertyView::Concrete(JsonView::Null),
                ),
                ResolvedView::Concrete(YamlView::Number(NumberView::PosInt(n))) => p == Some(
                    PropertyView::Concrete(JsonView::Number(NumberView::PosInt(n))),
                ),
                ResolvedView::Concrete(YamlView::Number(NumberView::NegInt(n))) => p == Some(
                    PropertyView::Concrete(JsonView::Number(NumberView::NegInt(n))),
                ),
                _ => p is Some,
            }
        }),
{
    lemma_properties(m, key);
}

proof fn lemma_jsons(s: Seq<ResolvedView>)
    ensures
        crate::cfn::convert::jsons_of(s).len() == s.len(),
        forall|i: int|
            0 <= i < s.len() ==> #[trigger] crate::cfn::convert::jsons_of(s)[i]
                == crate::cfn::convert::json_of(s[i]),
    decreases s.len(),
{
    if s.len() > 0 {
        lemma_jsons(s.drop_last());
    }
}

proof fn lemma_object(m: Seq<(Seq<char>, ResolvedView)>, key: Seq<char>)
    requires
        crate::strmap::keys_rise(m),
    ensures
        lookup(crate::cfn::convert::object_of(m), key) == match lookup(m, key) {
            Some(v) => Some(crate::cfn::convert::json_of(v)),
            None => None,
        },
    decreases m.len(),
{
    if m.len() > 0 {
        let t = m.drop_last();
        assert forall|i: int, j: int| 0 <= i < j < t.len() implies crate::text::text_lt(
            #[trigger] t[i].0,
            #[trigger] t[j].0,
        ) by {
            assert(crate::text::text_lt(m[i].0, m[j].0));
        }
        lemma_object(t, key);
        crate::strmap::lemma_lookup_inserted(
            crate::cfn::convert::object_of(t),
            m.last().0,
            crate::cfn::convert::json_of(m.last().1),
            key,
        );
        if key == m.last().0 {
            crate::strmap::lemma_lookup_sorted(m, m.len() - 1);
        } else {
            crate::cfn::laws::lemma_lookup_push(t, m.last(), key);
            assert(t.push(m.last()) =~= m);
        }
    }
}

/// The JSON of a list is the list of the JSON of its items, and that of a
/// mapping has the JSON of each value under its key. References are written
/// `${id}` and `${id.attr}`, and texts, booleans and numbers stand for
/// themselves; what JSON cannot hold is null.
pub proof fn law_json_follows_the_value(
    s: Seq<ResolvedView>,
    m: Seq<(Seq<char>, ResolvedView)>,
    key: Seq<char>,
    id: Seq<char>,
    attr: Seq<char>,
    b: bool,
    n: u64,
)
    requires
        crate::strmap::keys_rise(m),
    ensures
        crate::cfn::convert::json_of(ResolvedView::Sequence(s)) matches JsonView::Array(a)
            && a.len() == s.len() && (forall|i: int|
            0 <= i < s.len() ==> #[trigger] a[i] == crate::cfn::convert::json_of(s[i])),
        crate::cfn::convert::json_of(ResolvedView::Mapping(m)) matches JsonView::Object(o)
            && lookup(o, key) == match lookup(m, key) {
            Some(v) => Some(crate::cfn::convert::json_of(v)),
            None => None,
        },
        crate::cfn::convert::json_of(ResolvedView::Ref(id)) == JsonView::String(
            seq!['$', '{'] + id + seq!['}'],
        ),
        crate::cfn::convert::json_of(ResolvedView::GetAtt { logical_id: id, attr })
            == JsonView::String(seq!['$', '{'] + id + seq!['.'] + attr + seq!['}']),
        crate::cfn::convert::json_of(ResolvedView::Concrete(YamlView::Bool(b))) == JsonView::Bool(b),
        crate::cfn::convert::json_of(
            ResolvedView::Concrete(YamlView::Number(NumberView::PosInt(n))),
        ) == JsonView::Number(NumberView::PosInt(n)),
        crate::cfn::convert::json_of(ResolvedView::Concrete(YamlView::String(id)))
            == JsonView::String(id),
        crate::cfn::convert::json_of(
            ResolvedView::Concrete(YamlView::Number(NumberView::Float(".nan"@))),
        ) == JsonView::Null,
        crate::cfn::convert::json_of(
            ResolvedView::Concrete(YamlView::Number(NumberView::Float(".inf"@))),
        ) == JsonView::Null,
        crate::cfn::convert::json_of(
            ResolvedView::Concrete(YamlView::Number(NumberView::Float("-.inf"@))),
        ) == JsonView::Null,
{
    lemma_jsons(s);
    lemma_object(m, key);
}

} // verus!
