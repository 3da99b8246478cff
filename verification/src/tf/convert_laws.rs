//! What holds of the architectures that Terraform configurations become.

use vstd::prelude::*;

use crate::arch::ConnectionType;
use crate::arch::ConnectionView;
use crate::arch::NodeView;
use crate::iac::PropertyView;
use crate::iac::TfAdapterRegistry;
use crate::json::JsonView;
use crate::strmap::lookup;
use crate::tf::convert::architecture_of;
use crate::tf::convert::connections_of;
use crate::tf::convert::offered_edges;
use crate::tf::convert::resource_edges;
use crate::tf::convert::RefScope;
use crate::tf::convert::RefView;
use crate::tf::convert::TfEntries;
use crate::tf::parser::TfResourceView;
use crate::tf::parser::TfView;
use crate::tf::resolver::ResolvedConfigView;
use crate::yaml::NumberView;

verus! {

// ---------------------------------------------------------------------------
// References
// ---------------------------------------------------------------------------

/// A value refers to a resource, itself or through what it holds.
pub open spec fn mentions(v: TfView, resource_type: Seq<char>, name: Seq<char>) -> bool
    decreases v,
{
    match v {
        TfView::ResourceRef { resource_type: t, name: n, .. } => t == resource_type && n == name,
        TfView::Object(m) => exists|i: int|
            0 <= i < m.len() && mentions((#[trigger] m[i]).1, resource_type, name),
        TfView::Array(s) => exists|i: int|
            0 <= i < s.len() && mentions(#[trigger] s[i], resource_type, name),
        _ => false,
    }
}

/// Some value among entries refers to a resource.
pub open spec fn some_mention(m: TfEntries, resource_type: Seq<char>, name: Seq<char>) -> bool {
    exists|i: int| 0 <= i < m.len() && mentions((#[trigger] m[i]).1, resource_type, name)
}

proof fn lemma_add_left<A>(a: Seq<A>, b: Seq<A>, x: A)
    requires
        a.contains(x),
    ensures
        (a + b).contains(x),
{
    let i = choose|i: int| 0 <= i < a.len() && a[i] == x;
    assert((a + b)[i] == x);
}

proof fn lemma_add_right<A>(a: Seq<A>, b: Seq<A>, x: A)
    requires
        b.contains(x),
    ensures
        (a + b).contains(x),
{
    let i = choose|i: int| 0 <= i < b.len() && b[i] == x;
    assert((a + b)[a.len() + i] == x);
}

proof fn lemma_add_back<A>(a: Seq<A>, b: Seq<A>, x: A)
    requires
        (a + b).contains(x),
    ensures
        a.contains(x) || b.contains(x),
{
    let i = choose|i: int| 0 <= i < (a + b).len() && (a + b)[i] == x;
    if i < a.len() {
        assert(a[i] == x);
    } else {
        assert(b[i - a.len()] == x);
    }
}

pub proof fn lemma_refs(v: TfView, r: RefView)
    ensures
        crate::tf::convert::refs_in(v).contains(r) <==> mentions(v, r.resource_type, r.name),
    decreases v, 0int,
{
    match v {
        TfView::ResourceRef { resource_type, name, .. } => {
            let refs = crate::tf::convert::refs_in(v);
            assert(refs[0] == RefView { resource_type, name });
            if refs.contains(r) {
                assert(r == refs[0]);
            }
        },
        TfView::Object(m) => {
            lemma_refs_entries(m, r);
        },
        TfView::Array(s) => {
            lemma_refs_items(s, r);
        },
        _ => {},
    }
}

proof fn lemma_refs_entries(m: TfEntries, r: RefView)
    ensures
        crate::tf::convert::refs_in_entries(m).contains(r) <==> some_mention(
            m,
            r.resource_type,
            r.name,
        ),
    decreases m, 1int,
{
    if m.len() > 0 {
        let t = m.drop_last();
        assert(decreases_to!(m => m.last()));
        lemma_refs_entries(t, r);
        lemma_refs(m.last().1, r);
        let a = crate::tf::convert::refs_in_entries(t);
        let b = crate::tf::convert::refs_in(m.last().1);
        if (a + b).contains(r) {
            lemma_add_back(a, b, r);
            if a.contains(r) {
                let i = choose|i: int|
                    0 <= i < t.len() && mentions((#[trigger] t[i]).1, r.resource_type, r.name);
                assert(mentions(m[i].1, r.resource_type, r.name));
            } else {
                assert(mentions(m[m.len() - 1].1, r.resource_type, r.name));
            }
        }
        if some_mention(m, r.resource_type, r.name) {
            let i = choose|i: int|
                0 <= i < m.len() && mentions((#[trigger] m[i]).1, r.resource_type, r.name);
            if i < t.len() {
                assert(mentions(t[i].1, r.resource_type, r.name));
                lemma_add_left(a, b, r);
            } else {
                lemma_add_right(a, b, r);
            }
        }
    }
}

proof fn lemma_refs_items(s: Seq<TfView>, r: RefView)
    ensures
        crate::tf::convert::refs_in_items(s).contains(r) <==> exists|i: int|
            0 <= i < s.len() && mentions(#[trigger] s[i], r.resource_type, r.name),
    decreases s, 1int,
{
    if s.len() > 0 {
        let t = s.drop_last();
        lemma_refs_items(t, r);
        lemma_refs(s.last(), r);
        let a = crate::tf::convert::refs_in_items(t);
        let b = crate::tf::convert::refs_in(s.last());
        if (a + b).contains(r) {
            lemma_add_back(a, b, r);
            if a.contains(r) {
                let i = choose|i: int|
                    0 <= i < t.len() && mentions(#[trigger] t[i], r.resource_type, r.name);
                assert(mentions(s[i], r.resource_type, r.name));
            } else {
                assert(mentions(s[s.len() - 1], r.resource_type, r.name));
            }
        }
        if exists|i: int| 0 <= i < s.len() && mentions(#[trigger] s[i], r.resource_type, r.name) {
            let i = choose|i: int|
                0 <= i < s.len() && mentions(#[trigger] s[i], r.resource_type, r.name);
            if i < t.len() {
                assert(mentions(t[i], r.resource_type, r.name));
                lemma_add_left(a, b, r);
            } else {
                lemma_add_right(a, b, r);
            }
        }
    }
}

proof fn lemma_attr_refs(m: TfEntries, scope: RefScope, r: RefView)
    ensures
        crate::tf::convert::attr_refs(m, scope).contains(r) <==> exists|i: int|
            0 <= i < m.len() && crate::tf::convert::attr_in_scope(scope, (#[trigger] m[i]).0)
                && mentions(m[i].1, r.resource_type, r.name),
    decreases m.len(),
{
    if m.len() > 0 {
        let t = m.drop_last();
        lemma_attr_refs(t, scope, r);
        lemma_refs(m.last().1, r);
        let a = crate::tf::convert::attr_refs(t, scope);
        let b = crate::tf::convert::refs_in(m.last().1);
        let all = crate::tf::convert::attr_refs(m, scope);
        if all.contains(r) {
            if crate::tf::convert::attr_in_scope(scope, m.last().0) {
                lemma_add_back(a, b, r);
            }
            if a.contains(r) {
                let i = choose|i: int|
                    0 <= i < t.len() && crate::tf::convert::attr_in_scope(
                        scope,
                        (#[trigger] t[i]).0,
                    ) && mentions(t[i].1, r.resource_type, r.name);
                assert(m[i] == t[i]);
            } else {
                assert(m[m.len() - 1] == m.last());
            }
        }
        if exists|i: int|
            0 <= i < m.len() && crate::tf::convert::attr_in_scope(scope, (#[trigger] m[i]).0)
                && mentions(m[i].1, r.resource_type, r.name) {
            let i = choose|i: int|
                0 <= i < m.len() && crate::tf::convert::attr_in_scope(scope, (#[trigger] m[i]).0)
                    && mentions(m[i].1, r.resource_type, r.name);
            if i < t.len() {
                assert(t[i] == m[i]);
                if crate::tf::convert::attr_in_scope(scope, m.last().0) {
                    lemma_add_left(a, b, r);
                }
            } else {
                lemma_add_right(a, b, r);
            }
        }
    }
}

proof fn lemma_body_refs(s: Seq<TfEntries>, scope: RefScope, r: RefView)
    ensures
        crate::tf::convert::body_refs(s, scope).contains(r) <==> exists|i: int|
            0 <= i < s.len() && crate::tf::convert::body_in_scope(scope, #[trigger] s[i])
                && some_mention(s[i], r.resource_type, r.name),
    decreases s.len(),
{
    if s.len() > 0 {
        let t = s.drop_last();
        lemma_body_refs(t, scope, r);
        lemma_refs_entries(s.last(), r);
        let a = crate::tf::convert::body_refs(t, scope);
        let b = crate::tf::convert::refs_in_entries(s.last());
        let all = crate::tf::convert::body_refs(s, scope);
        if all.contains(r) {
            if crate::tf::convert::body_in_scope(scope, s.last()) {
                lemma_add_back(a, b, r);
            }
            if a.contains(r) {
                let i = choose|i: int|
                    0 <= i < t.len() && crate::tf::convert::body_in_scope(scope, #[trigger] t[i])
                        && some_mention(t[i], r.resource_type, r.name);
                assert(s[i] == t[i]);
            } else {
                assert(s[s.len() - 1] == s.last());
            }
        }
        if exists|i: int|
            0 <= i < s.len() && crate::tf::convert::body_in_scope(scope, #[trigger] s[i])
                && some_mention(s[i], r.resource_type, r.name) {
            let i = choose|i: int|
                0 <= i < s.len() && crate::tf::convert::body_in_scope(scope, #[trigger] s[i])
                    && some_mention(s[i], r.resource_type, r.name);
            if i < t.len() {
                assert(t[i] == s[i]);
                if crate::tf::convert::body_in_scope(scope, s.last()) {
                    lemma_add_left(a, b, r);
                }
            } else {
                lemma_add_right(a, b, r);
            }
        }
    }
}

/// The block at `i` is in scope and one of its bodies that is refers to a
/// resource.
spec fn block_mentions(
    b: (Seq<char>, Seq<TfEntries>),
    scope: RefScope,
    r: RefView,
) -> bool {
    crate::tf::convert::block_in_scope(scope, b.0) && exists|j: int|
        0 <= j < b.1.len() && crate::tf::convert::body_in_scope(scope, #[trigger] b.1[j])
            && some_mention(b.1[j], r.resource_type, r.name)
}

proof fn lemma_block_refs(m: Seq<(Seq<char>, Seq<TfEntries>)>, scope: RefScope, r: RefView)
    ensures
        crate::tf::convert::block_refs(m, scope).contains(r) <==> exists|i: int|
            0 <= i < m.len() && block_mentions(#[trigger] m[i], scope, r),
    decreases m.len(),
{
    if m.len() > 0 {
        let t = m.drop_last();
        lemma_block_refs(t, scope, r);
        lemma_body_refs(m.last().1, scope, r);
        let a = crate::tf::convert::block_refs(t, scope);
        let b = crate::tf::convert::body_refs(m.last().1, scope);
        let all = crate::tf::convert::block_refs(m, scope);
        if all.contains(r) {
            if crate::tf::convert::block_in_scope(scope, m.last().0) {
                lemma_add_back(a, b, r);
            }
            if a.contains(r) {
                let i = choose|i: int| 0 <= i < t.len() && block_mentions(#[trigger] t[i], scope, r);
                assert(m[i] == t[i]);
            } else {
                assert(block_mentions(m[m.len() - 1], scope, r));
            }
        }
        if exists|i: int| 0 <= i < m.len() && block_mentions(#[trigger] m[i], scope, r) {
            let i = choose|i: int| 0 <= i < m.len() && block_mentions(#[trigger] m[i], scope, r);
            if i < t.len() {
                assert(t[i] == m[i]);
                if crate::tf::convert::block_in_scope(scope, m.last().0) {
                    lemma_add_left(a, b, r);
                }
            } else {
                lemma_add_right(a, b, r);
            }
        }
    }
}

// ---------------------------------------------------------------------------
// Connections
// ---------------------------------------------------------------------------

/// A configuration declares a resource.
pub open spec fn declares(rs: Seq<TfResourceView>, resource_type: Seq<char>, name: Seq<char>) -> bool {
    exists|i: int|
        0 <= i < rs.len() && (#[trigger] rs[i]).resource_type == resource_type && rs[i].name == name
}

/// Some connection leads from `source` to `target` and is of the given kind.
pub open spec fn connects(
    s: Seq<ConnectionView>,
    source: Seq<char>,
    target: Seq<char>,
    kind: ConnectionType,
) -> bool {
    exists|i: int|
        0 <= i < s.len() && (#[trigger] s[i]).source == source && s[i].target == target
            && s[i].connection_type == kind
}

proof fn lemma_declared(
    rs: Seq<TfResourceView>,
    adapters: TfAdapterRegistry,
    resource_type: Seq<char>,
    name: Seq<char>,
)
    requires
        declares(rs, resource_type, name),
    ensures
        crate::tf::convert::is_node(
            crate::tf::convert::nodes_of(rs, adapters),
            resource_type + "_"@ + name,
        ),
{
    let nodes = crate::tf::convert::nodes_of(rs, adapters);
    let i = choose|i: int|
        0 <= i < rs.len() && (#[trigger] rs[i]).resource_type == resource_type && rs[i].name
            == name;
    assert(nodes[i].logical_id == resource_type + "_"@ + name);
}

proof fn lemma_offered_keeps(
    s: Seq<ConnectionView>,
    more: Seq<ConnectionView>,
    nodes: Seq<NodeView>,
)
    ensures
        s.len() <= offered_edges(s, more, nodes).len(),
        forall|i: int| 0 <= i < s.len() ==> #[trigger] offered_edges(s, more, nodes)[i] == s[i],
    decreases more.len(),
{
    if more.len() > 0 {
        lemma_offered_keeps(s, more.drop_last(), nodes);
    }
}

proof fn lemma_offered_has(
    s: Seq<ConnectionView>,
    more: Seq<ConnectionView>,
    nodes: Seq<NodeView>,
    i: int,
)
    requires
        0 <= i < more.len(),
        crate::tf::convert::is_node(nodes, more[i].source),
        crate::tf::convert::is_node(nodes, more[i].target),
    ensures
        connects(
            offered_edges(s, more, nodes),
            more[i].source,
            more[i].target,
            more[i].connection_type,
        ),
    decreases more.len(),
{
    let t = more.drop_last();
    let before = offered_edges(s, t, nodes);
    let all = offered_edges(s, more, nodes);
    if i < t.len() {
        assert(t[i] == more[i]);
        lemma_offered_has(s, t, nodes, i);
        let j = choose|j: int|
            0 <= j < before.len() && (#[trigger] before[j]).source == more[i].source
                && before[j].target == more[i].target && before[j].connection_type
                == more[i].connection_type;
        assert(all[j] == before[j]);
    } else {
        let c = more[i];
        if crate::arch::has_edge(before, c) {
            let j = choose|j: int|
                0 <= j < before.len() && crate::arch::same_edge(#[trigger] before[j], c);
            assert(all[j] == before[j]);
        } else {
            assert(all[all.len() - 1] == c);
        }
    }
}

proof fn lemma_made(rs: Seq<TfResourceView>, nodes: Seq<NodeView>, k: int, c: ConnectionView)
    requires
        0 <= k < rs.len(),
        resource_edges(rs[k]).contains(c),
        crate::tf::convert::is_node(nodes, c.source),
        crate::tf::convert::is_node(nodes, c.target),
    ensures
        connects(connections_of(rs, nodes), c.source, c.target, c.connection_type),
    decreases rs.len(),
{
    let t = rs.drop_last();
    let before = connections_of(t, nodes);
    let all = connections_of(rs, nodes);
    let more = resource_edges(rs.last());
    if k < t.len() {
        assert(t[k] == rs[k]);
        lemma_made(t, nodes, k, c);
        lemma_offered_keeps(before, more, nodes);
        let j = choose|j: int|
            0 <= j < before.len() && (#[trigger] before[j]).source == c.source && before[j].target
                == c.target && before[j].connection_type == c.connection_type;
        assert(all[j] == before[j]);
    } else {
        let i = choose|i: int| 0 <= i < more.len() && more[i] == c;
        lemma_offered_has(before, more, nodes, i);
    }
}

proof fn lemma_offered_origin(
    s: Seq<ConnectionView>,
    more: Seq<ConnectionView>,
    nodes: Seq<NodeView>,
    j: int,
)
    requires
        0 <= j < offered_edges(s, more, nodes).len(),
    ensures
        s.contains(offered_edges(s, more, nodes)[j]) || more.contains(
            offered_edges(s, more, nodes)[j],
        ),
    decreases more.len(),
{
    let c = offered_edges(s, more, nodes)[j];
    if more.len() > 0 {
        let t = more.drop_last();
        let before = offered_edges(s, t, nodes);
        if j < before.len() {
            lemma_offered_origin(s, t, nodes, j);
            if t.contains(c) {
                let i = choose|i: int| 0 <= i < t.len() && t[i] == c;
                assert(more[i] == c);
            }
        } else {
            assert(more[more.len() - 1] == c);
        }
    } else {
        assert(s[j] == c);
    }
}

proof fn lemma_origin(rs: Seq<TfResourceView>, nodes: Seq<NodeView>, c: ConnectionView)
    requires
        connections_of(rs, nodes).contains(c),
    ensures
        exists|k: int| 0 <= k < rs.len() && resource_edges(#[trigger] rs[k]).contains(c),
    decreases rs.len(),
{
    if rs.len() > 0 {
        let t = rs.drop_last();
        let all = connections_of(rs, nodes);
        let j = choose|j: int| 0 <= j < all.len() && all[j] == c;
        lemma_offered_origin(connections_of(t, nodes), resource_edges(rs.last()), nodes, j);
        if connections_of(t, nodes).contains(c) {
            lemma_origin(t, nodes, c);
            let k = choose|k: int| 0 <= k < t.len() && resource_edges(#[trigger] t[k]).contains(c);
            assert(rs[k] == t[k]);
        } else {
            assert(rs[rs.len() - 1] == rs.last());
        }
    }
}

// ---------------------------------------------------------------------------
// Functions
// ---------------------------------------------------------------------------

/// The attribute says how a function is deployed, what it may do or how it is
/// encrypted.
pub open spec fn describes_deployment(key: Seq<char>) -> bool {
    ||| key == "s3_bucket"@
    ||| key == "s3_key"@
    ||| key == "s3_object_version"@
    ||| key == "filename"@
    ||| key == "source_code_hash"@
    ||| key == "image_uri"@
    ||| key == "layers"@
    ||| key == "role"@
    ||| key == "kms_key_arn"@
    ||| key == "depends_on"@
    ||| key == "count"@
    ||| key == "for_each"@
    ||| key == "provider"@
}

/// The block says how a function is set up.
pub open spec fn describes_setup(key: Seq<char>) -> bool {
    ||| key == "dead_letter_config"@
    ||| key == "vpc_config"@
    ||| key == "tracing_config"@
    ||| key == "file_system_config"@
    ||| key == "image_config"@
    ||| key == "ephemeral_storage"@
    ||| key == "logging_config"@
    ||| key == "snap_start"@
    ||| key == "timeouts"@
    ||| key == "lifecycle"@
}

/// A function refers to a resource where it says what it uses while it runs: in
/// an attribute or a block.
pub open spec fn uses(r: TfResourceView, resource_type: Seq<char>, name: Seq<char>) -> bool {
    ||| exists|i: int|
        0 <= i < r.attrs.len() && !describes_deployment((#[trigger] r.attrs[i]).0) && mentions(
            r.attrs[i].1,
            resource_type,
            name,
        )
    ||| exists|i: int, j: int|
        0 <= i < r.blocks.len() && !describes_setup((#[trigger] r.blocks[i]).0) && 0 <= j
            < r.blocks[i].1.len() && some_mention(
            #[trigger] r.blocks[i].1[j],
            resource_type,
            name,
        )
}

/// How a function drives a resource that it uses: data flows into tables,
/// buckets, queues and topics, and state machines and functions are invoked.
pub open spec fn driven(target_type: Seq<char>, kind: ConnectionType) -> bool {
    ||| kind == ConnectionType::DataFlow && (target_type == "aws_dynamodb_table"@ || target_type
        == "aws_s3_bucket"@ || target_type == "aws_sqs_queue"@ || target_type == "aws_sns_topic"@)
    ||| kind == ConnectionType::Invocation && (target_type == "aws_sfn_state_machine"@
        || target_type == "aws_lambda_function"@)
}

proof fn lemma_types()
    ensures
        "aws_dynamodb_table"@ != "aws_s3_bucket"@,
        "aws_dynamodb_table"@ != "aws_sqs_queue"@,
        "aws_dynamodb_table"@ != "aws_sns_topic"@,
        "aws_dynamodb_table"@ != "aws_sfn_state_machine"@,
        "aws_dynamodb_table"@ != "aws_lambda_function"@,
        "aws_s3_bucket"@ != "aws_sqs_queue"@,
        "aws_s3_bucket"@ != "aws_sns_topic"@,
        "aws_s3_bucket"@ != "aws_sfn_state_machine"@,
        "aws_s3_bucket"@ != "aws_lambda_function"@,
        "aws_sqs_queue"@ != "aws_sns_topic"@,
        "aws_sqs_queue"@ != "aws_sfn_state_machine"@,
        "aws_sqs_queue"@ != "aws_lambda_function"@,
        "aws_sns_topic"@ != "aws_sfn_state_machine"@,
        "aws_sns_topic"@ != "aws_lambda_function"@,
        "aws_sfn_state_machine"@ != "aws_lambda_function"@,
        "aws_lambda_event_source_mapping"@ != "aws_sns_topic_subscription"@,
        "aws_lambda_event_source_mapping"@ != "aws_s3_bucket_notification"@,
        "aws_lambda_event_source_mapping"@ != "aws_lambda_function"@,
        "aws_sns_topic_subscription"@ != "aws_s3_bucket_notification"@,
        "aws_sns_topic_subscription"@ != "aws_lambda_function"@,
        "aws_s3_bucket_notification"@ != "aws_lambda_function"@,
{
    reveal_strlit("aws_dynamodb_table");
    reveal_strlit("aws_s3_bucket");
    reveal_strlit("aws_sqs_queue");
    reveal_strlit("aws_sns_topic");
    reveal_strlit("aws_sfn_state_machine");
    reveal_strlit("aws_lambda_function");
    reveal_strlit("aws_lambda_event_source_mapping");
    reveal_strlit("aws_sns_topic_subscription");
    reveal_strlit("aws_s3_bucket_notification");
    assert("aws_dynamodb_table"@.len() == 18);
    assert("aws_s3_bucket"@.len() == 13);
    assert("aws_sqs_queue"@.len() == 13);
    assert("aws_sns_topic"@.len() == 13);
    assert("aws_sfn_state_machine"@.len() == 21);
    assert("aws_lambda_function"@.len() == 19);
    assert("aws_lambda_event_source_mapping"@.len() == 31);
    assert("aws_sns_topic_subscription"@.len() == 26);
    assert("aws_s3_bucket_notification"@.len() == 26);
    assert("aws_s3_bucket"@[5] != "aws_sqs_queue"@[5]);
    assert("aws_s3_bucket"@[5] != "aws_sns_topic"@[5]);
    assert("aws_sqs_queue"@[5] != "aws_sns_topic"@[5]);
    assert("aws_sns_topic_subscription"@[5] != "aws_s3_bucket_notification"@[5]);
}

proof fn lemma_uses(r: TfResourceView, resource_type: Seq<char>, name: Seq<char>)
    ensures
        uses(r, resource_type, name) <==> (crate::tf::convert::attr_refs(r.attrs, RefScope::Runtime)
            + crate::tf::convert::block_refs(r.blocks, RefScope::Runtime)).contains(
            (RefView { resource_type, name }),
        ),
{
    let x = RefView { resource_type, name };
    let a = crate::tf::convert::attr_refs(r.attrs, RefScope::Runtime);
    let b = crate::tf::convert::block_refs(r.blocks, RefScope::Runtime);
    lemma_attr_refs(r.attrs, RefScope::Runtime, x);
    lemma_block_refs(r.blocks, RefScope::Runtime, x);
    if (a + b).contains(x) {
        lemma_add_back(a, b, x);
        if a.contains(x) {
            let i = choose|i: int|
                0 <= i < r.attrs.len() && crate::tf::convert::attr_in_scope(
                    RefScope::Runtime,
                    (#[trigger] r.attrs[i]).0,
                ) && mentions(r.attrs[i].1, resource_type, name);
            assert(!describes_deployment(r.attrs[i].0));
        } else {
            let i = choose|i: int|
                0 <= i < r.blocks.len() && block_mentions(
                    #[trigger] r.blocks[i],
                    RefScope::Runtime,
                    x,
                );
            let j = choose|j: int|
                0 <= j < r.blocks[i].1.len() && some_mention(
                    #[trigger] r.blocks[i].1[j],
                    resource_type,
                    name,
                );
            assert(!describes_setup(r.blocks[i].0));
            assert(some_mention(r.blocks[i].1[j], resource_type, name));
        }
    }
    if exists|i: int|
        0 <= i < r.attrs.len() && !describes_deployment((#[trigger] r.attrs[i]).0) && mentions(
            r.attrs[i].1,
            resource_type,
            name,
        ) {
        let i = choose|i: int|
            0 <= i < r.attrs.len() && !describes_deployment((#[trigger] r.attrs[i]).0) && mentions(
                r.attrs[i].1,
                resource_type,
                name,
            );
        assert(crate::tf::convert::attr_in_scope(RefScope::Runtime, r.attrs[i].0));
        lemma_add_left(a, b, x);
    }
    if exists|i: int, j: int|
        0 <= i < r.blocks.len() && !describes_setup((#[trigger] r.blocks[i]).0) && 0 <= j
            < r.blocks[i].1.len() && some_mention(
            #[trigger] r.blocks[i].1[j],
            resource_type,
            name,
        ) {
        let (i, j) = choose|i: int, j: int|
            0 <= i < r.blocks.len() && !describes_setup((#[trigger] r.blocks[i]).0) && 0 <= j
                < r.blocks[i].1.len() && some_mention(
                #[trigger] r.blocks[i].1[j],
                resource_type,
                name,
            );
        assert(crate::tf::convert::body_in_scope(RefScope::Runtime, r.blocks[i].1[j]));
        assert(block_mentions(r.blocks[i], RefScope::Runtime, x));
        lemma_add_right(a, b, x);
    }
}

proof fn lemma_runtime_edges(
    source: Seq<char>,
    source_type: Seq<char>,
    targets: Seq<RefView>,
    x: RefView,
    kind: ConnectionType,
)
    requires
        source_type == "aws_lambda_function"@,
        targets.contains(x),
        driven(x.resource_type, kind),
    ensures
        crate::tf::convert::runtime_edges(source, source_type, targets).contains(
            crate::arch::plain_connection(source, x.resource_type + "_"@ + x.name, kind),
        ),
    decreases targets.len(),
{
    lemma_types();
    let t = targets.drop_last();
    let all = crate::tf::convert::runtime_edges(source, source_type, targets);
    let before = crate::tf::convert::runtime_edges(source, source_type, t);
    let e = crate::arch::plain_connection(source, x.resource_type + "_"@ + x.name, kind);
    let i = choose|i: int| 0 <= i < targets.len() && targets[i] == x;
    if i < t.len() {
        assert(t[i] == x);
        lemma_runtime_edges(source, source_type, t, x, kind);
        let j = choose|j: int| 0 <= j < before.len() && before[j] == e;
        assert(all[j] == e);
    } else {
        assert(all[all.len() - 1] == e);
    }
}

proof fn lemma_runtime_edges_back(
    source: Seq<char>,
    source_type: Seq<char>,
    targets: Seq<RefView>,
    c: ConnectionView,
)
    requires
        crate::tf::convert::runtime_edges(source, source_type, targets).contains(c),
    ensures
        source_type == "aws_lambda_function"@,
        c.source == source,
        exists|i: int|
            0 <= i < targets.len() && c.target == (#[trigger] targets[i]).resource_type + "_"@
                + targets[i].name && driven(targets[i].resource_type, c.connection_type),
    decreases targets.len(),
{
    if targets.len() > 0 {
        let t = targets.drop_last();
        let all = crate::tf::convert::runtime_edges(source, source_type, targets);
        let before = crate::tf::convert::runtime_edges(source, source_type, t);
        let j = choose|j: int| 0 <= j < all.len() && all[j] == c;
        if j < before.len() {
            assert(before[j] == c);
            lemma_runtime_edges_back(source, source_type, t, c);
            let i = choose|i: int|
                0 <= i < t.len() && c.target == (#[trigger] t[i]).resource_type + "_"@ + t[i].name
                    && driven(t[i].resource_type, c.connection_type);
            assert(targets[i] == t[i]);
        } else {
            assert(targets[targets.len() - 1] == targets.last());
            assert(driven(targets.last().resource_type, c.connection_type));
        }
    }
}

/// A function that uses a declared state machine or function while it runs
/// invokes it, and into each declared table, bucket, queue or topic that it uses
/// data flows from it.
pub proof fn law_function_drives_what_it_uses(
    name: Seq<char>,
    region: Seq<char>,
    c: ResolvedConfigView,
    adapters: TfAdapterRegistry,
    k: int,
    target_type: Seq<char>,
    target: Seq<char>,
    kind: ConnectionType,
)
    requires
        0 <= k < c.resources.len(),
        c.resources[k].resource_type == "aws_lambda_function"@,
        uses(c.resources[k], target_type, target),
        declares(c.resources, target_type, target),
        driven(target_type, kind),
    ensures
        connects(
            architecture_of(name, region, c, adapters).connections,
            "aws_lambda_function"@ + "_"@ + c.resources[k].name,
            target_type + "_"@ + target,
            kind,
        ),
{
    lemma_types();
    let rs = c.resources;
    let r = rs[k];
    let nodes = crate::tf::convert::nodes_of(rs, adapters);
    let x = RefView { resource_type: target_type, name: target };
    let source = "aws_lambda_function"@ + "_"@ + r.name;
    lemma_uses(r, target_type, target);
    let targets = crate::tf::convert::attr_refs(r.attrs, RefScope::Runtime)
        + crate::tf::convert::block_refs(r.blocks, RefScope::Runtime);
    lemma_runtime_edges(source, r.resource_type, targets, x, kind);
    lemma_declared(rs, adapters, target_type, target);
    lemma_declared(rs, adapters, r.resource_type, r.name);
    lemma_made(
        rs,
        nodes,
        k,
        crate::arch::plain_connection(source, target_type + "_"@ + target, kind),
    );
}

// ---------------------------------------------------------------------------
// Events and notifications
// ---------------------------------------------------------------------------

/// An event source mapping makes its declared source an event source of its
/// declared function.
pub proof fn law_event_source_mapping_connects(
    name: Seq<char>,
    region: Seq<char>,
    c: ResolvedConfigView,
    adapters: TfAdapterRegistry,
    k: int,
    source: TfView,
    function: TfView,
)
    requires
        0 <= k < c.resources.len(),
        c.resources[k].resource_type == "aws_lambda_event_source_mapping"@,
        lookup(c.resources[k].attrs, "event_source_arn"@) == Some(source),
        lookup(c.resources[k].attrs, "function_name"@) == Some(function),
        source is ResourceRef,
        function is ResourceRef,
        declares(c.resources, source->resource_type, source->ResourceRef_name),
        declares(c.resources, function->resource_type, function->ResourceRef_name),
    ensures
        connects(
            architecture_of(name, region, c, adapters).connections,
            source->resource_type + "_"@ + source->ResourceRef_name,
            function->resource_type + "_"@ + function->ResourceRef_name,
            ConnectionType::EventSource,
        ),
{
    lemma_types();
    let rs = c.resources;
    lemma_declared(rs, adapters, source->resource_type, source->ResourceRef_name);
    lemma_declared(rs, adapters, function->resource_type, function->ResourceRef_name);
    let e = crate::arch::plain_connection(
        source->resource_type + "_"@ + source->ResourceRef_name,
        function->resource_type + "_"@ + function->ResourceRef_name,
        ConnectionType::EventSource,
    );
    assert(resource_edges(rs[k])[0] == e);
    lemma_made(rs, crate::tf::convert::nodes_of(rs, adapters), k, e);
}

/// A subscription of a declared function or queue makes its declared topic
/// notify it.
pub proof fn law_subscription_notifies(
    name: Seq<char>,
    region: Seq<char>,
    c: ResolvedConfigView,
    adapters: TfAdapterRegistry,
    k: int,
    topic: TfView,
    endpoint: TfView,
    protocol: Seq<char>,
)
    requires
        0 <= k < c.resources.len(),
        c.resources[k].resource_type == "aws_sns_topic_subscription"@,
        protocol == "lambda"@ || protocol == "sqs"@,
        lookup(c.resources[k].attrs, "protocol"@) == Some(TfView::String(protocol)),
        lookup(c.resources[k].attrs, "topic_arn"@) == Some(topic),
        lookup(c.resources[k].attrs, "endpoint"@) == Some(endpoint),
        topic is ResourceRef,
        endpoint is ResourceRef,
        declares(c.resources, topic->resource_type, topic->ResourceRef_name),
        declares(c.resources, endpoint->resource_type, endpoint->ResourceRef_name),
    ensures
        connects(
            architecture_of(name, region, c, adapters).connections,
            topic->resource_type + "_"@ + topic->ResourceRef_name,
            endpoint->resource_type + "_"@ + endpoint->ResourceRef_name,
            ConnectionType::Notification,
        ),
{
    lemma_types();
    let rs = c.resources;
    lemma_declared(rs, adapters, topic->resource_type, topic->ResourceRef_name);
    lemma_declared(rs, adapters, endpoint->resource_type, endpoint->ResourceRef_name);
    let e = crate::arch::plain_connection(
        topic->resource_type + "_"@ + topic->ResourceRef_name,
        endpoint->resource_type + "_"@ + endpoint->ResourceRef_name,
        ConnectionType::Notification,
    );
    assert(resource_edges(rs[k])[0] == e);
    lemma_made(rs, crate::tf::convert::nodes_of(rs, adapters), k, e);
}

/// A bucket notification makes its declared bucket notify each declared
/// resource to which a block about created objects refers.
pub proof fn law_bucket_notifies(
    name: Seq<char>,
    region: Seq<char>,
    c: ResolvedConfigView,
    adapters: TfAdapterRegistry,
    k: int,
    bucket: TfView,
    i: int,
    j: int,
    events: Seq<TfView>,
    e: int,
    event: Seq<char>,
    target_type: Seq<char>,
    target: Seq<char>,
)
    requires
        0 <= k < c.resources.len(),
        c.resources[k].resource_type == "aws_s3_bucket_notification"@,
        lookup(c.resources[k].attrs, "bucket"@) == Some(bucket),
        bucket is ResourceRef,
        0 <= i < c.resources[k].blocks.len(),
        0 <= j < c.resources[k].blocks[i].1.len(),
        lookup(c.resources[k].blocks[i].1[j], "events"@) == Some(TfView::Array(events)),
        0 <= e < events.len(),
        events[e] == TfView::String("s3:ObjectCreated"@ + event),
        some_mention(c.resources[k].blocks[i].1[j], target_type, target),
        declares(c.resources, bucket->resource_type, bucket->ResourceRef_name),
        declares(c.resources, target_type, target),
    ensures
        connects(
            architecture_of(name, region, c, adapters).connections,
            bucket->resource_type + "_"@ + bucket->ResourceRef_name,
            target_type + "_"@ + target,
            ConnectionType::Notification,
        ),
{
    lemma_types();
    let rs = c.resources;
    let r = rs[k];
    let x = RefView { resource_type: target_type, name: target };
    let text = "s3:ObjectCreated"@ + event;
    assert(crate::text::has_prefix(text, "s3:ObjectCreated"@)) by {
        assert(text.subrange(0, "s3:ObjectCreated"@.len() as int) =~= "s3:ObjectCreated"@);
    }
    let body = r.blocks[i].1[j];
    assert(events[e] is String);
    assert(crate::tf::convert::has_object_created_event(body));
    assert(crate::tf::convert::body_in_scope(RefScope::Notification, r.blocks[i].1[j]));
    assert(block_mentions(r.blocks[i], RefScope::Notification, x));
    lemma_block_refs(r.blocks, RefScope::Notification, x);
    let b = crate::tf::convert::block_refs(r.blocks, RefScope::Notification);
    let a = crate::tf::convert::attr_refs(r.attrs, RefScope::Notification);
    lemma_add_left(b, a, x);
    let n = choose|n: int| 0 <= n < (b + a).len() && (b + a)[n] == x;
    let source = bucket->resource_type + "_"@ + bucket->ResourceRef_name;
    let edge = crate::arch::plain_connection(
        source,
        target_type + "_"@ + target,
        ConnectionType::Notification,
    );
    assert(crate::tf::convert::edges_to(source, b + a, ConnectionType::Notification)[n] == edge);
    lemma_declared(rs, adapters, bucket->resource_type, bucket->ResourceRef_name);
    lemma_declared(rs, adapters, target_type, target);
    lemma_made(rs, crate::tf::convert::nodes_of(rs, adapters), k, edge);
}

/// An attribute refers to the resource with an identifier.
pub open spec fn attribute_names(attrs: TfEntries, key: Seq<char>, id: Seq<char>) -> bool {
    lookup(attrs, key) matches Some(TfView::ResourceRef { resource_type, name, .. }) && id
        == resource_type + "_"@ + name
}

/// The events of a block are about created objects.
pub open spec fn about_created(body: TfEntries) -> bool {
    lookup(body, "events"@) matches Some(TfView::Array(s)) && exists|e: int|
        0 <= e < s.len() && (#[trigger] s[e] matches TfView::String(t) && crate::text::has_prefix(
            t,
            "s3:ObjectCreated"@,
        ))
}

/// A bucket notification refers to a resource: in a block about created objects, or
/// in an attribute other than the one that names the bucket.
pub open spec fn notified(r: TfResourceView, resource_type: Seq<char>, name: Seq<char>) -> bool {
    ||| exists|i: int, j: int|
        0 <= i < r.blocks.len() && 0 <= j < r.blocks[i].1.len() && about_created(
            #[trigger] r.blocks[i].1[j],
        ) && some_mention(r.blocks[i].1[j], resource_type, name)
    ||| exists|i: int|
        0 <= i < r.attrs.len() && (#[trigger] r.attrs[i]).0 != "bucket"@ && mentions(
            r.attrs[i].1,
            resource_type,
            name,
        )
}

proof fn lemma_notified(r: TfResourceView, x: RefView)
    requires
        (crate::tf::convert::block_refs(r.blocks, RefScope::Notification)
            + crate::tf::convert::attr_refs(r.attrs, RefScope::Notification)).contains(x),
    ensures
        notified(r, x.resource_type, x.name),
{
    let b = crate::tf::convert::block_refs(r.blocks, RefScope::Notification);
    let a = crate::tf::convert::attr_refs(r.attrs, RefScope::Notification);
    lemma_add_back(b, a, x);
    lemma_block_refs(r.blocks, RefScope::Notification, x);
    lemma_attr_refs(r.attrs, RefScope::Notification, x);
    if b.contains(x) {
        let i = choose|i: int|
            0 <= i < r.blocks.len() && block_mentions(
                #[trigger] r.blocks[i],
                RefScope::Notification,
                x,
            );
        let block = r.blocks[i];
        let j = choose|j: int|
            0 <= j < block.1.len() && crate::tf::convert::body_in_scope(
                RefScope::Notification,
                #[trigger] block.1[j],
            ) && some_mention(block.1[j], x.resource_type, x.name);
        let body = r.blocks[i].1[j];
        let events = lookup(body, "events"@)->Some_0->Array_0;
        let e = choose|e: int|
            0 <= e < events.len() && (#[trigger] events[e]) is String && crate::text::has_prefix(
                events[e]->String_0,
                "s3:ObjectCreated"@,
            );
        assert(events[e] is String);
        assert(about_created(r.blocks[i].1[j]));
    }
}

/// A bucket notification makes its declared bucket notify each declared resource
/// that an attribute other than the one for the bucket refers to.
pub proof fn law_bucket_notifies_by_attribute(
    name: Seq<char>,
    region: Seq<char>,
    c: ResolvedConfigView,
    adapters: TfAdapterRegistry,
    k: int,
    bucket: TfView,
    i: int,
    target_type: Seq<char>,
    target: Seq<char>,
)
    requires
        0 <= k < c.resources.len(),
        c.resources[k].resource_type == "aws_s3_bucket_notification"@,
        lookup(c.resources[k].attrs, "bucket"@) == Some(bucket),
        bucket is ResourceRef,
        0 <= i < c.resources[k].attrs.len(),
        c.resources[k].attrs[i].0 != "bucket"@,
        mentions(c.resources[k].attrs[i].1, target_type, target),
        declares(c.resources, bucket->resource_type, bucket->ResourceRef_name),
        declares(c.resources, target_type, target),
    ensures
        connects(
            architecture_of(name, region, c, adapters).connections,
            bucket->resource_type + "_"@ + bucket->ResourceRef_name,
            target_type + "_"@ + target,
            ConnectionType::Notification,
        ),
{
    lemma_types();
    let rs = c.resources;
    let r = rs[k];
    let x = RefView { resource_type: target_type, name: target };
    assert(crate::tf::convert::attr_in_scope(RefScope::Notification, r.attrs[i].0));
    lemma_attr_refs(r.attrs, RefScope::Notification, x);
    let b = crate::tf::convert::block_refs(r.blocks, RefScope::Notification);
    let a = crate::tf::convert::attr_refs(r.attrs, RefScope::Notification);
    lemma_add_right(b, a, x);
    let n = choose|n: int| 0 <= n < (b + a).len() && (b + a)[n] == x;
    let source = bucket->resource_type + "_"@ + bucket->ResourceRef_name;
    let edge = crate::arch::plain_connection(
        source,
        target_type + "_"@ + target,
        ConnectionType::Notification,
    );
    assert(resource_edges(r)[n] == edge);
    lemma_declared(rs, adapters, bucket->resource_type, bucket->ResourceRef_name);
    lemma_declared(rs, adapters, target_type, target);
    lemma_made(rs, crate::tf::convert::nodes_of(rs, adapters), k, edge);
}

/// Every connection has a reason. Event sources lead from the source of an event
/// source mapping to its function, notifications from the topic of a subscription of
/// a function or a queue to that, and from a bucket to what its notification refers
/// to; what else there is leads from a function to something that it uses while it
/// runs.
pub proof fn law_connections_have_a_reason(
    name: Seq<char>,
    region: Seq<char>,
    c: ResolvedConfigView,
    adapters: TfAdapterRegistry,
    i: int,
)
    requires
        0 <= i < architecture_of(name, region, c, adapters).connections.len(),
    ensures
        ({
            let edge = architecture_of(name, region, c, adapters).connections[i];
            exists|k: int|
                0 <= k < c.resources.len() && match edge.connection_type {
                    ConnectionType::EventSource => (#[trigger] c.resources[k]).resource_type
                        == "aws_lambda_event_source_mapping"@ && attribute_names(
                        c.resources[k].attrs,
                        "event_source_arn"@,
                        edge.source,
                    ) && attribute_names(c.resources[k].attrs, "function_name"@, edge.target),
                    ConnectionType::Notification => (c.resources[k].resource_type
                        == "aws_s3_bucket_notification"@ && attribute_names(
                        c.resources[k].attrs,
                        "bucket"@,
                        edge.source,
                    ) && exists|t: Seq<char>, n: Seq<char>| #[trigger]
                        notified(c.resources[k], t, n) && edge.target == t + "_"@ + n) || (
                    c.resources[k].resource_type == "aws_sns_topic_subscription"@ && (lookup(
                        c.resources[k].attrs,
                        "protocol"@,
                    ) == Some(TfView::String("lambda"@)) || lookup(
                        c.resources[k].attrs,
                        "protocol"@,
                    ) == Some(TfView::String("sqs"@))) && attribute_names(
                        c.resources[k].attrs,
                        "topic_arn"@,
                        edge.source,
                    ) && attribute_names(c.resources[k].attrs, "endpoint"@, edge.target)),
                    _ => c.resources[k].resource_type == "aws_lambda_function"@ && edge.source
                        == "aws_lambda_function"@ + "_"@ + c.resources[k].name && exists|
                        t: Seq<char>,
                        n: Seq<char>,
                    | #[trigger]
                        uses(c.resources[k], t, n) && edge.target == t + "_"@ + n && driven(
                            t,
                            edge.connection_type,
                        ),
                }
        }),
{
    lemma_types();
    let rs = c.resources;
    let edge = architecture_of(name, region, c, adapters).connections[i];
    let nodes = crate::tf::convert::nodes_of(rs, adapters);
    assert(connections_of(rs, nodes).contains(edge));
    lemma_origin(rs, nodes, edge);
    let k = choose|k: int| 0 <= k < rs.len() && resource_edges(#[trigger] rs[k]).contains(edge);
    let r = rs[k];
    let s = resource_edges(r);
    let j = choose|j: int| 0 <= j < s.len() && s[j] == edge;
    assert(s[j] == edge);
    if r.resource_type == "aws_lambda_event_source_mapping"@ {
        assert(edge.connection_type == ConnectionType::EventSource);
    } else if r.resource_type == "aws_sns_topic_subscription"@ {
        assert(edge.connection_type == ConnectionType::Notification);
    } else if r.resource_type == "aws_s3_bucket_notification"@ {
        assert(edge.connection_type == ConnectionType::Notification);
        let targets = crate::tf::convert::block_refs(r.blocks, RefScope::Notification)
            + crate::tf::convert::attr_refs(r.attrs, RefScope::Notification);
        assert(edge.target == targets[j].resource_type + "_"@ + targets[j].name);
        assert(targets.contains(targets[j]));
        lemma_notified(r, targets[j]);
        assert(notified(r, targets[j].resource_type, targets[j].name));
    } else {
        let targets = crate::tf::convert::attr_refs(r.attrs, RefScope::Runtime)
            + crate::tf::convert::block_refs(r.blocks, RefScope::Runtime);
        lemma_runtime_edges_back(
            crate::tf::convert::tf_logical_id(r.resource_type, r.name),
            r.resource_type,
            targets,
            edge,
        );
        let n = choose|n: int|
            0 <= n < targets.len() && edge.target == (#[trigger] targets[n]).resource_type + "_"@
                + targets[n].name && driven(targets[n].resource_type, edge.connection_type);
        assert(targets.contains(targets[n]));
        lemma_uses(r, targets[n].resource_type, targets[n].name);
        assert(uses(r, targets[n].resource_type, targets[n].name));
    }
}

// ---------------------------------------------------------------------------
// Nodes
// ---------------------------------------------------------------------------

/// Every resource becomes one node, in order, under its type and its name and
/// in no group.
pub proof fn law_nodes_follow_the_configuration(
    name: Seq<char>,
    region: Seq<char>,
    c: ResolvedConfigView,
    adapters: TfAdapterRegistry,
    i: int,
)
    requires
        0 <= i < c.resources.len(),
    ensures
        ({
            let a = architecture_of(name, region, c, adapters);
            let r = c.resources[i];
            let id = r.resource_type + "_"@ + r.name;
            &&& a.name == name
            &&& a.region == region
            &&& a.resources.len() == c.resources.len()
            &&& a.resources[i].logical_id == id
            &&& a.resources[i].resource_type == r.resource_type
            &&& a.resources[i].group is None
            &&& match adapters.registered(r.resource_type) {
                None => a.resources[i].shell == crate::arch::other_shell(r.resource_type),
                Some(x) => match x.adapter.converted(crate::tf::convert::raw_of(r, id)) {
                    Ok(s) => a.resources[i].shell == s,
                    Err(_) => a.resources[i].shell == crate::arch::other_shell(r.resource_type),
                },
            }
        }),
{
}

/// What an adapter is given: each attribute that is known under its own name, a
/// reference to a resource as a reference to the attribute of that resource.
pub proof fn law_adapters_are_given_the_attributes(
    r: TfResourceView,
    id: Seq<char>,
    key: Seq<char>,
)
    requires
        crate::strmap::keys_rise(r.attrs),
        lookup(r.attrs, key) is Some,
    ensures
        crate::tf::convert::raw_of(r, id).logical_id == id,
        crate::tf::convert::raw_of(r, id).resource_type == r.resource_type,
        ({
            let p = lookup(crate::tf::convert::raw_of(r, id).attrs, key);
            match lookup(r.attrs, key)->Some_0 {
                TfView::ResourceRef { resource_type, name, attr } => p == Some(
                    PropertyView::ResourceAttr {
                        logical_id: resource_type + "_"@ + name,
                        attr,
                    },
                ),
                TfView::String(s) => p == Some(PropertyView::Concrete(JsonView::String(s))),
                TfView::Bool(b) => p == Some(PropertyView::Concrete(JsonView::Bool(b))),
                TfView::Number(NumberView::PosInt(n)) => p == Some(
                    PropertyView::Concrete(JsonView::Number(NumberView::PosInt(n))),
                ),
                TfView::Number(NumberView::NegInt(n)) => p == Some(
                    PropertyView::Concrete(JsonView::Number(NumberView::NegInt(n))),
                ),
                TfView::Unknown | TfView::VarRef(_) | TfView::LocalRef(_) => p is None,
                TfView::Object(m) => p matches Some(PropertyView::Concrete(JsonView::Object(_))),
                TfView::Array(s) => p matches Some(PropertyView::Concrete(JsonView::Array(_))),
                _ => true,
            }
        }),
{
    crate::tf::convert::lemma_properties(r.attrs, key);
}

} // verus!
