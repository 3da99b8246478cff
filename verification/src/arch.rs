//! Architectures: resources and the connections between them.

use vstd::prelude::*;

use crate::json::Json;
use crate::json::JsonView;
use crate::text::text_eq;
use crate::yaml::Number;
use crate::yaml::NumberView;

verus! {

// ---------------------------------------------------------------------------
// Identifiers
// ---------------------------------------------------------------------------

/// The name by which a resource is referred to.
#[derive(Debug, PartialEq, Eq)]
pub struct LogicalId {
    pub text: String,
}

impl View for LogicalId {
    type V = Seq<char>;

    open spec fn view(&self) -> Seq<char> {
        self.text@
    }
}

impl Clone for LogicalId {
    fn clone(&self) -> (r: Self)
        ensures
            r@ == self@,
    {
        LogicalId { text: self.text.clone() }
    }
}

impl LogicalId {
    /// The identifier with the given text.
    pub fn new(text: &str) -> (r: LogicalId)
        ensures
            r@ == text@,
    {
        LogicalId { text: text.to_owned() }
    }

    /// The text of the identifier.
    pub fn as_str(&self) -> (r: &str)
        ensures
            r@ == self@,
    {
        self.text.as_str()
    }
}

/// The type of a resource in the format that declares it.
#[derive(Debug, PartialEq, Eq)]
pub struct ResourceType {
    pub text: String,
}

impl View for ResourceType {
    type V = Seq<char>;

    open spec fn view(&self) -> Seq<char> {
        self.text@
    }
}

impl ResourceType {
    /// The resource type with the given text.
    pub fn new(text: &str) -> (r: ResourceType)
        ensures
            r@ == text@,
    {
        ResourceType { text: text.to_owned() }
    }

    /// The text of the resource type.
    pub fn as_str(&self) -> (r: &str)
        ensures
            r@ == self@,
    {
        self.text.as_str()
    }
}

/// A region of a provider.
#[derive(Debug, PartialEq, Eq)]
pub struct Region {
    pub text: String,
}

impl View for Region {
    type V = Seq<char>;

    open spec fn view(&self) -> Seq<char> {
        self.text@
    }
}

impl Region {
    /// The region with the given text.
    pub fn new(text: &str) -> (r: Region)
        ensures
            r@ == text@,
    {
        Region { text: text.to_owned() }
    }

    /// The text of the region.
    pub fn as_str(&self) -> (r: &str)
        ensures
            r@ == self@,
    {
        self.text.as_str()
    }
}

/// Who runs a resource.
#[derive(Debug, Clone, Copy, PartialEq, Eq, Structural)]
pub enum Provider {
    Aws,
    Gcp,
    Cloudflare,
    Other,
}

/// At most one value for each provider.
#[derive(Debug, PartialEq, Eq)]
pub struct PerProvider<T> {
    pub aws: Option<T>,
    pub gcp: Option<T>,
    pub cloudflare: Option<T>,
    pub other: Option<T>,
}

impl<T> PerProvider<T> {
    /// The value for a provider.
    pub open spec fn at(self, provider: Provider) -> Option<T> {
        match provider {
            Provider::Aws => self.aws,
            Provider::Gcp => self.gcp,
            Provider::Cloudflare => self.cloudflare,
            Provider::Other => self.other,
        }
    }

    /// No values.
    pub fn new() -> (r: Self)
        ensures
            forall|p: Provider| (#[trigger] r.at(p)) is None,
    {
        PerProvider { aws: None, gcp: None, cloudflare: None, other: None }
    }

    /// Sets the value for a provider.
    pub fn insert(&mut self, provider: Provider, value: T)
        ensures
            forall|p: Provider|
                (#[trigger] final(self).at(p)) == if p == provider {
                    Some(value)
                } else {
                    old(self).at(p)
                },
    {
        match provider {
            Provider::Aws => {
                self.aws = Some(value);
            },
            Provider::Gcp => {
                self.gcp = Some(value);
            },
            Provider::Cloudflare => {
                self.cloudflare = Some(value);
            },
            Provider::Other => {
                self.other = Some(value);
            },
        }
    }

    /// The value for a provider.
    pub fn get(&self, provider: Provider) -> (r: Option<&T>)
        ensures
            match r {
                Some(v) => self.at(provider) == Some(*v),
                None => self.at(provider) is None,
            },
    {
        match provider {
            Provider::Aws => self.aws.as_ref(),
            Provider::Gcp => self.gcp.as_ref(),
            Provider::Cloudflare => self.cloudflare.as_ref(),
            Provider::Other => self.other.as_ref(),
        }
    }
}

// ---------------------------------------------------------------------------
// Resources
// ---------------------------------------------------------------------------

/// What a resource is, independent of the format that declares it: the service
/// that it belongs to and that service's own description of it.
#[derive(Debug, PartialEq, Eq)]
pub struct ResourceShell {
    pub service_id: String,
    pub provider: Provider,
    pub spec: Json,
}

/// The model of a [`ResourceShell`].
pub struct ShellView {
    pub service_id: Seq<char>,
    pub provider: Provider,
    pub spec: JsonView,
}

impl View for ResourceShell {
    type V = ShellView;

    open spec fn view(&self) -> ShellView {
        ShellView { service_id: self.service_id@, provider: self.provider, spec: self.spec@ }
    }
}

/// The shell of a resource that no service describes.
pub open spec fn other_shell(resource_type: Seq<char>) -> ShellView {
    ShellView {
        service_id: "other"@,
        provider: Provider::Other,
        spec: JsonView::String(resource_type),
    }
}

impl ResourceShell {
    /// A shell of the given service.
    pub fn new(service_id: &str, provider: Provider, spec: Json) -> (r: ResourceShell)
        ensures
            r@ == (ShellView { service_id: service_id@, provider, spec: spec@ }),
    {
        ResourceShell { service_id: service_id.to_owned(), provider, spec }
    }

    /// The shell of a resource that no service describes.
    pub fn other(resource_type: &str) -> (r: ResourceShell)
        ensures
            r@ == other_shell(resource_type@),
    {
        ResourceShell {
            service_id: "other".to_owned(),
            provider: Provider::Other,
            spec: Json::String(resource_type.to_owned()),
        }
    }
}

/// A resource of an architecture.
#[derive(Debug, PartialEq, Eq)]
pub struct Resource {
    pub logical_id: LogicalId,
    pub resource_type: ResourceType,
    pub shell: ResourceShell,
    /// The resource that contains this one.
    pub group: Option<LogicalId>,
}

/// The model of a [`Resource`].
pub struct NodeView {
    pub logical_id: Seq<char>,
    pub resource_type: Seq<char>,
    pub shell: ShellView,
    pub group: Option<Seq<char>>,
}

impl View for Resource {
    type V = NodeView;

    open spec fn view(&self) -> NodeView {
        NodeView {
            logical_id: self.logical_id@,
            resource_type: self.resource_type@,
            shell: self.shell@,
            group: match self.group {
                Some(g) => Some(g@),
                None => None,
            },
        }
    }
}

/// The models of a sequence of resources.
pub open spec fn node_views(v: Seq<Resource>) -> Seq<NodeView> {
    v.map_values(|r: Resource| r@)
}

// ---------------------------------------------------------------------------
// Connections
// ---------------------------------------------------------------------------

/// How one resource drives another.
#[derive(Debug, Clone, Copy, PartialEq, Eq, Structural)]
pub enum ConnectionType {
    EventSource,
    Notification,
    Invocation,
    DataFlow,
}

/// A connection from one resource to another.
#[derive(Debug, PartialEq, Eq)]
pub struct Connection {
    pub source: LogicalId,
    pub target: LogicalId,
    pub connection_type: ConnectionType,
    pub batch_size: Option<Number>,
    pub parallelization_factor: Option<Number>,
    pub factor: Option<Number>,
    pub source_hint: Option<String>,
}

/// The model of a [`Connection`].
pub struct ConnectionView {
    pub source: Seq<char>,
    pub target: Seq<char>,
    pub connection_type: ConnectionType,
    pub batch_size: Option<NumberView>,
    pub parallelization_factor: Option<NumberView>,
    pub factor: Option<NumberView>,
    pub source_hint: Option<Seq<char>>,
}

/// The model of an optional number.
pub open spec fn opt_number(n: Option<Number>) -> Option<NumberView> {
    match n {
        Some(x) => Some(x@),
        None => None,
    }
}

impl View for Connection {
    type V = ConnectionView;

    open spec fn view(&self) -> ConnectionView {
        ConnectionView {
            source: self.source@,
            target: self.target@,
            connection_type: self.connection_type,
            batch_size: opt_number(self.batch_size),
            parallelization_factor: opt_number(self.parallelization_factor),
            factor: opt_number(self.factor),
            source_hint: match self.source_hint {
                Some(s) => Some(s@),
                None => None,
            },
        }
    }
}

/// The models of a sequence of connections.
pub open spec fn connection_views(v: Seq<Connection>) -> Seq<ConnectionView> {
    v.map_values(|c: Connection| c@)
}

/// A connection that says no more than which resources it connects and how.
pub open spec fn plain_connection(
    source: Seq<char>,
    target: Seq<char>,
    connection_type: ConnectionType,
) -> ConnectionView {
    ConnectionView {
        source,
        target,
        connection_type,
        batch_size: None,
        parallelization_factor: None,
        factor: None,
        source_hint: None,
    }
}

/// Makes a connection that says no more than which resources it connects and
/// how.
pub fn simple_connection(source: &str, target: &str, connection_type: ConnectionType) -> (r:
    Connection)
    ensures
        r@ == plain_connection(source@, target@, connection_type),
{
    Connection {
        source: LogicalId::new(source),
        target: LogicalId::new(target),
        connection_type,
        batch_size: None,
        parallelization_factor: None,
        factor: None,
        source_hint: None,
    }
}

/// Two connections connect the same resources in the same way.
pub open spec fn same_edge(a: ConnectionView, b: ConnectionView) -> bool {
    a.source == b.source && a.target == b.target && a.connection_type == b.connection_type
}

/// Some connection of `s` connects the same resources in the same way as `c`.
pub open spec fn has_edge(s: Seq<ConnectionView>, c: ConnectionView) -> bool {
    exists|i: int| 0 <= i < s.len() && same_edge(#[trigger] s[i], c)
}

/// The connections after `c` was offered: it is added when both of its ends
/// are admitted and no connection has its edge yet.
pub open spec fn offered(
    s: Seq<ConnectionView>,
    c: ConnectionView,
    source_admitted: bool,
    target_admitted: bool,
) -> Seq<ConnectionView> {
    if source_admitted && target_admitted && !has_edge(s, c) {
        s.push(c)
    } else {
        s
    }
}

/// No two connections have the same edge.
pub open spec fn edges_distinct(s: Seq<ConnectionView>) -> bool {
    forall|i: int, j: int|
        0 <= i < j < s.len() ==> !same_edge(#[trigger] s[i], #[trigger] s[j])
}

/// Offering a connection keeps edges distinct.
pub proof fn law_offering_keeps_edges_distinct(
    s: Seq<ConnectionView>,
    c: ConnectionView,
    source_admitted: bool,
    target_admitted: bool,
)
    requires
        edges_distinct(s),
    ensures
        edges_distinct(offered(s, c, source_admitted, target_admitted)),
{
}

/// Collects connections, each edge once.
pub struct ConnectionDeduper {
    connections: Vec<Connection>,
}

impl View for ConnectionDeduper {
    type V = Seq<ConnectionView>;

    closed spec fn view(&self) -> Seq<ConnectionView> {
        connection_views(self.connections@)
    }
}

impl ConnectionDeduper {
    /// A collection without connections.
    pub fn new() -> (r: ConnectionDeduper)
        ensures
            r@ == Seq::<ConnectionView>::empty(),
    {
        let r = ConnectionDeduper { connections: Vec::new() };
        assert(r@ =~= Seq::empty());
        r
    }

    /// Adds `conn` when both of its ends are admitted and its edge is new.
    pub fn try_push(&mut self, conn: Connection, source_admitted: bool, target_admitted: bool)
        ensures
            final(self)@ == offered(old(self)@, conn@, source_admitted, target_admitted),
    {
        if !source_admitted || !target_admitted {
            return ;
        }
        let mut i: usize = 0;
        while i < self.connections.len()
            invariant
                self.connections@ == old(self).connections@,
                i <= self.connections@.len(),
                forall|j: int|
                    0 <= j < i ==> !same_edge(#[trigger] connection_views(self.connections@)[j], conn@),
            decreases self.connections@.len() - i,
        {
            let c = &self.connections[i];
            if text_eq(c.source.as_str(), conn.source.as_str()) && text_eq(
                c.target.as_str(),
                conn.target.as_str(),
            ) && c.connection_type == conn.connection_type {
                assert(same_edge(connection_views(self.connections@)[i as int], conn@));
                return ;
            }
            i = i + 1;
        }
        let ghost before = self.connections@;
        self.connections.push(conn);
        assert(connection_views(self.connections@) =~= connection_views(before).push(conn@));
    }

    /// The collected connections, in the order in which they were added.
    pub fn into_connections(self) -> (r: Vec<Connection>)
        ensures
            connection_views(r@) == self@,
    {
        self.connections
    }
}

// ---------------------------------------------------------------------------
// Architectures
// ---------------------------------------------------------------------------

/// A system of resources and the connections between them.
#[derive(Debug, PartialEq, Eq)]
pub struct Architecture {
    pub name: String,
    pub region: Region,
    pub resources: Vec<Resource>,
    pub connections: Vec<Connection>,
}

/// The model of an [`Architecture`].
pub struct ArchitectureView {
    pub name: Seq<char>,
    pub region: Seq<char>,
    pub resources: Seq<NodeView>,
    pub connections: Seq<ConnectionView>,
}

impl View for Architecture {
    type V = ArchitectureView;

    open spec fn view(&self) -> ArchitectureView {
        ArchitectureView {
            name: self.name@,
            region: self.region@,
            resources: node_views(self.resources@),
            connections: connection_views(self.connections@),
        }
    }
}

/// Some resource is run by `provider`.
pub open spec fn has_provider_spec(resources: Seq<NodeView>, provider: Provider) -> bool {
    exists|i: int| 0 <= i < resources.len() && (#[trigger] resources[i]).shell.provider == provider
}

impl Architecture {
    /// Whether some resource is run by `provider`.
    pub fn has_provider(&self, provider: Provider) -> (r: bool)
        ensures
            r == has_provider_spec(self@.resources, provider),
    {
        let mut i: usize = 0;
        while i < self.resources.len()
            invariant
                i <= self.resources@.len(),
                forall|j: int|
                    0 <= j < i ==> (#[trigger] self@.resources[j]).shell.provider != provider,
            decreases self.resources@.len() - i,
        {
            if self.resources[i].shell.provider == provider {
                assert(self@.resources[i as int].shell.provider == provider);
                return true;
            }
            i = i + 1;
        }
        false
    }
}

} // verus!
