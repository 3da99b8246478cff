//! Adapters from infrastructure-as-code resources to resource shells.
//!
//! Each format has its own adapter trait. Adapters are collected in a registry
//! and looked up by the type of a resource.

use vstd::prelude::*;

use crate::arch::LogicalId;
use crate::arch::ResourceShell;
use crate::arch::ResourceType;
use crate::arch::ShellView;
use crate::cfn::resolved::PartView;
use crate::json::Json;
use crate::json::JsonView;
use crate::strmap::StrMap;
use crate::text::text_eq;
use crate::text::to_lowercase;
use crate::text::writes_float;
use crate::yaml::Number;
use crate::yaml::NumberView;

verus! {

// ---------------------------------------------------------------------------
// Errors
// ---------------------------------------------------------------------------

/// Why a raw resource could not be converted to a shell.
#[derive(Debug, PartialEq, Eq)]
pub enum IacError {
    MissingProperty(String),
    InvalidValue { field: String, cause: String },
}

/// The model of an [`IacError`].
pub enum IacErrorView {
    MissingProperty(Seq<char>),
    InvalidValue { field: Seq<char>, cause: Seq<char> },
}

impl View for IacError {
    type V = IacErrorView;

    open spec fn view(&self) -> IacErrorView {
        match self {
            IacError::MissingProperty(s) => IacErrorView::MissingProperty(s@),
            IacError::InvalidValue { field, cause } => IacErrorView::InvalidValue {
                field: field@,
                cause: cause@,
            },
        }
    }
}

impl IacError {
    /// The message of the error.
    pub fn message(&self) -> (r: String)
        ensures
            r@ == match self@ {
                IacErrorView::MissingProperty(s) => "missing required property '"@ + s + "'"@,
                IacErrorView::InvalidValue { field, cause } => "invalid value for '"@ + field
                    + "': "@ + cause,
            },
    {
        match self {
            IacError::MissingProperty(s) => {
                let mut m = "missing required property '".to_owned();
                m.append(s.as_str());
                m.append("'");
                m
            },
            IacError::InvalidValue { field, cause } => {
                let mut m = "invalid value for '".to_owned();
                m.append(field.as_str());
                m.append("': ");
                m.append(cause.as_str());
                m
            },
        }
    }
}

// ---------------------------------------------------------------------------
// Property values
// ---------------------------------------------------------------------------

/// One segment of an interpolated string property value.
#[derive(Debug, PartialEq, Eq)]
pub enum IacStringPart {
    /// A plain literal string segment.
    Literal(String),
    /// A `!Ref`-style / resource-name reference segment.
    Ref(String),
    /// A `!GetAtt`-style / resource attribute reference segment.
    Attr { logical_id: String, attr: String },
}

impl View for IacStringPart {
    type V = PartView;

    open spec fn view(&self) -> PartView {
        match self {
            IacStringPart::Literal(s) => PartView::Literal(s@),
            IacStringPart::Ref(id) => PartView::Ref(id@),
            IacStringPart::Attr { logical_id, attr } => PartView::GetAtt {
                logical_id: logical_id@,
                attr: attr@,
            },
        }
    }
}

/// The models of a sequence of parts.
pub open spec fn iac_parts(v: Seq<IacStringPart>) -> Seq<PartView> {
    v.map_values(|p: IacStringPart| p@)
}

/// A property value shared across all formats.
///
/// `Concrete` holds a statically-resolved JSON value. The reference variants
/// carry unresolved references between resources.
#[derive(Debug, PartialEq, Eq)]
pub enum IacPropertyValue {
    /// A statically-resolved concrete JSON value.
    Concrete(Json),
    /// An unresolved `!Ref LogicalId` / `resource_type.name`.
    ResourceRef { logical_id: String },
    /// An unresolved `!GetAtt LogicalId.Attr` / `resource_type.name.attr`.
    ResourceAttr { logical_id: String, attr: String },
    /// An interpolated string of literal text and typed references, together
    /// with its text in the `${...}` syntax.
    Interpolated { parts: Vec<IacStringPart>, rendered: String },
}

/// The model of an [`IacPropertyValue`].
pub enum PropertyView {
    Concrete(JsonView),
    ResourceRef { logical_id: Seq<char> },
    ResourceAttr { logical_id: Seq<char>, attr: Seq<char> },
    Interpolated { parts: Seq<PartView>, rendered: Seq<char> },
}

impl View for IacPropertyValue {
    type V = PropertyView;

    open spec fn view(&self) -> PropertyView {
        match self {
            IacPropertyValue::Concrete(j) => PropertyView::Concrete(j@),
            IacPropertyValue::ResourceRef { logical_id } => PropertyView::ResourceRef {
                logical_id: logical_id@,
            },
            IacPropertyValue::ResourceAttr { logical_id, attr } => PropertyView::ResourceAttr {
                logical_id: logical_id@,
                attr: attr@,
            },
            IacPropertyValue::Interpolated { parts, rendered } => PropertyView::Interpolated {
                parts: iac_parts(parts@),
                rendered: rendered@,
            },
        }
    }
}

impl IacPropertyValue {
    /// An interpolated value, with its rendered form computed from its parts.
    pub fn new_interpolated(parts: Vec<IacStringPart>) -> (r: Self)
        ensures
            r@ == (PropertyView::Interpolated {
                parts: iac_parts(parts@),
                rendered: crate::cfn::resolved::parts_text(iac_parts(parts@)),
            }),
    {
        let rendered = render_iac_parts(&parts);
        IacPropertyValue::Interpolated { parts, rendered }
    }
}

/// Renders parts into a `${...}` interpolated string. Literal segments are
/// emitted as they are, references become `${LogicalId}` or
/// `${LogicalId.Attr}`.
pub fn render_iac_parts(parts: &Vec<IacStringPart>) -> (r: String)
    ensures
        r@ == crate::cfn::resolved::parts_text(iac_parts(parts@)),
{
    let mut out = String::new();
    let ghost pv = iac_parts(parts@);
    for i in 0..parts.len()
        invariant
            pv == iac_parts(parts@),
            out@ == crate::cfn::resolved::parts_text(pv.subrange(0, i as int)),
    {
        proof {
            let now = pv.subrange(0, i + 1);
            assert(now.drop_last() =~= pv.subrange(0, i as int));
            assert(now.last() == parts@[i as int]@);
        }
        match &parts[i] {
            IacStringPart::Literal(s) => {
                out.append(s.as_str());
            },
            IacStringPart::Ref(id) => {
                out.append(crate::cfn::resolved::render_ref(id.as_str()).as_str());
            },
            IacStringPart::Attr { logical_id, attr } => {
                out.append(
                    crate::cfn::resolved::render_getatt(
                        logical_id.as_str(),
                        attr.as_str(),
                    ).as_str(),
                );
            },
        }
    }
    assert(pv.subrange(0, parts@.len() as int) =~= pv);
    out
}

// ---------------------------------------------------------------------------
// Reading property values
// ---------------------------------------------------------------------------

/// The number that a concrete value stands for: a number, or a text that
/// writes one.
pub open spec fn number_of(v: JsonView) -> Option<NumberView> {
    match v {
        JsonView::Number(n) => Some(n),
        JsonView::String(s) => if crate::text::is_float_text(s) {
            Some(NumberView::Float(s))
        } else {
            None
        },
        _ => None,
    }
}

/// The boolean that a text in lower case stands for.
pub open spec fn bool_of_text(lower: Seq<char>) -> Option<bool> {
    if lower == "true"@ {
        Some(true)
    } else if lower == "false"@ {
        Some(false)
    } else {
        None
    }
}

/// The boolean that a concrete value stands for: a boolean, or a text that
/// names one in any case.
pub open spec fn bool_of(v: JsonView) -> Option<bool> {
    match v {
        JsonView::Bool(b) => Some(b),
        JsonView::String(s) => bool_of_text(crate::text::lowercase(s)),
        _ => None,
    }
}

/// The number that a concrete value stands for.
pub fn number_value(v: &Json) -> (r: Option<Number>)
    ensures
        crate::arch::opt_number(r) == number_of(v@),
{
    match v {
        Json::Number(n) => Some(n.clone()),
        Json::String(s) => if writes_float(s.as_str()) {
            Some(Number::Float(s.clone()))
        } else {
            None
        },
        _ => None,
    }
}

/// The boolean that a text in lower case stands for.
pub fn bool_from_lowercase(lower: &str) -> (r: Option<bool>)
    ensures
        r == bool_of_text(lower@),
{
    if text_eq(lower, "true") {
        Some(true)
    } else if text_eq(lower, "false") {
        Some(false)
    } else {
        None
    }
}

/// The boolean that a concrete value stands for.
pub fn bool_value(v: &Json) -> (r: Option<bool>)
    ensures
        r == bool_of(v@),
{
    match v {
        Json::Bool(b) => Some(*b),
        Json::String(s) => bool_from_lowercase(to_lowercase(s.as_str()).as_str()),
        _ => None,
    }
}

/// The value of a property, where it has one, as JSON.
pub open spec fn concrete_property(p: Option<PropertyView>) -> Option<JsonView> {
    match p {
        Some(PropertyView::Concrete(j)) => Some(j),
        _ => None,
    }
}

/// The text of a property: a concrete string, or an interpolated string in its
/// rendered form.
pub open spec fn property_text(p: Option<PropertyView>) -> Option<Seq<char>> {
    match p {
        Some(PropertyView::Concrete(JsonView::String(s))) => Some(s),
        Some(PropertyView::Interpolated { rendered, .. }) => Some(rendered),
        _ => None,
    }
}

/// The text of a property that is a concrete string.
pub open spec fn concrete_text(p: Option<PropertyView>) -> Option<Seq<char>> {
    match concrete_property(p) {
        Some(JsonView::String(s)) => Some(s),
        _ => None,
    }
}

/// The number that a property stands for.
pub open spec fn property_number(p: Option<PropertyView>) -> Option<NumberView> {
    match concrete_property(p) {
        Some(j) => number_of(j),
        None => None,
    }
}

/// The boolean that a property stands for.
pub open spec fn property_bool(p: Option<PropertyView>) -> Option<bool> {
    match concrete_property(p) {
        Some(j) => bool_of(j),
        None => None,
    }
}

/// The properties that a JSON value describes: those of an object, and none of any
/// other value.
pub open spec fn described_properties(j: JsonView) -> Seq<(Seq<char>, PropertyView)> {
    match j {
        JsonView::Object(m) => concrete_entries(m),
        _ => Seq::empty(),
    }
}

/// The properties of a map.
pub open spec fn property_entries(m: Seq<(Seq<char>, IacPropertyValue)>) -> Seq<
    (Seq<char>, PropertyView),
> {
    crate::strmap::mapped(m, |p: IacPropertyValue| p@)
}

/// The property under `key`.
fn property<'a>(m: &'a StrMap<IacPropertyValue>, key: &str) -> (r: Option<&'a IacPropertyValue>)
    ensures
        crate::strmap::lookup(property_entries(m@), key@) == match r {
            Some(p) => Some(p@),
            None => None,
        },
{
    proof {
        crate::strmap::lemma_lookup_mapped(m@, |p: IacPropertyValue| p@, key@);
    }
    m.get(key)
}

// ---------------------------------------------------------------------------
// Adapters
// ---------------------------------------------------------------------------

/// The model of a converted shell or an error.
pub open spec fn shell_outcome(r: Result<ResourceShell, IacError>) -> Result<
    ShellView,
    IacErrorView,
> {
    match r {
        Ok(s) => Ok(s@),
        Err(e) => Err(e@),
    }
}

/// The texts of a sequence of string slices.
pub open spec fn slice_texts(v: Seq<&'static str>) -> Seq<Seq<char>> {
    v.map_values(|s: &'static str| s@)
}

/// Adapters under the resource types that they handle.
pub struct AdapterIndex<A> {
    adapters: Vec<A>,
    index: StrMap<usize>,
}

impl<A> AdapterIndex<A> {
    #[verifier::type_invariant]
    spec fn indexes_hold(self) -> bool {
        forall|i: int|
            0 <= i < self.index@.len() ==> (#[trigger] self.index@[i]).1 < self.adapters@.len()
    }

    /// The adapter that is registered for a resource type.
    pub closed spec fn registered(self, resource_type: Seq<char>) -> Option<A> {
        match crate::strmap::lookup(self.index@, resource_type) {
            Some(i) => Some(self.adapters@[i as int]),
            None => None,
        }
    }

    /// The resource types that have an adapter, in order.
    pub closed spec fn types(self) -> Seq<Seq<char>> {
        self.index@.map_values(|e: (Seq<char>, usize)| e.0)
    }

    /// An index without adapters.
    pub fn new() -> (r: Self)
        ensures
            forall|t: Seq<char>| (#[trigger] r.registered(t)) is None,
            r.types() == Seq::<Seq<char>>::empty(),
    {
        let index: StrMap<usize> = StrMap::new();
        let r = AdapterIndex { adapters: Vec::new(), index };
        assert(r.types() =~= Seq::empty());
        r
    }

    /// Registers an adapter for each of the given resource types.
    pub fn register(&mut self, adapter: A, names: &Vec<&'static str>)
        ensures
            forall|t: Seq<char>|
                (#[trigger] final(self).registered(t)) == if slice_texts(names@).contains(t) {
                    Some(adapter)
                } else {
                    old(self).registered(t)
                },
    {
        proof {
            use_type_invariant(&*self);
        }
        let ghost types = slice_texts(names@);
        let ghost start = *self;
        let mut adapters: Vec<A> = Vec::new();
        let mut index: StrMap<usize> = StrMap::new();
        std::mem::swap(&mut index, &mut self.index);
        std::mem::swap(&mut adapters, &mut self.adapters);
        let at: usize = adapters.len();
        adapters.push(adapter);
        let mut i: usize = 0;
        proof {
            assert forall|t: Seq<char>| #[trigger]
                crate::strmap::lookup(index@, t) == (if types.subrange(0, 0).contains(t) {
                    Some(at)
                } else {
                    crate::strmap::lookup(start.index@, t)
                }) by {}
        }
        while i < names.len()
            invariant
                i <= names@.len(),
                slice_texts(names@) == types,
                adapters@ == start.adapters@.push(adapter),
                at == start.adapters@.len(),
                forall|k: int|
                    0 <= k < index@.len() ==> (#[trigger] index@[k]).1 < adapters@.len(),
                forall|t: Seq<char>| #[trigger]
                    crate::strmap::lookup(index@, t) == (if types.subrange(0, i as int).contains(
                        t,
                    ) {
                        Some(at)
                    } else {
                        crate::strmap::lookup(start.index@, t)
                    }),
            decreases names@.len() - i,
        {
            let name = names[i].to_owned();
            let ghost before = index@;
            proof {
                crate::strmap::lemma_inserted_values(before, name@, at, adapters@.len());
                assert forall|t: Seq<char>| #[trigger]
                    crate::strmap::lookup(crate::strmap::inserted(before, name@, at), t) == (
                    if types.subrange(0, i + 1).contains(t) {
                        Some(at)
                    } else {
                        crate::strmap::lookup(start.index@, t)
                    }) by {
                    crate::strmap::lemma_lookup_inserted(before, name@, at, t);
                    let now = types.subrange(0, i + 1);
                    let seen = types.subrange(0, i as int);
                    assert(now =~= seen.push(name@));
                    assert(crate::strmap::lookup(before, t) == (if seen.contains(t) {
                        Some(at)
                    } else {
                        crate::strmap::lookup(start.index@, t)
                    }));
                    if t == name@ {
                        assert(now[i as int] == t);
                    } else if seen.contains(t) {
                        let k = choose|k: int| 0 <= k < seen.len() && seen[k] == t;
                        assert(now[k] == t);
                    } else if now.contains(t) {
                        let k = choose|k: int| 0 <= k < now.len() && now[k] == t;
                        assert(seen[k] == t);
                    }
                }
            }
            index.insert(name, at);
            i = i + 1;
        }
        proof {
            assert(types.subrange(0, i as int) =~= types);
            assert forall|t: Seq<char>|
                crate::strmap::lookup(start.index@, t) is Some implies crate::strmap::lookup(
                start.index@,
                t,
            )->Some_0 < start.adapters@.len() by {
                crate::strmap::lemma_lookup(start.index@, t);
            }
        }
        self.adapters = adapters;
        self.index = index;
    }

    /// The adapter for a resource type.
    pub fn lookup(&self, resource_type: &str) -> (r: Option<&A>)
        ensures
            match r {
                Some(a) => self.registered(resource_type@) == Some(*a),
                None => self.registered(resource_type@) is None,
            },
    {
        proof {
            use_type_invariant(self);
            crate::strmap::lemma_lookup(self.index@, resource_type@);
        }
        match self.index.get(resource_type) {
            Some(i) => Some(&self.adapters[*i]),
            None => None,
        }
    }

    /// The resource types that have an adapter, in order.
    pub fn registered_types(&self) -> (r: Vec<String>)
        ensures
            crate::text::texts(r@) == self.types(),
            forall|i: int, j: int|
                0 <= i < j < r@.len() ==> crate::text::text_lt(
                    #[trigger] self.types()[i],
                    #[trigger] self.types()[j],
                ),
            forall|t: Seq<char>| #[trigger]
                self.types().contains(t) <==> self.registered(t) is Some,
    {
        let mut out: Vec<String> = Vec::new();
        let n: usize = self.index.len();
        let ghost all = self.types();
        proof {
            assert forall|t: Seq<char>| #[trigger]
                all.contains(t) <==> self.registered(t) is Some by {
                crate::strmap::lemma_lookup(self.index@, t);
                if all.contains(t) {
                    let k = choose|k: int| 0 <= k < all.len() && all[k] == t;
                    assert(self.index@[k].0 == t);
                } else if self.registered(t) is Some {
                    let k = choose|k: int|
                        0 <= k < self.index@.len() && (#[trigger] self.index@[k]).0 == t;
                    assert(all[k] == t);
                }
            }
        }
        let mut i: usize = 0;
        while i < n
            invariant
                i <= n == self.index@.len(),
                all == self.types(),
                crate::text::texts(out@) == all.subrange(0, i as int),
            decreases n - i,
        {
            let ghost before = out@;
            out.push(self.index.key_at(i).clone());
            assert(crate::text::texts(out@) =~= crate::text::texts(before).push(
                self.index@[i as int].0,
            ));
            i = i + 1;
            assert(crate::text::texts(out@) =~= all.subrange(0, i as int));
        }
        assert(all.subrange(0, n as int) =~= all);
        out
    }
}

// ---------------------------------------------------------------------------
// CloudFormation
// ---------------------------------------------------------------------------

/// A raw `CloudFormation` resource.
#[derive(Debug, PartialEq, Eq)]
pub struct RawCfnResource {
    pub logical_id: LogicalId,
    pub resource_type: ResourceType,
    /// The `Properties` block of the resource, keyed by property name.
    pub properties: StrMap<IacPropertyValue>,
}

/// The model of a [`RawCfnResource`].
pub struct RawCfnView {
    pub logical_id: Seq<char>,
    pub resource_type: Seq<char>,
    pub properties: Seq<(Seq<char>, PropertyView)>,
}

impl View for RawCfnResource {
    type V = RawCfnView;

    open spec fn view(&self) -> RawCfnView {
        RawCfnView {
            logical_id: self.logical_id@,
            resource_type: self.resource_type@,
            properties: property_entries(self.properties@),
        }
    }
}

/// The entries of an object stored one after the other, each as a concrete
/// property.
pub open spec fn concrete_entries(m: Seq<(Seq<char>, JsonView)>) -> Seq<(Seq<char>, PropertyView)>
    decreases m.len(),
{
    if m.len() == 0 {
        Seq::empty()
    } else {
        crate::strmap::inserted(
            concrete_entries(m.drop_last()),
            m.last().0,
            PropertyView::Concrete(m.last().1),
        )
    }
}

impl RawCfnResource {
    /// A resource whose properties are the entries of a JSON object; any other
    /// value stands for no properties.
    pub fn new(logical_id: &str, resource_type: &str, properties: Json) -> (r: Self)
        ensures
            r@ == (RawCfnView {
                logical_id: logical_id@,
                resource_type: resource_type@,
                properties: described_properties(properties@),
            }),
    {
        let mut props: StrMap<IacPropertyValue> = StrMap::new();
        let ghost f = |p: IacPropertyValue| p@;
        assert(crate::strmap::mapped(props@, f) =~= Seq::empty());
        if let Json::Object(m) = &properties {
            let ghost mv = crate::json::json_entries(m@);
            assert(properties@->Object_0 =~= mv);
            let mut i: usize = 0;
            while i < m.len()
                invariant
                    i <= m@.len(),
                    mv == crate::json::json_entries(m@),
                    f == (|p: IacPropertyValue| p@),
                    crate::strmap::mapped(props@, f) == concrete_entries(mv.subrange(0, i as int)),
                decreases m@.len() - i,
            {
                let value = IacPropertyValue::Concrete(m[i].1.clone());
                proof {
                    let now = mv.subrange(0, i + 1);
                    assert(now.drop_last() =~= mv.subrange(0, i as int));
                    assert(now.last() == (m@[i as int].0@, m@[i as int].1@));
                    crate::strmap::lemma_inserted_mapped(props@, f, m@[i as int].0@, value);
                }
                props.insert(m[i].0.clone(), value);
                i = i + 1;
            }
            assert(mv.subrange(0, i as int) =~= mv);
        }
        RawCfnResource {
            logical_id: LogicalId::new(logical_id),
            resource_type: ResourceType::new(resource_type),
            properties: props,
        }
    }

    /// The text of a property: a concrete string, or an interpolated string in
    /// its rendered form.
    pub fn get_str(&self, key: &str) -> (r: Option<&str>)
        ensures
            crate::cfn::parser::opt_str(r) == property_text(
                crate::strmap::lookup(self@.properties, key@),
            ),
    {
        match property(&self.properties, key) {
            Some(IacPropertyValue::Concrete(Json::String(s))) => Some(s.as_str()),
            Some(IacPropertyValue::Interpolated { rendered, .. }) => Some(rendered.as_str()),
            _ => None,
        }
    }

    /// The number that a property stands for.
    pub fn get_f64(&self, key: &str) -> (r: Option<Number>)
        ensures
            crate::arch::opt_number(r) == property_number(
                crate::strmap::lookup(self@.properties, key@),
            ),
    {
        match property(&self.properties, key) {
            Some(IacPropertyValue::Concrete(j)) => number_value(j),
            _ => None,
        }
    }

    /// The boolean that a property stands for.
    pub fn get_bool(&self, key: &str) -> (r: Option<bool>)
        ensures
            r == property_bool(crate::strmap::lookup(self@.properties, key@)),
    {
        match property(&self.properties, key) {
            Some(IacPropertyValue::Concrete(j)) => bool_value(j),
            _ => None,
        }
    }

    /// The JSON value of a concrete property.
    pub fn get_object(&self, key: &str) -> (r: Option<&Json>)
        ensures
            match r {
                Some(j) => concrete_property(crate::strmap::lookup(self@.properties, key@)) == Some(
                    j@,
                ),
                None => concrete_property(crate::strmap::lookup(self@.properties, key@)) is None,
            },
    {
        match property(&self.properties, key) {
            Some(IacPropertyValue::Concrete(j)) => Some(j),
            _ => None,
        }
    }
}

/// Adapter for converting `CloudFormation` resources of certain types to
/// shells.
///
/// Of an implementation that does not say what its models are, nothing is known
/// but that they are what its methods give.
pub trait CfnAdapter {
    /// The resource types that the adapter handles.
    closed spec fn types(&self) -> Seq<Seq<char>> {
        arbitrary()
    }

    /// What the adapter converts a resource to.
    closed spec fn converted(&self, raw: RawCfnView) -> Result<ShellView, IacErrorView> {
        arbitrary()
    }

    /// The resource types that the adapter handles.
    fn handles(&self) -> (r: Vec<&'static str>)
        ensures
            slice_texts(r@) == self.types(),
    ;

    /// Converts a raw resource.
    fn convert(&self, raw: &RawCfnResource) -> (r: Result<ResourceShell, IacError>)
        ensures
            shell_outcome(r) == self.converted(raw@),
    ;
}

/// An adapter that can be shared.
pub struct SharedCfnAdapter {
    pub adapter: std::sync::Arc<dyn CfnAdapter>,
}

/// Registry of `CloudFormation` adapters, keyed by resource type.
pub struct CfnAdapterRegistry {
    pub index: AdapterIndex<SharedCfnAdapter>,
}

impl CfnAdapterRegistry {
    /// The adapter that is registered for a resource type.
    pub open spec fn registered(self, resource_type: Seq<char>) -> Option<SharedCfnAdapter> {
        self.index.registered(resource_type)
    }

    /// A registry without adapters.
    pub fn new() -> (r: Self)
        ensures
            forall|t: Seq<char>| (#[trigger] r.registered(t)) is None,
            r.index.types() == Seq::<Seq<char>>::empty(),
    {
        CfnAdapterRegistry { index: AdapterIndex::new() }
    }

    /// Registers an adapter for each resource type that it handles. None of
    /// them may be registered yet, nor may the adapter name one twice.
    pub fn register(&mut self, adapter: SharedCfnAdapter)
        requires
            forall|i: int|
                0 <= i < adapter.adapter.types().len() ==> old(self).registered(
                    #[trigger] adapter.adapter.types()[i],
                ) is None,
            adapter.adapter.types().no_duplicates(),
        ensures
            forall|t: Seq<char>|
                (#[trigger] final(self).registered(t)) == if adapter.adapter.types().contains(t) {
                    Some(adapter)
                } else {
                    old(self).registered(t)
                },
    {
        let names = adapter.adapter.handles();
        let ghost before = self.index;
        self.index.register(adapter, &names);
        assert forall|t: Seq<char>| (#[trigger] self.registered(t)) == (
        if adapter.adapter.types().contains(t) {
            Some(adapter)
        } else {
            old(self).registered(t)
        }) by {
            assert(self.index.registered(t) == (if slice_texts(names@).contains(t) {
                Some(adapter)
            } else {
                before.registered(t)
            }));
        }
    }

    /// The adapter for a resource type.
    pub fn lookup(&self, resource_type: &str) -> (r: Option<&SharedCfnAdapter>)
        ensures
            match r {
                Some(a) => self.registered(resource_type@) == Some(*a),
                None => self.registered(resource_type@) is None,
            },
    {
        self.index.lookup(resource_type)
    }

    /// The resource types that have an adapter, in order.
    pub fn registered_types(&self) -> (r: Vec<String>)
        ensures
            crate::text::texts(r@) == self.index.types(),
            forall|i: int, j: int|
                0 <= i < j < r@.len() ==> crate::text::text_lt(
                    #[trigger] self.index.types()[i],
                    #[trigger] self.index.types()[j],
                ),
            forall|t: Seq<char>| #[trigger]
                self.index.types().contains(t) <==> self.registered(t) is Some,
    {
        self.index.registered_types()
    }

    /// Converts a raw resource, or gives `None` if no adapter is registered
    /// for its type.
    pub fn convert(&self, raw: &RawCfnResource) -> (r: Option<Result<ResourceShell, IacError>>)
        ensures
            match self.registered(raw.resource_type@) {
                Some(a) => r is Some && shell_outcome(r->Some_0) == a.adapter.converted(raw@),
                None => r is None,
            },
    {
        match self.lookup(raw.resource_type.as_str()) {
            Some(a) => Some(a.adapter.convert(raw)),
            None => None,
        }
    }
}

// ---------------------------------------------------------------------------
// Terraform
// ---------------------------------------------------------------------------

/// The models of the bodies of blocks.
pub open spec fn json_bodies(v: Seq<StrMap<Json>>) -> Seq<Seq<(Seq<char>, JsonView)>> {
    v.map_values(|m: StrMap<Json>| crate::strmap::mapped(m@, |j: Json| j@))
}

/// The models of blocks under their names.
pub open spec fn json_blocks(m: Seq<(Seq<char>, Vec<StrMap<Json>>)>) -> Seq<
    (Seq<char>, Seq<Seq<(Seq<char>, JsonView)>>),
> {
    crate::strmap::mapped(m, |v: Vec<StrMap<Json>>| json_bodies(v@))
}

/// A resolved Terraform resource.
///
/// Concrete attribute values are wrapped in [`IacPropertyValue::Concrete`];
/// references between resources become [`IacPropertyValue::ResourceRef`] or
/// [`IacPropertyValue::ResourceAttr`].
#[derive(Debug, PartialEq, Eq)]
pub struct RawTfResource {
    pub logical_id: LogicalId,
    pub resource_type: ResourceType,
    /// Flat attribute map with resolved values.
    pub attrs: StrMap<IacPropertyValue>,
    /// The bodies of the blocks under each name, in order.
    pub blocks: StrMap<Vec<StrMap<Json>>>,
}

/// The model of a [`RawTfResource`].
#[verifier::ext_equal]
pub struct RawTfView {
    pub logical_id: Seq<char>,
    pub resource_type: Seq<char>,
    pub attrs: Seq<(Seq<char>, PropertyView)>,
    pub blocks: Seq<(Seq<char>, Seq<Seq<(Seq<char>, JsonView)>>)>,
}

impl View for RawTfResource {
    type V = RawTfView;

    open spec fn view(&self) -> RawTfView {
        RawTfView {
            logical_id: self.logical_id@,
            resource_type: self.resource_type@,
            attrs: property_entries(self.attrs@),
            blocks: json_blocks(self.blocks@),
        }
    }
}

impl RawTfResource {
    /// A resource without attributes and blocks.
    pub fn new(logical_id: &str, resource_type: &str) -> (r: Self)
        ensures
            r@ == (RawTfView {
                logical_id: logical_id@,
                resource_type: resource_type@,
                attrs: Seq::empty(),
                blocks: Seq::empty(),
            }),
    {
        let r = RawTfResource {
            logical_id: LogicalId::new(logical_id),
            resource_type: ResourceType::new(resource_type),
            attrs: StrMap::new(),
            blocks: StrMap::new(),
        };
        assert(r@.attrs =~= Seq::empty());
        assert(r@.blocks =~= Seq::empty());
        r
    }

    /// The text of an attribute that is a concrete string.
    pub fn get_str(&self, key: &str) -> (r: Option<&str>)
        ensures
            crate::cfn::parser::opt_str(r) == concrete_text(
                crate::strmap::lookup(self@.attrs, key@),
            ),
    {
        match property(&self.attrs, key) {
            Some(IacPropertyValue::Concrete(Json::String(s))) => Some(s.as_str()),
            _ => None,
        }
    }

    /// The number that an attribute stands for.
    pub fn get_f64(&self, key: &str) -> (r: Option<Number>)
        ensures
            crate::arch::opt_number(r) == property_number(
                crate::strmap::lookup(self@.attrs, key@),
            ),
    {
        match property(&self.attrs, key) {
            Some(IacPropertyValue::Concrete(j)) => number_value(j),
            _ => None,
        }
    }

    /// The boolean that an attribute stands for.
    pub fn get_bool(&self, key: &str) -> (r: Option<bool>)
        ensures
            r == property_bool(crate::strmap::lookup(self@.attrs, key@)),
    {
        match property(&self.attrs, key) {
            Some(IacPropertyValue::Concrete(j)) => bool_value(j),
            _ => None,
        }
    }

    /// The body of the first block under `name`.
    pub fn get_block(&self, name: &str) -> (r: Option<&StrMap<Json>>)
        ensures
            match crate::strmap::lookup(self@.blocks, name@) {
                Some(s) => if s.len() > 0 {
                    r is Some && crate::strmap::mapped(r->Some_0@, |j: Json| j@) == s[0]
                } else {
                    r is None
                },
                None => r is None,
            },
    {
        proof {
            crate::strmap::lemma_lookup_mapped(
                self.blocks@,
                |v: Vec<StrMap<Json>>| json_bodies(v@),
                name@,
            );
        }
        match self.blocks.get(name) {
            Some(v) => if v.len() > 0 {
                Some(&v[0])
            } else {
                None
            },
            None => None,
        }
    }

    /// The bodies of all blocks under `name`.
    pub fn get_blocks(&self, name: &str) -> (r: &[StrMap<Json>])
        ensures
            json_bodies(r@) == match crate::strmap::lookup(self@.blocks, name@) {
                Some(s) => s,
                None => Seq::empty(),
            },
    {
        proof {
            crate::strmap::lemma_lookup_mapped(
                self.blocks@,
                |v: Vec<StrMap<Json>>| json_bodies(v@),
                name@,
            );
        }
        match self.blocks.get(name) {
            Some(v) => v.as_slice(),
            None => {
                let none: &[StrMap<Json>] = &[];
                assert(json_bodies(none@) =~= Seq::empty());
                none
            },
        }
    }
}

/// Adapter for converting Terraform resources of certain types to shells.
///
/// Of an implementation that does not say what its models are, nothing is known
/// but that they are what its methods give.
pub trait TfAdapter {
    /// The resource types that the adapter handles.
    closed spec fn types(&self) -> Seq<Seq<char>> {
        arbitrary()
    }

    /// What the adapter converts a resource to.
    closed spec fn converted(&self, raw: RawTfView) -> Result<ShellView, IacErrorView> {
        arbitrary()
    }

    /// The resource types that the adapter handles.
    fn handles(&self) -> (r: Vec<&'static str>)
        ensures
            slice_texts(r@) == self.types(),
    ;

    /// Converts a raw resource.
    fn convert(&self, raw: &RawTfResource) -> (r: Result<ResourceShell, IacError>)
        ensures
            shell_outcome(r) == self.converted(raw@),
    ;
}

/// An adapter that can be shared.
pub struct SharedTfAdapter {
    pub adapter: std::sync::Arc<dyn TfAdapter>,
}

/// Registry of Terraform adapters, keyed by resource type.
pub struct TfAdapterRegistry {
    pub index: AdapterIndex<SharedTfAdapter>,
}

impl TfAdapterRegistry {
    /// The adapter that is registered for a resource type.
    pub open spec fn registered(self, resource_type: Seq<char>) -> Option<SharedTfAdapter> {
        self.index.registered(resource_type)
    }

    /// A registry without adapters.
    pub fn new() -> (r: Self)
        ensures
            forall|t: Seq<char>| (#[trigger] r.registered(t)) is None,
            r.index.types() == Seq::<Seq<char>>::empty(),
    {
        TfAdapterRegistry { index: AdapterIndex::new() }
    }

    /// Registers an adapter for each resource type that it handles. None of
    /// them may be registered yet, nor may the adapter name one twice.
    pub fn register(&mut self, adapter: SharedTfAdapter)
        requires
            forall|i: int|
                0 <= i < adapter.adapter.types().len() ==> old(self).registered(
                    #[trigger] adapter.adapter.types()[i],
                ) is None,
            adapter.adapter.types().no_duplicates(),
        ensures
            forall|t: Seq<char>|
                (#[trigger] final(self).registered(t)) == if adapter.adapter.types().contains(t) {
                    Some(adapter)
                } else {
                    old(self).registered(t)
                },
    {
        let names = adapter.adapter.handles();
        let ghost before = self.index;
        self.index.register(adapter, &names);
        assert forall|t: Seq<char>| (#[trigger] self.registered(t)) == (
        if adapter.adapter.types().contains(t) {
            Some(adapter)
        } else {
            old(self).registered(t)
        }) by {
            assert(self.index.registered(t) == (if slice_texts(names@).contains(t) {
                Some(adapter)
            } else {
                before.registered(t)
            }));
        }
    }

    /// The adapter for a resource type.
    pub fn lookup(&self, resource_type: &str) -> (r: Option<&SharedTfAdapter>)
        ensures
            match r {
                Some(a) => self.registered(resource_type@) == Some(*a),
                None => self.registered(resource_type@) is None,
            },
    {
        self.index.lookup(resource_type)
    }

    /// The resource types that have an adapter, in order.
    pub fn registered_types(&self) -> (r: Vec<String>)
        ensures
            crate::text::texts(r@) == self.index.types(),
            forall|i: int, j: int|
                0 <= i < j < r@.len() ==> crate::text::text_lt(
                    #[trigger] self.index.types()[i],
                    #[trigger] self.index.types()[j],
                ),
            forall|t: Seq<char>| #[trigger]
                self.index.types().contains(t) <==> self.registered(t) is Some,
    {
        self.index.registered_types()
    }

    /// Converts a raw resource, or gives `None` if no adapter is registered
    /// for its type.
    pub fn convert(&self, raw: &RawTfResource) -> (r: Option<Result<ResourceShell, IacError>>)
        ensures
            match self.registered(raw.resource_type@) {
                Some(a) => r is Some && shell_outcome(r->Some_0) == a.adapter.converted(raw@),
                None => r is None,
            },
    {
        match self.lookup(raw.resource_type.as_str()) {
            Some(a) => Some(a.adapter.convert(raw)),
            None => None,
        }
    }
}

} // verus!
