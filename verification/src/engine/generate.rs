//! From the text of an input to a cost model.

use vstd::prelude::*;

use crate::arch::PerProvider;
use crate::cost::ArchitectureCost;
use crate::cost::ArchitectureCostView;
use crate::engine::architecture::build_architecture_from_input_with_policy;
use crate::engine::architecture::CfnInputs;
use crate::engine::architecture::InputText;
use crate::engine::error::EngineError;
use crate::engine::error::EngineErrorView;
use crate::engine::input::InputFormat;
use crate::engine::registry::build_pricing_resolver;
use crate::engine::registry::build_registries;
use crate::engine::registry::Registries;
use crate::policy::clone_diagnostics;
use crate::policy::DiagnosticView;
use crate::policy::ParseOutcome;
use crate::policy::ParsePolicy;
use crate::service::plugin::PluginHandle;

verus! {

/// What a cost model is asked for.
pub struct GenerateRequest<'a> {
    /// The format of the input.
    pub format: InputFormat,
    /// The path of the input.
    pub template_path: &'a str,
    /// The values for a template.
    pub cfn_inputs: CfnInputs,
    /// The name of the architecture.
    pub name: &'a str,
    /// The region whose prices apply by default.
    pub region: &'a str,
    /// The regions whose prices apply for a provider.
    pub provider_regions: &'a PerProvider<String>,
    /// Resources without a cost are errors.
    pub strict: bool,
    /// Prices leave out promotional free allowances.
    pub list_price: bool,
    /// How strictly unresolvable input is treated.
    pub policy: ParsePolicy,
}

/// What a cost model is, and what could not be resolved on the way to it.
pub open spec fn generated(
    plugins: Seq<PluginHandle>,
    registries: Registries,
    request: GenerateRequest,
    input: InputText,
) -> Result<(ArchitectureCostView, Seq<DiagnosticView>), EngineErrorView> {
    match crate::engine::architecture::input_architecture(
        input,
        request.template_path@,
        request.cfn_inputs,
        Some(request.name@),
        request.region@,
        registries,
        request.policy,
    ) {
        Err(e) => Err(e),
        Ok((arch, diagnostics)) => match crate::service::catalog::cost_model_of(
            registries.catalog,
            crate::engine::registry::pricing_for(
                plugins,
                arch.resources,
                request.region@,
                *request.provider_regions,
                request.list_price,
            ),
            arch,
            request.strict,
        ) {
            Err(e) => Err(EngineErrorView::CostModel(e)),
            Ok(cost) => Ok((ArchitectureCostView { diagnostics, ..cost }, diagnostics)),
        },
    }
}

/// The model of a cost model or an error.
pub open spec fn generate_outcome(
    r: Result<ParseOutcome<ArchitectureCost>, EngineError>,
) -> Result<(ArchitectureCostView, Seq<DiagnosticView>), EngineErrorView> {
    match r {
        Ok(o) => Ok((o.value@, crate::policy::diagnostic_views(o.diagnostics@))),
        Err(e) => Err(e@),
    }
}

/// The cost model of an input, with the given registries.
pub fn generate_with_registries(
    plugins: &[PluginHandle],
    registries: &Registries,
    request: &GenerateRequest,
    input: InputText,
) -> (r: Result<ParseOutcome<ArchitectureCost>, EngineError>)
    ensures
        generate_outcome(r) == generated(plugins@, *registries, *request, input),
        r is Ok ==> r->Ok_0.had_errors == (r->Ok_0.diagnostics@.len() > 0),
{
    let outcome = match build_architecture_from_input_with_policy(
        input,
        request.template_path,
        &request.cfn_inputs,
        Some(request.name),
        request.region,
        registries,
        request.policy,
    ) {
        Ok(o) => o,
        Err(e) => {
            return Err(e);
        },
    };
    let pricing = build_pricing_resolver(
        plugins,
        &outcome.value,
        request.region,
        request.provider_regions,
        request.list_price,
    );
    match registries.catalog.build_cost_model(&outcome.value, &pricing, request.strict) {
        Err(e) => Err(EngineError::CostModel(e)),
        Ok(cost) => {
            let mut cost = cost;
            cost.diagnostics = clone_diagnostics(&outcome.diagnostics);
            Ok(
                ParseOutcome {
                    value: cost,
                    diagnostics: outcome.diagnostics,
                    had_errors: outcome.had_errors,
                },
            )
        },
    }
}

/// The cost model of an input: its architecture, priced with what the plugins
/// bring. What could not be resolved on the way stands in the cost model too.
pub fn generate_cost_model(
    plugins: &[PluginHandle],
    request: &GenerateRequest,
    input: InputText,
) -> (r: Result<ParseOutcome<ArchitectureCost>, EngineError>)
    requires
        crate::engine::registry::compatible(plugins@),
    ensures
        exists|registries: Registries| #[trigger]
            crate::engine::registry::reached(plugins@, plugins@.len() as int, registries)
                && generate_outcome(r) == generated(plugins@, registries, *request, input),
        r is Ok ==> r->Ok_0.had_errors == (r->Ok_0.diagnostics@.len() > 0),
{
    let registries = build_registries(plugins);
    generate_with_registries(plugins, &registries, request, input)
}

// ---------------------------------------------------------------------------
// Laws
// ---------------------------------------------------------------------------

/// A cost model carries the diagnostics of its input.
pub proof fn law_cost_model_carries_diagnostics(
    plugins: Seq<PluginHandle>,
    registries: Registries,
    request: GenerateRequest,
    input: InputText,
)
    ensures
        generated(plugins, registries, request, input) matches Ok(g) ==> g.0.diagnostics == g.1,
{
}

} // verus!
