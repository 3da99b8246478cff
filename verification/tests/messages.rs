//! The messages of errors.

use yevice::arch::Provider;
use yevice::cfn::error::CfnError;
use yevice::engine::error::EngineError;
use yevice::iac::IacError;
use yevice::pricing::catalog::Sku;
use yevice::pricing::error::PricingError;
use yevice::service::error::CostError;
use yevice::tf::error::TfError;
use yevice::tf::error::UnresolvedSymbolKind;
use yevice::wrangler::error::WranglerError;

fn s(text: &str) -> String {
    text.to_string()
}

#[test]
fn template_errors() {
    let cases = vec![
        (
            CfnError::ParseError(s("x")),
            "failed to parse CloudFormation template: x",
        ),
        (
            CfnError::IntrinsicError(s("x")),
            "failed to resolve intrinsic function: x",
        ),
        (CfnError::ParameterNotFound(s("P")), "parameter not found: P"),
        (
            CfnError::ImportValueNotFound(s("I")),
            "import value not found: I",
        ),
        (
            CfnError::MappingNotFound {
                map_name: s("M"),
                first_key: s("a"),
                second_key: s("b"),
            },
            "mapping not found: M.a.b",
        ),
        (CfnError::ConditionNotFound(s("C")), "condition not found: C"),
        (
            CfnError::MissingParameters(s("A, B")),
            "Parameters: [A, B] must have values",
        ),
        (
            CfnError::UnsupportedResourceType(s("T")),
            "unsupported resource type: T",
        ),
        (
            CfnError::MissingProperty {
                resource_type: s("T"),
                property: s("P"),
            },
            "missing required property P for T",
        ),
        (CfnError::Io(s("x")), "IO error"),
        (CfnError::Yaml(s("x")), "YAML parse error"),
    ];
    for (e, m) in cases {
        assert_eq!(e.message(), m);
    }
}

#[test]
fn configuration_errors() {
    let cases = vec![
        (
            TfError::ParseError(s("x")),
            "failed to parse Terraform config: x",
        ),
        (TfError::Io(s("x")), "IO error"),
        (
            TfError::MissingAttribute {
                resource: s("r"),
                attr: s("a"),
            },
            "missing required attribute a for resource r",
        ),
        (
            TfError::UnresolvedSymbol {
                kind: UnresolvedSymbolKind::Variable,
                name: s("v"),
                location: None,
            },
            "unresolved reference: var.v",
        ),
        (
            TfError::UnresolvedSymbol {
                kind: UnresolvedSymbolKind::Local,
                name: s("l"),
                location: None,
            },
            "unresolved reference: local.l",
        ),
    ];
    for (e, m) in cases {
        assert_eq!(e.message(), m);
    }
    assert_eq!(
        WranglerError::ParseError(s("x")).message(),
        "failed to parse Wrangler config: x"
    );
    assert_eq!(WranglerError::Io(s("x")).message(), "IO error");
    assert_eq!(WranglerError::IoRead(s("x")).message(), "x");
}

#[test]
fn price_and_cost_errors() {
    let missing = || PricingError::NotFound {
        service: s("lambda"),
        region: s("us-east-1"),
    };
    assert_eq!(
        missing().message(),
        "pricing data not found for lambda in us-east-1"
    );
    assert_eq!(
        PricingError::FileNotFound(s("f")).message(),
        "pricing data file not found: f"
    );
    assert_eq!(
        PricingError::ParseError(s("x")).message(),
        "failed to parse pricing data: x"
    );
    assert_eq!(
        PricingError::CurrencyMismatch {
            expected: s("USD"),
            actual: s("EUR"),
            sku: Sku::new("k"),
        }
        .message(),
        "pricing currency mismatch for k: provider expects USD, file reported EUR"
    );
    assert_eq!(
        CostError::Pricing(missing()).message(),
        "pricing error: pricing data not found for lambda in us-east-1"
    );
    assert_eq!(
        CostError::SpecMismatch { service_id: s("a") }.message(),
        "spec type mismatch for service 'a'"
    );
    assert_eq!(
        CostError::NoPricingCatalog(Provider::Other).message(),
        "no pricing catalog for provider Other"
    );
    assert_eq!(
        IacError::InvalidValue {
            field: s("f"),
            cause: s("c"),
        }
        .message(),
        "invalid value for 'f': c"
    );
}

#[test]
fn engine_errors() {
    let path = || s("p");
    let cases = vec![
        (
            EngineError::ReadDir {
                path: path(),
                source: s("x"),
            },
            "failed to read directory: p",
        ),
        (
            EngineError::CfnParse(CfnError::Io(s("x"))),
            "failed to parse CloudFormation template",
        ),
        (
            EngineError::CfnResolve(CfnError::Io(s("x"))),
            "failed to resolve template",
        ),
        (
            EngineError::TfParse {
                path: path(),
                source: TfError::Io(s("x")),
            },
            "failed to parse Terraform config: p",
        ),
        (
            EngineError::TfVarsParse {
                path: path(),
                source: TfError::Io(s("x")),
            },
            "failed to parse Terraform variables: p",
        ),
        (
            EngineError::TfResolve(TfError::Io(s("x"))),
            "failed to resolve Terraform configuration",
        ),
        (
            EngineError::UnknownTfProvider { path: path() },
            "unable to detect a supported Terraform provider from p. Expected resources with aws_ or google_ prefixes.",
        ),
        (
            EngineError::TfConfigDir { path: path() },
            "failed to determine Terraform configuration directory for p",
        ),
        (
            EngineError::WranglerConfigNotFound { path: path() },
            "failed to locate wrangler.toml or wrangler.jsonc in p",
        ),
        (
            EngineError::WranglerParse {
                path: path(),
                source: WranglerError::Io(s("x")),
            },
            "failed to parse Wrangler config: p",
        ),
        (
            EngineError::CostModel(CostError::SpecMismatch { service_id: s("a") }),
            "failed to build cost model",
        ),
    ];
    for (e, m) in cases {
        assert_eq!(e.message(), m);
    }
}
