//! Variables, locals and the symbols that stay open.

use yevice::policy::ParsePolicy;
use yevice::strmap::vec_get;
use yevice::strmap::StrMap;
use yevice::tf::error::TfError;
use yevice::tf::error::UnresolvedSymbolKind;
use yevice::tf::parser::TfConfig;
use yevice::tf::parser::TfResource;
use yevice::tf::parser::TfValue;
use yevice::tf::parser::TfVariable;
use yevice::tf::resolver::resolve_config;
use yevice::tf::resolver::resolve_config_with_policy;
use yevice::tf::resolver::resolve_resource;

/// A variable declared with no default and supplied no tfvars value must
/// remain as `TfValue::VarRef` in the resource attrs after `resolve_config`.
/// This pins the behavior that adapters will see `None` for that attr and
/// fall back to their hardcoded defaults (and warn accordingly).
#[test]
fn defaultless_var_without_tfvars_stays_unresolved() {
    let mut variables = StrMap::new();
    variables.insert("instance_type".to_string(), TfVariable { default: None });

    let mut attrs = StrMap::new();
    attrs.insert(
        "instance_type".to_string(),
        TfValue::VarRef("instance_type".to_string()),
    );

    let config = TfConfig {
        variables,
        locals: StrMap::new(),
        resources: vec![TfResource {
            resource_type: "aws_instance".to_string(),
            name: "web".to_string(),
            attrs,
            blocks: StrMap::new(),
        }],
    };

    let resolved = resolve_config(config, None).unwrap();

    let resource = &resolved.resources[0];
    let val = resource
        .attrs
        .get("instance_type")
        .expect("instance_type attr must be present");
    assert!(
        matches!(val, TfValue::VarRef(_)),
        "defaultless var without tfvars must stay as VarRef; got {val:?}"
    );
}

/// A variable declared with no default but supplied via tfvars resolves to
/// the tfvars value (concrete string).
#[test]
fn defaultless_var_with_tfvars_resolves() {
    let mut variables = StrMap::new();
    variables.insert("instance_type".to_string(), TfVariable { default: None });

    let mut attrs = StrMap::new();
    attrs.insert(
        "instance_type".to_string(),
        TfValue::VarRef("instance_type".to_string()),
    );

    let config = TfConfig {
        variables,
        locals: StrMap::new(),
        resources: vec![TfResource {
            resource_type: "aws_instance".to_string(),
            name: "web".to_string(),
            attrs,
            blocks: StrMap::new(),
        }],
    };

    let mut tfvars = StrMap::new();
    tfvars.insert(
        "instance_type".to_string(),
        TfValue::String("m5.4xlarge".to_string()),
    );

    let resolved = resolve_config(config, Some(tfvars)).unwrap();

    let resource = &resolved.resources[0];
    let val = resource
        .attrs
        .get("instance_type")
        .expect("instance_type attr must be present");
    assert_eq!(
        val,
        &TfValue::String("m5.4xlarge".to_string()),
        "var supplied via tfvars must resolve to the concrete string; got {val:?}"
    );
}

fn config_with_var_without_default() -> TfConfig {
    let mut variables = StrMap::new();
    variables.insert("instance_type".to_string(), TfVariable { default: None });
    let mut attrs = StrMap::new();
    attrs.insert(
        "instance_type".to_string(),
        TfValue::VarRef("instance_type".to_string()),
    );
    TfConfig {
        variables,
        locals: StrMap::new(),
        resources: vec![TfResource {
            resource_type: "aws_instance".to_string(),
            name: "web".to_string(),
            attrs,
            blocks: StrMap::new(),
        }],
    }
}

/// Under Lenient an undefined `var.*` is collected as a diagnostic with
/// the stable `unresolved_var_ref` code and the resource attr stays as
/// `VarRef` (so adapters can fall back to defaults).
#[test]
fn lenient_collects_unresolved_var_as_diagnostic() {
    let cfg = config_with_var_without_default();
    let outcome = resolve_config_with_policy(cfg, None, ParsePolicy::Lenient)
        .expect("lenient must not hard-error on unresolved var");
    assert!(outcome.had_errors);
    assert!(
        outcome
            .diagnostics
            .iter()
            .any(|d| d.code == "unresolved_var_ref"),
        "diagnostics: {:?}",
        outcome.diagnostics
    );
    let resource = &outcome.value.resources[0];
    assert!(
        matches!(
            resource.attrs.get("instance_type"),
            Some(TfValue::VarRef(_))
        ),
        "unresolved VarRef must be preserved for adapter fallback"
    );
}

/// Under Strict the same template yields `TfError::UnresolvedSymbol`.
#[test]
fn strict_unresolved_var_returns_unresolved_symbol_error() {
    let cfg = config_with_var_without_default();
    let err = resolve_config_with_policy(cfg, None, ParsePolicy::Strict)
        .expect_err("strict must hard-error on unresolved var");
    match err {
        TfError::UnresolvedSymbol { kind, name, .. } => {
            assert_eq!(kind, UnresolvedSymbolKind::Variable);
            assert_eq!(name, "instance_type");
        }
        other => panic!("expected UnresolvedSymbol; got {other:?}"),
    }
}

/// `TfValue::ResourceRef` is policy-neutral: a cross-resource
/// reference must not be treated as an unresolved symbol under Strict.
#[test]
fn resource_ref_is_not_treated_as_unresolved_under_strict() {
    let mut attrs = StrMap::new();
    attrs.insert(
        "subnet_id".to_string(),
        TfValue::ResourceRef {
            resource_type: "aws_subnet".to_string(),
            name: "public".to_string(),
            attr: "id".to_string(),
        },
    );
    let cfg = TfConfig {
        variables: StrMap::new(),
        locals: StrMap::new(),
        resources: vec![TfResource {
            resource_type: "aws_instance".to_string(),
            name: "web".to_string(),
            attrs,
            blocks: StrMap::new(),
        }],
    };
    let outcome = resolve_config_with_policy(cfg, None, ParsePolicy::Strict)
        .expect("ResourceRef must not be flagged as unresolved under Strict");
    assert!(!outcome.had_errors);
    assert!(outcome.diagnostics.is_empty());
}

/// A required (defaultless, no-tfvars) variable that is **declared but
/// never referenced** by any resource must NOT trip Strict mode or
/// produce a diagnostic.
#[test]
fn declared_but_unused_defaultless_var_does_not_trip_strict() {
    let mut variables = StrMap::new();
    variables.insert("unused_input".to_string(), TfVariable { default: None });
    // Declared variable is never referenced by the resource.
    let cfg = TfConfig {
        variables,
        locals: StrMap::new(),
        resources: vec![TfResource {
            resource_type: "aws_s3_bucket".to_string(),
            name: "logs".to_string(),
            attrs: StrMap::new(),
            blocks: StrMap::new(),
        }],
    };
    // Strict must succeed because no resource consumes the unset var.
    let outcome = resolve_config_with_policy(cfg, None, ParsePolicy::Strict)
        .expect("unused defaultless var must not abort Strict");
    assert!(
        outcome.diagnostics.is_empty(),
        "no diagnostics expected for unused declared var; got {:?}",
        outcome.diagnostics
    );
    assert!(!outcome.had_errors);
}

/// A reference to a `var.*` symbol that was never declared (typo or
/// out-of-module ref) is reported as an unresolved diagnostic too.
#[test]
fn transitive_unresolved_var_is_reported() {
    let mut attrs = StrMap::new();
    attrs.insert(
        "instance_type".to_string(),
        TfValue::VarRef("undeclared_typo".to_string()),
    );
    let cfg = TfConfig {
        variables: StrMap::new(),
        locals: StrMap::new(),
        resources: vec![TfResource {
            resource_type: "aws_instance".to_string(),
            name: "web".to_string(),
            attrs,
            blocks: StrMap::new(),
        }],
    };
    let outcome = resolve_config_with_policy(cfg, None, ParsePolicy::Lenient)
        .expect("lenient must not hard-error");
    assert!(outcome.had_errors);
    assert!(
        outcome
            .diagnostics
            .iter()
            .any(|d| d.code == "unresolved_var_ref" && d.message.contains("undeclared_typo")),
        "diagnostics: {:?}",
        outcome.diagnostics
    );
}

/// A `var.*` that resolves to an Object (map of scalars) must be stored in
/// the resource attr after `resolve_resource`, not left as a `VarRef`.
#[test]
fn var_resolving_to_object_is_stored() {
    let env_vars_obj = TfValue::Object(vec![(
        "KEY".to_string(),
        TfValue::String("value".to_string()),
    )]);

    let mut vars = StrMap::new();
    vars.insert("env_vars".to_string(), env_vars_obj);

    let mut attrs = StrMap::new();
    attrs.insert(
        "variables".to_string(),
        TfValue::VarRef("env_vars".to_string()),
    );

    let mut resource = TfResource {
        resource_type: "aws_lambda_function".to_string(),
        name: "fn".to_string(),
        attrs,
        blocks: StrMap::new(),
    };

    resolve_resource(&mut resource, &vars, &StrMap::new());

    let resolved = resource
        .attrs
        .get("variables")
        .expect("attr must be present");
    assert!(
        matches!(resolved, TfValue::Object(_)),
        "expected Object after resolving var.env_vars; got {resolved:?}",
    );
    // Verify the scalar inside the object is intact.
    if let TfValue::Object(map) = resolved {
        assert_eq!(
            vec_get(map, "KEY"),
            Some(&TfValue::String("value".to_string())),
        );
    }
}

/// Same check for a block attr: a `var.*` → Object must be stored in
/// the block attrs map (not stay as VarRef).
#[test]
fn var_resolving_to_object_is_stored_in_block() {
    let env_vars_obj = TfValue::Object(vec![(
        "FOO".to_string(),
        TfValue::String("bar".to_string()),
    )]);

    let mut vars = StrMap::new();
    vars.insert("env_map".to_string(), env_vars_obj);

    let mut block_attrs = StrMap::new();
    block_attrs.insert(
        "variables".to_string(),
        TfValue::VarRef("env_map".to_string()),
    );

    let mut resource = TfResource {
        resource_type: "aws_lambda_function".to_string(),
        name: "fn2".to_string(),
        attrs: StrMap::new(),
        blocks: {
            let mut b = StrMap::new();
            b.insert("environment".to_string(), vec![block_attrs]);
            b
        },
    };

    resolve_resource(&mut resource, &vars, &StrMap::new());

    let block_list = resource
        .blocks
        .get("environment")
        .expect("block must be present");
    let resolved = block_list[0]
        .get("variables")
        .expect("variables attr must be present");
    assert!(
        matches!(resolved, TfValue::Object(_)),
        "expected Object in block attr after resolving var.env_map; got {resolved:?}",
    );
}
