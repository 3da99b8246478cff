//! Intrinsic functions.

use yevice::cfn::error::CfnError;
use yevice::cfn::intrinsic::normalize_intrinsic_name;
use yevice::cfn::intrinsic::resolve;
use yevice::cfn::intrinsic::resolve_find_in_map;
use yevice::cfn::intrinsic::resolve_get_att;
use yevice::cfn::intrinsic::resolve_if;
use yevice::cfn::intrinsic::resolve_import_value;
use yevice::cfn::intrinsic::resolve_join;
use yevice::cfn::intrinsic::resolve_ref;
use yevice::cfn::intrinsic::resolve_select;
use yevice::cfn::intrinsic::resolve_split;
use yevice::cfn::intrinsic::resolve_sub;
use yevice::cfn::intrinsic::ResolveContext;
use yevice::cfn::intrinsic::MAX_INTRINSIC_DEPTH;
use yevice::cfn::resolved::ResolvedValue;
use yevice::cfn::resolved::StringPart;
use yevice::strmap::StrMap;
use yevice::yaml::Number;
use yevice::yaml::Yaml;

fn tagged(tag: &str, value: Yaml) -> Yaml {
    Yaml::Tagged(tag.to_string(), Box::new(value))
}

fn concrete_str(s: &str) -> ResolvedValue {
    ResolvedValue::Concrete(Yaml::String(s.into()))
}

fn make_ctx() -> ResolveContext {
    let mut params = StrMap::new();
    params.insert("Env".to_string(), "prod".to_string());
    params.insert("InstanceType".to_string(), "t3.micro".to_string());

    let mut imports = StrMap::new();
    imports.insert("SharedVpcId".to_string(), "vpc-12345".to_string());

    let mut ctx = ResolveContext::new(params, imports);

    let mut region_map = StrMap::new();
    let mut tokyo = StrMap::new();
    tokyo.insert("AMI".to_string(), "ami-12345".to_string());
    region_map.insert("ap-northeast-1".to_string(), tokyo);
    ctx.mappings.insert("RegionMap".to_string(), region_map);

    ctx.conditions.insert("IsProd".to_string(), true);

    ctx
}

#[test]
fn test_resolve_ref_parameter() {
    let ctx = make_ctx();
    let val = Yaml::String("Env".into());
    let result = resolve_ref(&val, &ctx).unwrap();
    assert_eq!(result, concrete_str("prod"));
}

#[test]
fn test_resolve_ref_resource_becomes_typed_ref() {
    let ctx = make_ctx();
    let val = Yaml::String("MyQueue".into());
    let result = resolve_ref(&val, &ctx).unwrap();
    assert_eq!(result, ResolvedValue::Ref("MyQueue".into()));
}

#[test]
fn test_resolve_sub() {
    let ctx = make_ctx();
    let val = Yaml::String("arn:aws:s3:::${Env}-bucket".into());
    let result = resolve_sub(&val, &ctx, 0).unwrap();
    assert_eq!(result, concrete_str("arn:aws:s3:::prod-bucket"));
}

#[test]
fn test_resolve_find_in_map() {
    let ctx = make_ctx();
    let val = Yaml::Sequence(vec![
        Yaml::String("RegionMap".into()),
        Yaml::String("ap-northeast-1".into()),
        Yaml::String("AMI".into()),
    ]);
    let result = resolve_find_in_map(&val, &ctx, 0).unwrap();
    assert_eq!(result, concrete_str("ami-12345"));
}

#[test]
fn test_resolve_if_true() {
    let ctx = make_ctx();
    let val = Yaml::Sequence(vec![
        Yaml::String("IsProd".into()),
        Yaml::String("prod-value".into()),
        Yaml::String("dev-value".into()),
    ]);
    let result = resolve_if(&val, &ctx, 0).unwrap();
    assert_eq!(result, concrete_str("prod-value"));
}

#[test]
fn test_resolve_import_value() {
    let ctx = make_ctx();
    let val = Yaml::String("SharedVpcId".into());
    let result = resolve_import_value(&val, &ctx, 0).unwrap();
    assert_eq!(result, concrete_str("vpc-12345"));
}

/// A dot-notation GetAtt must produce a typed GetAtt.
#[test]
fn test_getatt_dot_notation_produces_typed_getatt() {
    let val = Yaml::String("MyBucket.Arn".into());
    let result = resolve_get_att(&val).unwrap();
    assert_eq!(
        result,
        ResolvedValue::GetAtt {
            logical_id: "MyBucket".into(),
            attr: "Arn".into()
        },
        "dot-notation GetAtt must produce a typed GetAtt"
    );
}

/// A string with no dot must NOT produce a reference — it must be passed
/// through as-is (unresolved).
#[test]
fn test_getatt_no_dot_passes_through() {
    let val = Yaml::String("MyBucketNoAttr".into());
    let result = resolve_get_att(&val).unwrap();
    // Must return the original value unchanged (no reference generated).
    assert_eq!(
        result,
        concrete_str("MyBucketNoAttr"),
        "GetAtt without dot must be a pass-through, not a reference"
    );
}

/// A sequence with exactly 2 elements must produce the typed GetAtt.
#[test]
fn test_getatt_sequence_two_elements_produces_typed_getatt() {
    let val = Yaml::Sequence(vec![
        Yaml::String("MyQueue".into()),
        Yaml::String("Arn".into()),
    ]);
    let result = resolve_get_att(&val).unwrap();
    assert_eq!(
        result,
        ResolvedValue::GetAtt {
            logical_id: "MyQueue".into(),
            attr: "Arn".into()
        }
    );
}

/// A sequence with 3+ elements must join the extra parts with "." as the attr.
#[test]
fn test_getatt_sequence_three_elements_joins_attr() {
    let val = Yaml::Sequence(vec![
        Yaml::String("MyResource".into()),
        Yaml::String("SomeNested".into()),
        Yaml::String("Attr".into()),
    ]);
    let result = resolve_get_att(&val).unwrap();
    assert_eq!(
        result,
        ResolvedValue::GetAtt {
            logical_id: "MyResource".into(),
            attr: "SomeNested.Attr".into()
        },
        "3-element sequence must join tail with '.'"
    );
}

/// `!Sub '${Fn.Arn}'` (bare resource.attr) must produce a typed GetAtt,
/// not the literal `${HandlerFunction.Arn}`.
#[test]
fn test_sub_resource_attr_becomes_typed_getatt() {
    let ctx = make_ctx();
    let val = Yaml::String("${HandlerFunction.Arn}".into());
    let result = resolve_sub(&val, &ctx, 0).unwrap();
    assert_eq!(
        result,
        ResolvedValue::GetAtt {
            logical_id: "HandlerFunction".into(),
            attr: "Arn".into()
        },
        "!Sub '${{Resource.Attr}}' must produce a typed GetAtt"
    );
}

/// `!Sub '${MyQueue}'` (bare resource ref, not in parameters) must produce
/// a typed Ref, not the literal `${MyQueue}`.
#[test]
fn test_sub_resource_ref_becomes_typed_ref() {
    let ctx = make_ctx();
    // "MyQueue" is not a parameter in make_ctx(), so it must become a Ref.
    let val = Yaml::String("${MyQueue}".into());
    let result = resolve_sub(&val, &ctx, 0).unwrap();
    assert_eq!(
        result,
        ResolvedValue::Ref("MyQueue".into()),
        "!Sub '${{Resource}}' must produce a typed Ref"
    );
}

/// `!Sub '${AWS::Region}'` must remain verbatim — pseudo-parameters are
/// never turned into references.
#[test]
fn test_sub_pseudo_parameter_stays_verbatim() {
    let ctx = make_ctx();
    let val = Yaml::String("${AWS::Region}".into());
    let result = resolve_sub(&val, &ctx, 0).unwrap();
    assert_eq!(
        result,
        concrete_str("${AWS::Region}"),
        "!Sub '${{AWS::Region}}' must remain verbatim (no reference)"
    );
}

/// An embedded `!Sub` such as `'arn:...:${MyQueue}/p'` keeps the reference
/// inside an Interpolated value together with the literal text.
#[test]
fn test_sub_embedded_resource_ref_is_interpolated() {
    let ctx = make_ctx();
    let val = Yaml::String("arn:aws:sqs:us-east-1:123456789012:${MyQueue}/suffix".into());
    let result = resolve_sub(&val, &ctx, 0).unwrap();
    assert_eq!(
        result,
        ResolvedValue::Interpolated(vec![
            StringPart::Literal("arn:aws:sqs:us-east-1:123456789012:".into()),
            StringPart::Ref("MyQueue".into()),
            StringPart::Literal("/suffix".into()),
        ]),
        "embedded ref must be kept as an Interpolated part"
    );
}

/// `!Sub` with multiple resource references must keep ALL of them as parts.
#[test]
fn test_sub_multiple_references_all_kept() {
    let ctx = make_ctx();
    let val = Yaml::String("${Fn1.Arn}:${Fn2.Arn}".into());
    let result = resolve_sub(&val, &ctx, 0).unwrap();
    match &result {
        ResolvedValue::Interpolated(parts) => {
            let refs: Vec<_> = parts
                .iter()
                .filter(|p| !matches!(p, StringPart::Literal(_)))
                .collect();
            assert_eq!(refs.len(), 2, "both references must be kept: {parts:?}");
        }
        other => panic!("expected Interpolated, got {other:?}"),
    }
    let refs = result.references();
    assert_eq!(refs[0].logical_id, "Fn1");
    assert_eq!(refs[1].logical_id, "Fn2");
}

/// `${!NotAVar}` must resolve to the literal `${NotAVar}` (no reference).
#[test]
fn test_sub_bang_escape_produces_literal() {
    let ctx = make_ctx();
    let val = Yaml::String("foo-${!NotAVar}-bar".into());
    let result = resolve_sub(&val, &ctx, 0).unwrap();
    assert_eq!(
        result,
        concrete_str("foo-${NotAVar}-bar"),
        "!Sub '${{!Literal}}' must produce literal '${{Literal}}', not a reference"
    );
}

/// The escape must NOT produce any reference.
#[test]
fn test_sub_bang_escape_does_not_create_reference() {
    let ctx = make_ctx();
    let val = Yaml::String("${!SomeVar}".into());
    let result = resolve_sub(&val, &ctx, 0).unwrap();
    assert!(
        result.references().is_empty(),
        "escaped variable must not produce a reference: {result:?}"
    );
    assert_eq!(result, concrete_str("${SomeVar}"));
}

/// Normal `${Resource}` refs alongside `${!Escaped}` must both work correctly.
#[test]
fn test_sub_bang_escape_mixed_with_resource_ref() {
    let ctx = make_ctx();
    // MyQueue is not a parameter in make_ctx(), so it becomes a Ref part.
    let val = Yaml::String("${MyQueue}-${!NotAVar}".into());
    let result = resolve_sub(&val, &ctx, 0).unwrap();
    assert_eq!(
        result,
        ResolvedValue::Interpolated(vec![
            StringPart::Ref("MyQueue".into()),
            StringPart::Literal("-${NotAVar}".into()),
        ]),
        "resource ref must stay typed while escaped var stays literal"
    );
}

/// `!Join` with a Bool element must include it in the result string.
#[test]
fn test_join_includes_bool_elements() {
    let ctx = make_ctx();
    // Join [":", [true, "suffix"]]  →  "true:suffix"
    let val = Yaml::Sequence(vec![
        Yaml::String(":".into()),
        Yaml::Sequence(vec![
            Yaml::Bool(true),
            Yaml::String("suffix".into()),
            Yaml::Bool(false),
        ]),
    ]);
    let result = resolve_join(&val, &ctx, 0).unwrap();
    assert_eq!(
        result,
        concrete_str("true:suffix:false"),
        "Bool elements must be included in !Join result"
    );
}

/// `!Join` with only a Bool element must not produce an empty string.
#[test]
fn test_join_bool_only_element() {
    let ctx = make_ctx();
    let val = Yaml::Sequence(vec![
        Yaml::String(String::new()),
        Yaml::Sequence(vec![Yaml::Bool(false)]),
    ]);
    let result = resolve_join(&val, &ctx, 0).unwrap();
    assert_eq!(
        result,
        concrete_str("false"),
        "single Bool element must not be silently dropped"
    );
}

/// `!Join` over resource references must keep every reference as a typed
/// part — joining two refs must NOT collapse into an ambiguous string.
#[test]
fn test_join_keeps_all_references() {
    let ctx = make_ctx();
    // Join [":", [{"Ref": A}, {"Ref": B}]] (long form)
    let long_ref = |id: &str| {
        let mut m = Vec::new();
        m.push((Yaml::String("Ref".into()), Yaml::String(id.into())));
        Yaml::Mapping(m)
    };
    let val = Yaml::Sequence(vec![
        Yaml::String(":".into()),
        Yaml::Sequence(vec![long_ref("ResourceA"), long_ref("ResourceB")]),
    ]);
    let result = resolve_join(&val, &ctx, 0).unwrap();
    let refs = result.references();
    assert_eq!(refs.len(), 2, "both join refs must survive: {result:?}");
    assert_eq!(refs[0].logical_id, "ResourceA");
    assert_eq!(refs[1].logical_id, "ResourceB");
}

/// 2-arg `!Sub` where a local var resolves to a non-string (e.g. Number)
/// must substitute the key with empty string, NOT produce a reference.
#[test]
fn test_sub_two_arg_non_string_local_var_becomes_empty_not_reference() {
    let ctx = make_ctx();
    let val = Yaml::Sequence(vec![
        Yaml::String("prefix-${NumVar}-suffix".into()),
        Yaml::Mapping({
            let mut m = Vec::new();
            m.push((Yaml::String("NumVar".into()),
                Yaml::Number(Number::PosInt(42))));
            m
        }),
    ]);
    let result = resolve_sub(&val, &ctx, 0).unwrap();
    assert!(
        result.references().is_empty(),
        "non-string local var must not produce a reference: {result:?}"
    );
    assert_eq!(
        result,
        concrete_str("prefix--suffix"),
        "non-string local var must become empty"
    );
}

/// 2-arg `!Sub` where a local var resolves to a string must still work normally.
#[test]
fn test_sub_two_arg_string_local_var_substituted_correctly() {
    let ctx = make_ctx();
    let val = Yaml::Sequence(vec![
        Yaml::String("hello-${Name}".into()),
        Yaml::Mapping({
            let mut m = Vec::new();
            m.push((Yaml::String("Name".into()), Yaml::String("world".into())));
            m
        }),
    ]);
    let result = resolve_sub(&val, &ctx, 0).unwrap();
    assert_eq!(result, concrete_str("hello-world"));
}

/// 2-arg `!Sub` where a local var resolves to a resource reference must
/// keep the reference typed.
#[test]
fn test_sub_two_arg_ref_local_var_stays_typed() {
    let ctx = make_ctx();
    let val = Yaml::Sequence(vec![
        Yaml::String("arn:${V}/x".into()),
        Yaml::Mapping({
            let mut m = Vec::new();
            m.push((Yaml::String("V".into()), {
                let mut r = Vec::new();
                r.push((Yaml::String("Ref".into()), Yaml::String("MyQueue".into())));
                Yaml::Mapping(r)
            }));
            m
        }),
    ]);
    let result = resolve_sub(&val, &ctx, 0).unwrap();
    assert_eq!(
        result,
        ResolvedValue::Interpolated(vec![
            StringPart::Literal("arn:".into()),
            StringPart::Ref("MyQueue".into()),
            StringPart::Literal("/x".into()),
        ])
    );
}

/// `!Select` with a non-numeric string index must return an error
/// containing the offending value, not silently use index 0.
#[test]
fn test_select_non_numeric_string_index_errors() {
    let ctx = make_ctx();
    // Index "abc" is not a valid usize.
    let val = Yaml::Sequence(vec![
        Yaml::String("abc".into()),
        Yaml::Sequence(vec![
            Yaml::String("first".into()),
            Yaml::String("second".into()),
        ]),
    ]);
    let result = resolve_select(&val, &ctx, 0);
    assert!(
        result.is_err(),
        "expected Err for non-numeric string index, got Ok"
    );
    let err_msg = result.unwrap_err().message();
    assert!(
        err_msg.contains("abc"),
        "error message must contain the offending value 'abc': {err_msg}"
    );
}

/// `!Select` with a numeric string index must still resolve correctly.
#[test]
fn test_select_numeric_string_index_succeeds() {
    let ctx = make_ctx();
    let val = Yaml::Sequence(vec![
        Yaml::String("1".into()),
        Yaml::Sequence(vec![
            Yaml::String("first".into()),
            Yaml::String("second".into()),
        ]),
    ]);
    let result = resolve_select(&val, &ctx, 0).unwrap();
    assert_eq!(result, concrete_str("second"));
}

/// `!Select` with a valid Number index must still resolve correctly.
#[test]
fn test_select_number_index_succeeds() {
    let ctx = make_ctx();
    let val = Yaml::Sequence(vec![
        Yaml::Number(Number::PosInt(0)),
        Yaml::Sequence(vec![
            Yaml::String("first".into()),
            Yaml::String("second".into()),
        ]),
    ]);
    let result = resolve_select(&val, &ctx, 0).unwrap();
    assert_eq!(result, concrete_str("first"));
}

/// Build a deeply nested `!Join` value that exceeds MAX_INTRINSIC_DEPTH.
///
/// The structure is:
///   Join(["-", [Join(["-", [Join(["-", [...]])]])]])
/// repeated MAX_INTRINSIC_DEPTH + 2 times so the recursion definitely
/// exceeds the limit.
fn build_deep_join(depth: usize) -> Yaml {
    if depth == 0 {
        return Yaml::String("leaf".into());
    }
    // Fn::Join long-form mapping so it goes through resolve_inner dispatch
    let mut inner_map = Vec::new();
    inner_map.push((Yaml::String("Fn::Join".into()),
        Yaml::Sequence(vec![
            Yaml::String("-".into()),
            Yaml::Sequence(vec![build_deep_join(depth - 1)]),
        ])));
    Yaml::Mapping(inner_map)
}

/// Resolving a value nested beyond MAX_INTRINSIC_DEPTH must return
/// `CfnError::IntrinsicError` (depth exceeded), not panic.
#[test]
fn test_depth_guard_exceeds_limit_returns_error() {
    let ctx = make_ctx();
    // Build MAX_INTRINSIC_DEPTH + 2 levels of nesting to guarantee we exceed 128.
    let deep = build_deep_join(MAX_INTRINSIC_DEPTH + 2);
    let result = resolve(&deep, &ctx);
    assert!(
        result.is_err(),
        "expected Err for depth > MAX_INTRINSIC_DEPTH, got Ok"
    );
    let err = result.unwrap_err();
    match err {
        CfnError::IntrinsicError(msg) => {
            assert!(
                msg.contains("maximum depth"),
                "error message should mention 'maximum depth', got: {msg}"
            );
        }
        other => panic!("expected CfnError::IntrinsicError, got: {other:?}"),
    }
}

/// A shallow nesting (well within MAX_INTRINSIC_DEPTH) must resolve normally.
#[test]
fn test_depth_guard_shallow_nesting_succeeds() {
    let ctx = make_ctx();
    // 3 levels of nesting: trivially within limit.
    let shallow = build_deep_join(3);
    let result = resolve(&shallow, &ctx);
    assert!(
        result.is_ok(),
        "expected Ok for shallow nesting, got: {result:?}"
    );
    // The leaf value "leaf" joined with "-" at each level is just "leaf"
    // (only one element per list), so the final string is "leaf".
    assert_eq!(result.unwrap(), concrete_str("leaf"));
}

/// Exactly at MAX_INTRINSIC_DEPTH levels must still succeed (boundary case).
///
/// `build_deep_join(N)` adds 2 to the depth counter per layer (one for the
/// `Fn::Join` dispatch, one for the list element), so N=64 drives the
/// deepest `resolve_inner` to exactly depth 128 — the largest value that
/// still succeeds.
#[test]
fn test_depth_guard_at_limit_succeeds() {
    let ctx = make_ctx();
    let at_limit = build_deep_join(64);
    let result = resolve(&at_limit, &ctx);
    assert!(
        result.is_ok(),
        "expected Ok for nesting at MAX_INTRINSIC_DEPTH, got: {result:?}"
    );
}

/// One level past the limit (N=65 → depth 130 > 128) must error. Together
/// with `test_depth_guard_at_limit_succeeds` this pins the exact 64-ok /
/// 65-err boundary, catching an off-by-one in the `depth > MAX` guard.
#[test]
fn test_depth_guard_just_over_limit_errors() {
    let ctx = make_ctx();
    let just_over = build_deep_join(65);
    let result = resolve(&just_over, &ctx);
    assert!(
        result.is_err(),
        "expected Err one level past MAX_INTRINSIC_DEPTH, got: {result:?}"
    );
}

/// All tag-form and long-form variants of known intrinsics must return a
/// canonical name (not `None`).
#[test]
fn test_normalize_known_intrinsics_returns_some() {
    let known = [
        ("!Ref", "Ref"),
        ("Ref", "Ref"),
        ("!Sub", "Fn::Sub"),
        ("Fn::Sub", "Fn::Sub"),
        ("!FindInMap", "Fn::FindInMap"),
        ("Fn::FindInMap", "Fn::FindInMap"),
        ("!Select", "Fn::Select"),
        ("Fn::Select", "Fn::Select"),
        ("!If", "Fn::If"),
        ("Fn::If", "Fn::If"),
        ("!ImportValue", "Fn::ImportValue"),
        ("Fn::ImportValue", "Fn::ImportValue"),
        ("!Join", "Fn::Join"),
        ("Fn::Join", "Fn::Join"),
        ("!GetAtt", "Fn::GetAtt"),
        ("Fn::GetAtt", "Fn::GetAtt"),
        ("!Split", "Fn::Split"),
        ("Fn::Split", "Fn::Split"),
    ];
    for (input, expected) in known {
        assert_eq!(
            normalize_intrinsic_name(input),
            Some(expected),
            "normalize_intrinsic_name({input:?}) should be Some({expected:?})"
        );
    }
}

/// Unknown names must return `None`.
#[test]
fn test_normalize_unknown_intrinsic_returns_none() {
    let unknown = [
        "Fn::Base64",
        "Fn::Cidr",
        "Fn::Transform",
        "Fn::Length",
        "Fn::ToJsonString",
        "Fn::ForEach",
        "!Base64",
        "SomeRandomKey",
    ];
    for name in unknown {
        assert_eq!(
            normalize_intrinsic_name(name),
            None,
            "normalize_intrinsic_name({name:?}) should be None"
        );
    }
}

/// `Fn::Split` on a concrete string must produce a `Seq` of the parts.
#[test]
fn test_split_concrete_string() {
    let ctx = make_ctx();
    let val = Yaml::Sequence(vec![
        Yaml::String(",".into()),
        Yaml::String("a,b,c".into()),
    ]);
    let result = resolve_split(&val, &ctx, 0).unwrap();
    assert_eq!(
        result,
        ResolvedValue::Sequence(vec![
            concrete_str("a"),
            concrete_str("b"),
            concrete_str("c"),
        ]),
        "Fn::Split on a concrete string must produce a Seq of parts"
    );
}

/// `Fn::Split` long-form via `resolve` must also work.
#[test]
fn test_split_long_form_via_resolve() {
    let ctx = make_ctx();
    let mut m = Vec::new();
    m.push((Yaml::String("Fn::Split".into()),
        Yaml::Sequence(vec![Yaml::String(",".into()), Yaml::String("x,y".into())])));
    let result = resolve(&Yaml::Mapping(m), &ctx).unwrap();
    assert_eq!(
        result,
        ResolvedValue::Sequence(vec![concrete_str("x"), concrete_str("y")]),
    );
}

/// `!Split` tag-form via `resolve` must also work.
#[test]
fn test_split_tag_form_via_resolve() {
    let ctx = make_ctx();
    let tagged = tagged("!Split", Yaml::Sequence(vec![
            Yaml::String("|".into()),
            Yaml::String("one|two|three".into()),
        ]));
    let result = resolve(&tagged, &ctx).unwrap();
    assert_eq!(
        result,
        ResolvedValue::Sequence(vec![
            concrete_str("one"),
            concrete_str("two"),
            concrete_str("three"),
        ]),
    );
}

/// `!Select [1, !Split [",", "a,b,c"]]` must resolve to "b".
#[test]
fn test_select_with_split_nested() {
    let ctx = make_ctx();
    // Build: !Select [1, !Split [",", "a,b,c"]]
    let split_tagged = tagged("!Split", Yaml::Sequence(vec![
            Yaml::String(",".into()),
            Yaml::String("a,b,c".into()),
        ]));
    let select_tagged = tagged("!Select", Yaml::Sequence(vec![
            Yaml::Number(Number::PosInt(1)),
            split_tagged,
        ]));
    let result = resolve(&select_tagged, &ctx).unwrap();
    assert_eq!(
        result,
        concrete_str("b"),
        "!Select [1, !Split [\",\", \"a,b,c\"]] must yield \"b\""
    );
}

/// `!Select [0, !Split [",", !Sub "${Queue},x"]]` — when the Split source
/// is Interpolated the whole expression must pass through without error
/// (both Split and the parent Select degrade gracefully).
#[test]
fn test_select_with_unresolvable_split_passes_through() {
    let ctx = make_ctx();
    // !Sub "${MyQueue},x" → Interpolated (MyQueue is not a parameter)
    let sub_tagged = tagged("!Sub", Yaml::String("${MyQueue},x".into()));
    let split_tagged = tagged("!Split", Yaml::Sequence(vec![Yaml::String(",".into()), sub_tagged]));
    let select_tagged = tagged("!Select", Yaml::Sequence(vec![
            Yaml::Number(Number::PosInt(0)),
            split_tagged,
        ]));
    let result = resolve(&select_tagged, &ctx);
    assert!(
        result.is_ok(),
        "!Select over unresolvable !Split must not error, got: {result:?}"
    );
    // The pass-through must be the outer !Select expression, not the inner
    // !Split — callers must see the full expression including the index.
    match result.unwrap() {
        ResolvedValue::Concrete(Yaml::Tagged(tag, _)) => {
            assert_eq!(
                tag,
                "!Select",
                "pass-through must preserve the outer !Select tag, got {tag:?}");
        }
        other => panic!("expected Concrete(Tagged(!Select ...)), got {other:?}"),
    }
}

/// `!Split [",", !Base64 "a,b"]` — when the source is an unknown
/// pass-through intrinsic (Concrete(Tagged)), Split must not error.
#[test]
fn test_split_unknown_intrinsic_source_passes_through() {
    let ctx = make_ctx();
    let base64_tagged = tagged("!Base64", Yaml::String("a,b".into()));
    let val = Yaml::Sequence(vec![Yaml::String(",".into()), base64_tagged]);
    let result = resolve_split(&val, &ctx, 0);
    assert!(
        result.is_ok(),
        "Fn::Split with unknown intrinsic source must not error, got: {result:?}"
    );
    // Must be a Concrete(Tagged(!Split ...)) pass-through, not a Seq.
    match result.unwrap() {
        ResolvedValue::Concrete(Yaml::Tagged(tag, _)) => {
            assert_eq!(
                tag,
                "!Split",
                "pass-through must be tagged !Split, got {tag:?}");
        }
        other => panic!("expected Concrete(Tagged(!Split ...)), got {other:?}"),
    }
}

/// `Fn::Split` where source is an `Interpolated` value (unresolved ref)
/// must pass through as Concrete (not error) and emit a warning.
#[test]
fn test_split_interpolated_source_passes_through() {
    let ctx = make_ctx();
    // Build a source that resolves to an Interpolated value: !Sub "a,${MyQueue},c"
    let sub_val = tagged("!Sub", Yaml::String("a,${MyQueue},c".into()));
    // We call resolve_split directly with the pre-built argument sequence.
    // The second element is the !Sub expression.
    let val = Yaml::Sequence(vec![Yaml::String(",".into()), sub_val]);
    let result = resolve_split(&val, &ctx, 0);
    assert!(
        result.is_ok(),
        "Fn::Split on an Interpolated source must not error, got: {result:?}"
    );
    // Must be a pass-through (Concrete), not a Seq.
    assert!(
        !matches!(result.unwrap(), ResolvedValue::Sequence(_)),
        "Fn::Split on Interpolated source must not produce a Seq"
    );
}

/// An unknown `!Tag` must pass through as `Concrete` without returning an
/// error (silent degradation, but a warning is emitted at runtime).
#[test]
fn test_unknown_tag_passes_through() {
    let ctx = make_ctx();
    let tagged_val = tagged("!Base64", Yaml::String("hello".into()));
    let result = resolve(&tagged_val, &ctx);
    assert!(
        result.is_ok(),
        "unknown tag must not return an error, got: {result:?}"
    );
    // The returned value must be Concrete (pass-through), not a reference.
    assert!(
        result.unwrap().references().is_empty(),
        "unknown tag pass-through must carry no references"
    );
}

/// An unknown `Fn::*` single-key map must pass through as a resolved map
/// (the key and value are kept) without returning an error.
#[test]
fn test_unknown_fn_map_passes_through() {
    let ctx = make_ctx();
    let mut m = Vec::new();
    m.push((Yaml::String("Fn::Transform".into()),
        Yaml::String("some-macro".into())));
    let result = resolve(&Yaml::Mapping(m), &ctx);
    assert!(
        result.is_ok(),
        "unknown Fn::* map must not return an error, got: {result:?}"
    );
}


/// A value of the wrong kind is written out in the message.
#[test]
fn messages_write_out_values() {
    let ctx = make_ctx();
    let index = Yaml::Sequence(vec![
        Yaml::Mapping(vec![
            (Yaml::String("a".into()), Yaml::String("b\"c".into())),
            (Yaml::String("d".into()), Yaml::Null),
        ]),
        tagged("!Ref", Yaml::String("X".into())),
        tagged("!GetAtt", Yaml::String("X.Arn".into())),
        tagged("!Sub", Yaml::String("p-${X}-${X.Arn}".into())),
        Yaml::Number(Number::PosInt(7)),
    ]);
    let val = Yaml::Sequence(vec![index, Yaml::Sequence(vec![Yaml::Null])]);
    match resolve_select(&val, &ctx, 0) {
        Err(CfnError::IntrinsicError(m)) => assert_eq!(
            m,
            "!Select index must be a number, got Seq([\
             Map({\"a\": Concrete(String(\"b\\\"c\")), \"d\": Concrete(Null)}), \
             Ref(\"X\"), GetAtt { logical_id: \"X\", attr: \"Arn\" }, \
             Interpolated([Literal(\"p-\"), Ref(\"X\"), Literal(\"-\"), \
             GetAtt { logical_id: \"X\", attr: \"Arn\" }]), Concrete(Number(7))])"
        ),
        other => panic!("expected an intrinsic error, got {other:?}"),
    }
    let val = Yaml::Sequence(vec![Yaml::String(",".into()), Yaml::Sequence(vec![])]);
    match resolve_split(&val, &ctx, 0) {
        Err(CfnError::IntrinsicError(m)) => assert_eq!(
            m,
            "Fn::Split source (second element) must be a string, got Seq([])"
        ),
        other => panic!("expected an intrinsic error, got {other:?}"),
    }
}

/// Names without a value are kept, so that the text of the parts is the
/// template again.
#[test]
fn sub_keeps_names_without_a_value() {
    let ctx = make_ctx();
    let template = "a $ ${X}-${Y.Arn.Z}/${AWS::Partition}${X}";
    let value = resolve_sub(&Yaml::String(template.to_string()), &ctx, 0).unwrap();
    match value {
        ResolvedValue::Interpolated(parts) => {
            let text: String = parts
                .iter()
                .map(|p| match p {
                    StringPart::Literal(s) => s.clone(),
                    StringPart::Ref(id) => format!("${{{id}}}"),
                    StringPart::GetAtt { logical_id, attr } => format!("${{{logical_id}.{attr}}}"),
                })
                .collect();
            assert_eq!(text, template);
        }
        other => panic!("expected Interpolated, got {other:?}"),
    }
}

/// Joining undoes splitting, also at the empty separator.
#[test]
fn join_undoes_an_empty_split() {
    let ctx = make_ctx();
    let split = tagged(
        "!Split",
        Yaml::Sequence(vec![Yaml::String("".into()), Yaml::String("abc".into())]),
    );
    let join = Yaml::Sequence(vec![Yaml::String("".into()), split]);
    assert_eq!(resolve_join(&join, &ctx, 0).unwrap(), concrete_str("abc"));
}

/// A parameter without a value is not found; any other name is a resource.
#[test]
fn unbound_parameters_are_not_found() {
    let mut ctx = make_ctx();
    ctx.unbound.push("Size".to_string());
    assert_eq!(
        resolve_ref(&Yaml::String("Size".into()), &ctx).unwrap_err(),
        CfnError::ParameterNotFound("Size".to_string())
    );
    assert_eq!(
        resolve_sub(&Yaml::String("x-${Env}-${Size}".into()), &ctx, 0).unwrap_err(),
        CfnError::ParameterNotFound("Size".to_string())
    );
    assert_eq!(
        resolve_ref(&Yaml::String("Queue".into()), &ctx).unwrap(),
        ResolvedValue::Ref("Queue".to_string())
    );
}
