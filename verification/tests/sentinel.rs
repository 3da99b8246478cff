//! References as placeholder text.

use yevice::cfn::sentinel::find_embedded;
use yevice::cfn::sentinel::is_sentinel_concatenation;
use yevice::cfn::sentinel::make_getatt;
use yevice::cfn::sentinel::make_ref;
use yevice::cfn::sentinel::parse;
use yevice::cfn::sentinel::parse_or_find_embedded;

#[test]
fn make_ref_produces_correct_sentinel() {
    assert_eq!(make_ref("MyQueue"), "{{ref:MyQueue}}");
    assert_eq!(make_ref("SomeTable"), "{{ref:SomeTable}}");
}

#[test]
fn make_getatt_produces_correct_sentinel() {
    assert_eq!(make_getatt("MyQueue", "Arn"), "{{getatt:MyQueue.Arn}}");
    assert_eq!(
        make_getatt("MyBucket", "WebsiteURL"),
        "{{getatt:MyBucket.WebsiteURL}}"
    );
}

#[test]
fn parse_ref_round_trip() {
    let sentinel = make_ref("MyQueue");
    let result = parse(&sentinel).expect("should parse");
    assert_eq!(result.logical_id, "MyQueue");
    assert_eq!(result.attr, None);
}

#[test]
fn parse_getatt_round_trip() {
    let sentinel = make_getatt("MyQueue", "Arn");
    let result = parse(&sentinel).expect("should parse");
    assert_eq!(result.logical_id, "MyQueue");
    assert_eq!(result.attr, Some("Arn".to_string()));
}

#[test]
fn parse_getatt_deep_attr_splits_on_first_dot() {
    // "{{getatt:X.Y.Z}}" → logical_id="X", attr="Y.Z"
    let sentinel = "{{getatt:MyResource.SomeNested.Attr}}";
    let result = parse(sentinel).expect("should parse");
    assert_eq!(result.logical_id, "MyResource");
    assert_eq!(result.attr, Some("SomeNested.Attr".to_string()));
}

#[test]
fn parse_arn_returns_none() {
    assert!(parse("arn:aws:sqs:us-east-1:123456789012:MyQueue").is_none());
}

#[test]
fn parse_literal_returns_none() {
    assert!(parse("some-literal-value").is_none());
    assert!(parse("").is_none());
}

#[test]
fn parse_partial_sentinel_returns_none() {
    // Missing suffix
    assert!(parse("{{ref:MyQueue").is_none());
    // Missing prefix
    assert!(parse("MyQueue}}").is_none());
    // getatt without dot — no logical_id/attr split possible
    assert!(parse("{{getatt:MyQueueNoAttr}}").is_none());
}

#[test]
fn parse_concatenated_sentinels_returns_none() {
    // "{{ref:A}}{{ref:B}}" must NOT parse as ResourceRef("A}}{{ref:B").
    assert!(parse("{{ref:Prefix}}{{ref:Suffix}}").is_none());
    // Same for getatt.
    assert!(parse("{{getatt:A.Attr}}{{ref:B}}").is_none());
}

// -------------------------------------------------------------------------
// find_embedded
// -------------------------------------------------------------------------

#[test]
fn find_embedded_bare_sentinel_still_works() {
    // A string that IS a whole sentinel should also be found by find_embedded.
    let s = "{{ref:MyQueue}}";
    let result = find_embedded(s).expect("should find embedded sentinel");
    assert_eq!(result.logical_id, "MyQueue");
    assert_eq!(result.attr, None);
}

#[test]
fn find_embedded_ref_in_arn_sub() {
    // Simulates Fn::Sub ARN resolve with embedded ref sentinel.
    let s = "arn:aws:lambda:us-east-1:123456789012:function:{{ref:HandlerFunction}}";
    let result = find_embedded(s).expect("should find embedded ref");
    assert_eq!(result.logical_id, "HandlerFunction");
    assert_eq!(result.attr, None);
}

#[test]
fn find_embedded_getatt_in_arn_sub() {
    // Simulates Fn::Sub ARN resolve with embedded getatt sentinel.
    let s = "arn:aws:lambda:us-east-1:123456789012:function:{{getatt:MyFunction.Arn}}";
    let result = find_embedded(s).expect("should find embedded getatt");
    assert_eq!(result.logical_id, "MyFunction");
    assert_eq!(result.attr, Some("Arn".to_string()));
}

#[test]
fn find_embedded_prefers_earliest_sentinel() {
    // Two sentinels embedded — only the first one is returned.
    let s = "prefix-{{ref:FirstResource}}-middle-{{ref:SecondResource}}-suffix";
    let result = find_embedded(s).expect("should find first embedded sentinel");
    assert_eq!(result.logical_id, "FirstResource");
}

#[test]
fn find_embedded_no_sentinel_returns_none() {
    assert!(find_embedded("arn:aws:sqs:us-east-1:123456789012:MyQueue").is_none());
    assert!(find_embedded("some-literal-string").is_none());
    assert!(find_embedded("").is_none());
}

#[test]
fn find_embedded_pseudo_param_suffix_not_confused_with_sentinel() {
    // ${AWS::Region} is NOT encoded as a sentinel — it stays verbatim.
    // Confirm that a string with only pseudo-param placeholders yields None.
    let s = "arn:aws:lambda:${AWS::Region}:${AWS::AccountId}:function:MyFunction";
    assert!(find_embedded(s).is_none());
}

#[test]
fn find_embedded_pseudo_params_plus_sentinel_extracts_sentinel() {
    // Common pattern after Fn::Sub resolution: pseudo-params stay verbatim,
    // resource references become sentinels.
    let s = "arn:aws:lambda:${AWS::Region}:${AWS::AccountId}:function:{{ref:HandlerFunction}}";
    let result = find_embedded(s).expect("should find sentinel amid pseudo-params");
    assert_eq!(result.logical_id, "HandlerFunction");
    assert_eq!(result.attr, None);
}

// -------------------------------------------------------------------------
// parse_or_find_embedded
// -------------------------------------------------------------------------

#[test]
fn parse_or_find_embedded_whole_string_sentinel() {
    let result = parse_or_find_embedded("{{ref:MyQueue}}").expect("should match");
    assert_eq!(result.logical_id, "MyQueue");
}

#[test]
fn parse_or_find_embedded_embedded_in_arn() {
    let s = "arn:aws:lambda:us-east-1:123:function:{{ref:MyFn}}";
    let result = parse_or_find_embedded(s).expect("should find embedded");
    assert_eq!(result.logical_id, "MyFn");
}

#[test]
fn parse_or_find_embedded_rejects_concatenated_sentinels() {
    // A concatenation must NOT produce a spurious edge to the first resource.
    assert!(parse_or_find_embedded("{{ref:A}}{{ref:B}}").is_none());
    assert!(parse_or_find_embedded("{{getatt:A.Attr}}{{ref:B}}").is_none());
}

#[test]
fn parse_or_find_embedded_sentinel_with_literal_suffix() {
    // Fn::Sub can produce "{{getatt:Fn.Arn}}:live" — a single sentinel
    // followed by literal text.  This is NOT a concatenation; the sentinel
    // reference should still be extracted.
    let result =
        parse_or_find_embedded("{{getatt:MyFunction.Arn}}:live").expect("should find ref");
    assert_eq!(result.logical_id, "MyFunction");
    assert_eq!(result.attr, Some("Arn".to_string()));
}

#[test]
fn is_sentinel_concatenation_distinguishes_correctly() {
    assert!(is_sentinel_concatenation("{{ref:A}}{{ref:B}}"));
    assert!(is_sentinel_concatenation("{{getatt:A.Attr}}{{ref:B}}"));
    assert!(!is_sentinel_concatenation("{{ref:A}}:live"));
    assert!(!is_sentinel_concatenation("{{getatt:Fn.Arn}}:live"));
    assert!(!is_sentinel_concatenation("arn:aws:...{{ref:X}}"));
    assert!(!is_sentinel_concatenation("{{ref:Only}}"));
}

#[test]
fn references_of_both_forms_are_found_behind_braces() {
    let found = find_embedded("a{{b}}{ {{getatt:Q.Arn}}}} {{ref:X}}").expect("should be found");
    assert_eq!(found.logical_id, "Q");
    assert_eq!(found.attr, Some("Arn".to_string()));
    let found = find_embedded("{{{ref:Q}}").expect("should be found");
    assert_eq!(found.logical_id, "Q");
}

#[test]
fn concatenations_of_both_forms_are_rejected() {
    let three = make_getatt("A", "Arn") + &make_ref("B") + &make_getatt("C", "Url");
    assert!(is_sentinel_concatenation(&three));
    assert_eq!(parse_or_find_embedded(&three), None);
    assert_eq!(
        parse_or_find_embedded("{{getatt:A.Arn}}{{getatt:B.Arn}} and more"),
        None
    );
}
