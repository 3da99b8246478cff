//! Bulk price files and what is looked up in them.

use yevice::amount::decimal;
use yevice::amount::whole;
use yevice::amount::Amount;
use yevice::amount::Numeral;
use yevice::pricing::bulk_api::find_entries;
use yevice::pricing::bulk_api::find_entries_by_family;
use yevice::pricing::bulk_api::first_price;
use yevice::pricing::bulk_api::parse_bulk_pricing;
use yevice::pricing::bulk_api::parse_bulk_pricing_full;
use yevice::pricing::bulk_api::BulkOfferTerm;
use yevice::pricing::bulk_api::BulkPriceDimension;
use yevice::pricing::bulk_api::BulkPricingFile;
use yevice::pricing::bulk_api::BulkProduct;
use yevice::pricing::bulk_api::BulkTerms;
use yevice::pricing::bulk_api::PricingDimension;
use yevice::pricing::bulk_api::PricingEntry;
use yevice::pricing::catalog::Currency;
use yevice::pricing::catalog::PricedValue;
use yevice::pricing::catalog::TypedPriceRecord;
use yevice::pricing::catalog::TypedTier;
use yevice::pricing::catalog::USD;
use yevice::pricing::download::pricing_url;
use yevice::pricing::download::PRICING_SERVICES;
use yevice::pricing::error::PricingError;
use yevice::pricing::file_registry::dynamodb_required_price;
use yevice::pricing::file_registry::dynamodb_storage_price;
use yevice::pricing::file_registry::is_dynamodb_standard_table_class;
use yevice::pricing::file_registry::FilePricingRegistry;
use yevice::strmap::StrMap;

/// The binary64 number that an amount stands for.
fn number(a: Amount) -> f64 {
    match a {
        Amount::Decimal { units, scale, per } => {
            let scaled = units as f64 / 10f64.powi(scale as i32);
            if per == 1 {
                scaled
            } else {
                scaled / per as f64
            }
        }
        Amount::Bits(b) => f64::from_bits(b),
    }
}

/// The amount that stands for a binary64 number.
fn amount(x: f64) -> Amount {
    Amount::Bits(x.to_bits())
}

fn numeral(text: &str) -> Numeral {
    Numeral {
        text: text.to_string(),
        bits: text.parse::<f64>().ok().map(f64::to_bits),
    }
}

fn numerals(pairs: &[(&str, &str)]) -> StrMap<Numeral> {
    let mut m = StrMap::new();
    for (k, v) in pairs {
        m.insert((*k).to_string(), numeral(v));
    }
    m
}

fn text_map(pairs: &[(&str, &str)]) -> StrMap<String> {
    let mut m = StrMap::new();
    for (k, v) in pairs {
        m.insert((*k).to_string(), (*v).to_string());
    }
    m
}

fn text_at(v: &serde_json::Value, key: &str) -> String {
    v[key].as_str().unwrap_or_default().to_string()
}

/// The entries of an object, each turned into a value.
fn map_of<T>(v: &serde_json::Value, f: fn(&serde_json::Value) -> T) -> StrMap<T> {
    let mut m = StrMap::new();
    if let Some(entries) = v.as_object() {
        for (k, x) in entries {
            m.insert(k.clone(), f(x));
        }
    }
    m
}

fn dimension_of(v: &serde_json::Value) -> BulkPriceDimension {
    BulkPriceDimension {
        description: text_at(v, "description"),
        begin_range: numeral(&text_at(v, "beginRange")),
        end_range: numeral(&text_at(v, "endRange")),
        unit: text_at(v, "unit"),
        price_per_unit: map_of(&v["pricePerUnit"], |x| numeral(x.as_str().unwrap())),
    }
}

fn term_of(v: &serde_json::Value) -> BulkOfferTerm {
    BulkOfferTerm {
        sku: text_at(v, "sku"),
        price_dimensions: map_of(&v["priceDimensions"], dimension_of),
    }
}

fn product_of(v: &serde_json::Value) -> BulkProduct {
    BulkProduct {
        sku: text_at(v, "sku"),
        product_family: text_at(v, "productFamily"),
        attributes: map_of(&v["attributes"], |x| x.as_str().unwrap().to_string()),
    }
}

/// The bulk price file that a JSON text holds.
fn bulk_file(json: &str) -> BulkPricingFile {
    let v: serde_json::Value = serde_json::from_str(json).unwrap();
    BulkPricingFile {
        offer_code: text_at(&v, "offerCode"),
        publication_date: v["publicationDate"].as_str().map(str::to_string),
        version: v["version"].as_str().map(str::to_string),
        products: map_of(&v["products"], product_of),
        terms: BulkTerms {
            on_demand: map_of(&v["terms"]["OnDemand"], |x| map_of(x, term_of)),
        },
    }
}

fn one_file(service: &str, json: &str) -> StrMap<BulkPricingFile> {
    let mut files = StrMap::new();
    files.insert(service.to_string(), bulk_file(json));
    files
}

/// Build a minimal Bulk Pricing JSON fixture with a single SKU whose
/// `group` attribute is deliberately set to `WRONG_GROUP_NAME`.  When the
/// registry looks up the real group name, `find_entries` returns empty,
/// which must surface as `PricingError::NotFound`.
fn minimal_bulk_json_with_wrong_group(offer_code: &str) -> String {
    format!(
        r#"{{
          "offerCode": "{offer_code}",
          "products": {{
            "SKU001": {{
              "sku": "SKU001",
              "productFamily": "Compute",
              "attributes": {{"group": "WRONG_GROUP_NAME"}}
            }}
          }},
          "terms": {{
            "OnDemand": {{
              "SKU001": {{
                "SKU001.JRTCKXETXF": {{
                  "sku": "SKU001",
                  "priceDimensions": {{
                    "SKU001.JRTCKXETXF.6YS6EN2CT7": {{
                      "description": "per request",
                      "beginRange": "0",
                      "endRange": "Inf",
                      "unit": "Requests",
                      "pricePerUnit": {{"USD": "0.000001"}}
                    }}
                  }}
                }}
              }}
            }}
          }}
        }}"#
    )
}

fn minimal_kinesis_bulk_json() -> &'static str {
    r#"{
      "offerCode": "AmazonKinesis",
      "products": {
        "SHARD": {
          "sku": "SHARD",
          "productFamily": "Kinesis Streams",
          "attributes": {
            "group": "Provisioned shard hour",
            "operation": "shardHourStorage",
            "usagetype": "APN1-Storage-ShardHour"
          }
        },
        "PUT": {
          "sku": "PUT",
          "productFamily": "Kinesis Streams",
          "attributes": {
            "group": "Payload Units",
            "operation": "PutRequest",
            "usagetype": "APN1-PutRequestPayloadUnits"
          }
        },
        "ODIN": {
          "sku": "ODIN",
          "productFamily": "Kinesis Streams",
          "attributes": {
            "group": "OnDemand",
            "operation": "OnDemandDataIngested",
            "usagetype": "APN1-OnDemand-BilledIncomingBytes"
          }
        },
        "ODOUT": {
          "sku": "ODOUT",
          "productFamily": "Kinesis Streams",
          "attributes": {
            "group": "OnDemand",
            "operation": "OnDemandDataRetrieval",
            "usagetype": "APN1-OnDemand-BilledOutgoingBytes"
          }
        },
        "ODHR": {
          "sku": "ODHR",
          "productFamily": "Kinesis Streams",
          "attributes": {
            "group": "OnDemand",
            "operation": "OnDemandStreamHr",
            "usagetype": "APN1-OnDemand-StreamHour"
          }
        },
        "ADV": {
          "sku": "ADV",
          "productFamily": "Kinesis Streams",
          "attributes": {
            "group": "OnDemand Advantage",
            "operation": "AdvantageDataRetrieval",
            "usagetype": "APN1-Advantage-BilledOutgoingBytes"
          }
        }
      },
      "terms": {
        "OnDemand": {
          "SHARD": {
            "SHARD.JRTCKXETXF": {
              "sku": "SHARD",
              "priceDimensions": {
                "SHARD.RATE": {
                  "description": "provisioned shard hour",
                  "beginRange": "0",
                  "endRange": "Inf",
                  "unit": "ShardHour",
                  "pricePerUnit": {"USD": "0.0195000000"}
                }
              }
            }
          },
          "PUT": {
            "PUT.JRTCKXETXF": {
              "sku": "PUT",
              "priceDimensions": {
                "PUT.RATE": {
                  "description": "PUT payload units",
                  "beginRange": "0",
                  "endRange": "Inf",
                  "unit": "PutRequest",
                  "pricePerUnit": {"USD": "0.0000000215"}
                }
              }
            }
          },
          "ODIN": {
            "ODIN.JRTCKXETXF": {
              "sku": "ODIN",
              "priceDimensions": {
                "ODIN.RATE": {
                  "description": "on-demand data written",
                  "beginRange": "0",
                  "endRange": "Inf",
                  "unit": "GB",
                  "pricePerUnit": {"USD": "0.1040000000"}
                }
              }
            }
          },
          "ODOUT": {
            "ODOUT.JRTCKXETXF": {
              "sku": "ODOUT",
              "priceDimensions": {
                "ODOUT.RATE": {
                  "description": "on-demand GetRecords data read",
                  "beginRange": "0",
                  "endRange": "Inf",
                  "unit": "GB",
                  "pricePerUnit": {"USD": "0.0520000000"}
                }
              }
            }
          },
          "ODHR": {
            "ODHR.JRTCKXETXF": {
              "sku": "ODHR",
              "priceDimensions": {
                "ODHR.RATE": {
                  "description": "on-demand stream hour",
                  "beginRange": "0",
                  "endRange": "Inf",
                  "unit": "StreamHr",
                  "pricePerUnit": {"USD": "0.0520000000"}
                }
              }
            }
          },
          "ADV": {
            "ADV.JRTCKXETXF": {
              "sku": "ADV",
              "priceDimensions": {
                "ADV.RATE": {
                  "description": "advantage retrieval must not be selected",
                  "beginRange": "0",
                  "endRange": "Inf",
                  "unit": "GB",
                  "pricePerUnit": {"USD": "0.0208000000"}
                }
              }
            }
          }
        }
      }
    }"#
}

fn assert_not_found(result: Result<impl std::fmt::Debug, PricingError>, service: &str) {
    match result {
        Err(PricingError::NotFound {
            service: actual, ..
        }) => assert_eq!(actual, service),
        other => panic!("expected NotFound for {service}, got {other:?}"),
    }
}

fn pricing_entry(product_family: &str, usagetype: &str, price: f64) -> PricingEntry {
    PricingEntry {
        sku: format!("{product_family}:{usagetype}"),
        product_family: product_family.to_string(),
        attributes: text_map(&[("usagetype", usagetype)]),
        dimensions: vec![PricingDimension {
            description: "test price".to_string(),
            unit: "GB-Mo".to_string(),
            price_usd: amount(price),
            begin_range: amount(0.0),
            end_range: None,
        }],
    }
}

fn dynamodb_entry(group: &str, operation: &str, usagetype: &str, price: f64) -> PricingEntry {
    PricingEntry {
        sku: format!("{group}:{operation}:{usagetype}"),
        product_family: "Amazon DynamoDB".to_string(),
        attributes: text_map(&[
            ("group", group),
            ("operation", operation),
            ("usagetype", usagetype),
        ]),
        dimensions: vec![PricingDimension {
            description: format!("{usagetype} test price"),
            unit: "Requests".to_string(),
            price_usd: amount(price),
            begin_range: amount(0.0),
            end_range: None,
        }],
    }
}

#[test]
fn load_skips_service_files_without_implemented_file_backed_lookups() {
    let files = one_file("s3", &minimal_bulk_json_with_wrong_group("AmazonS3"));

    let reg = FilePricingRegistry::load("ap-northeast-1", &files);

    assert!(reg.metadata("s3").is_none());
}

/// When a downloaded Lambda pricing file loads successfully but has no
/// `AWS-Lambda-Requests` group, lookup must fail instead of returning a
/// hardcoded price.
#[test]
fn lambda_missing_group_returns_not_found() {
    let files = one_file("lambda", &minimal_bulk_json_with_wrong_group("AmazonLambda"));

    let reg = FilePricingRegistry::load("ap-northeast-1", &files);
    assert_not_found(reg.lambda_price(), "lambda:AWS-Lambda-Requests");
}

/// When a downloaded DynamoDB pricing file loads successfully but has no
/// expected pricing groups, lookup must fail instead of returning hardcoded
/// prices.
#[test]
fn dynamodb_missing_group_returns_not_found() {
    let files = one_file("dynamodb", &minimal_bulk_json_with_wrong_group("AmazonDynamoDB"));

    let reg = FilePricingRegistry::load("ap-northeast-1", &files);
    assert_not_found(reg.dynamodb_price(), "dynamodb:pay_per_request_write");
}

#[test]
fn dynamodb_required_price_prefers_standard_table_class_over_standard_ia() {
    let entries = vec![
        dynamodb_entry(
            "DDB-WriteUnits",
            "PayPerRequestThroughput",
            "APN1-IA-WriteRequestUnits",
            999.0,
        ),
        dynamodb_entry(
            "DDB-WriteUnits",
            "PayPerRequestThroughput",
            "APN1-WriteRequestUnits",
            0.00000125,
        ),
    ];

    let price = dynamodb_required_price(
        &entries,
        "dynamodb:pay_per_request_write",
        "DDB-WriteUnits",
        "PayPerRequestThroughput",
        "ap-northeast-1",
    )
    .unwrap();

    assert_eq!(number(price), 0.00000125);
}

#[test]
fn dynamodb_standard_table_class_rejects_infrequent_access_description() {
    let mut entry = dynamodb_entry(
        "DDB-ReadUnits",
        "PayPerRequestThroughput",
        "APN1-ReadRequestUnits",
        999.0,
    );
    entry.dimensions[0].description =
        "DynamoDB Standard Infrequent Access read request".to_string();

    assert!(!is_dynamodb_standard_table_class(&entry));
}

#[test]
fn dynamodb_storage_price_requires_storage_family_and_timed_storage_usage() {
    let entries = vec![
        pricing_entry("Database Storage", "APN1-IA-TimedStorage-ByteHrs", 1.10),
        pricing_entry("Wrong Family", "APN1-TimedStorage-ByteHrs", 999.0),
        pricing_entry("Database Storage", "APN1-NotStorage-ByteHrs", 888.0),
        pricing_entry("Database Storage", "APN1-TimedStorage-ByteHrs", 0.275),
    ];

    let price = dynamodb_storage_price(&entries, "ap-northeast-1").unwrap();

    assert_eq!(number(price), 0.275);
}

/// When a downloaded Kinesis pricing file loads successfully but has no
/// matching Kinesis Streams entries, lookup must fail instead of returning
/// hardcoded prices.
#[test]
fn kinesis_missing_group_returns_not_found() {
    let files = one_file("kinesis", &minimal_bulk_json_with_wrong_group("AmazonKinesis"));

    let reg = FilePricingRegistry::load("ap-northeast-1", &files);
    assert_not_found(reg.kinesis_price(), "kinesis:Provisioned shard hour");
}

#[test]
fn kinesis_price_reads_current_bulk_api_attributes() {
    let files = one_file("kinesis", &minimal_kinesis_bulk_json());

    let reg = FilePricingRegistry::load("ap-northeast-1", &files);
    let price = reg.kinesis_price().unwrap();

    assert_eq!(number(price.shard_hour_price), 0.0195);
    assert_eq!(number(price.put_payload_unit_price), 0.0000000215);
    assert_eq!(number(price.on_demand_ingestion_price_per_gb), 0.104);
    assert_eq!(number(price.on_demand_retrieval_price_per_gb), 0.052);
    assert_eq!(number(price.on_demand_stream_hour_price), 0.052);
}

/// Missing gp3 entries in a loaded `rds.json` must fail instead of falling
/// back to hardcoded Tokyo constants.
#[test]
fn rds_gp3_missing_entries_return_not_found() {
    let files = one_file("rds", &minimal_bulk_json_with_wrong_group("AmazonRDS"));

    let reg = FilePricingRegistry::load("us-east-1", &files);

    assert_not_found(reg.rds_gp3_storage_price(), "rds:gp3_storage");
    assert_not_found(reg.rds_gp3_iops_price(), "rds:gp3_iops");
}

#[test]
fn missing_service_file_returns_not_found() {
    let files: StrMap<BulkPricingFile> = StrMap::new();
    let reg = FilePricingRegistry::load("us-east-1", &files);

    assert_not_found(reg.lambda_price(), "lambda");
}

fn entry(sku: &str, attrs: &[(&str, &str)], prices: &[f64]) -> PricingEntry {
    PricingEntry {
        sku: sku.to_string(),
        product_family: "Compute".to_string(),
        attributes: text_map(attrs),
        dimensions: prices
            .iter()
            .enumerate()
            .map(|(index, price_usd)| PricingDimension {
                description: format!("dimension-{index}"),
                unit: "Hrs".to_string(),
                price_usd: amount(*price_usd),
                begin_range: amount(index as f64),
                end_range: None,
            })
            .collect(),
    }
}

#[test]
fn usd_price_parses_usd_and_defaults_to_zero_for_missing_or_invalid_values() {
    let valid = BulkPriceDimension {
        description: String::new(),
        begin_range: numeral(""),
        end_range: numeral(""),
        unit: String::new(),
        price_per_unit: numerals(&[("USD", "1.25")]),
    };
    assert_eq!(number(valid.usd_price()), 1.25);

    let missing = BulkPriceDimension {
        description: String::new(),
        begin_range: numeral(""),
        end_range: numeral(""),
        unit: String::new(),
        price_per_unit: numerals(&[("JPY", "10")]),
    };
    assert_eq!(number(missing.usd_price()), 0.0);

    let invalid = BulkPriceDimension {
        description: String::new(),
        begin_range: numeral(""),
        end_range: numeral(""),
        unit: String::new(),
        price_per_unit: numerals(&[("USD", "not-a-number")]),
    };
    assert_eq!(number(invalid.usd_price()), 0.0);
}

#[test]
fn parse_bulk_pricing_extracts_dimensions_and_keeps_products_without_terms() {
    let json = r#"{
        "offerCode": "ExampleOffer",
        "products": {
            "SKU-LAMBDA": {
                "sku": "SKU-LAMBDA",
                "productFamily": "Serverless",
                "attributes": {
                    "servicecode": "AWSLambda",
                    "group": "AWS-Lambda-Duration"
                }
            },
            "SKU-EMPTY": {
                "sku": "SKU-EMPTY",
                "productFamily": "Storage",
                "attributes": {
                    "servicecode": "AmazonS3"
                }
            }
        },
        "terms": {
            "OnDemand": {
                "SKU-LAMBDA": {
                    "SKU-LAMBDA.JRTCKXETXF": {
                        "sku": "SKU-LAMBDA",
                        "priceDimensions": {
                            "REQUESTS": {
                                "description": "Requests",
                                "beginRange": "0",
                                "endRange": "Inf",
                                "unit": "Requests",
                                "pricePerUnit": {"USD": "0.0000002"}
                            },
                            "DURATION": {
                                "description": "Duration",
                                "beginRange": "0",
                                "endRange": "128",
                                "unit": "GB-Second",
                                "pricePerUnit": {"USD": "0.0000999"}
                            }
                        }
                    }
                }
            }
        }
    }"#;

    let entries = parse_bulk_pricing(&bulk_file(json));
    assert_eq!(entries.len(), 2);

    let lambda = entries
        .iter()
        .find(|entry| entry.sku == "SKU-LAMBDA")
        .unwrap();
    assert_eq!(lambda.product_family, "Serverless");
    assert_eq!(
        lambda.attributes.get("servicecode").map(|s| s.as_str()),
        Some("AWSLambda")
    );
    assert_eq!(lambda.dimensions.len(), 2);

    let duration = lambda
        .dimensions
        .iter()
        .find(|dimension| dimension.description == "Duration")
        .unwrap();
    assert_eq!(number(duration.price_usd), 0.0000999);
    assert_eq!(number(duration.begin_range), 0.0);
    assert_eq!(duration.end_range.map(number), Some(128.0));

    let requests = lambda
        .dimensions
        .iter()
        .find(|dimension| dimension.description == "Requests")
        .unwrap();
    assert_eq!(number(requests.price_usd), 0.0000002);
    assert_eq!(number(requests.begin_range), 0.0);
    assert_eq!(requests.end_range.map(number), None);

    let empty = entries
        .iter()
        .find(|entry| entry.sku == "SKU-EMPTY")
        .unwrap();
    assert_eq!(empty.product_family, "Storage");
    assert!(empty.dimensions.is_empty());
}

#[test]
fn find_entries_requires_all_filters_to_match() {
    let entries = vec![
        entry(
            "lambda-requests",
            &[("service", "lambda"), ("group", "requests")],
            &[0.2],
        ),
        entry(
            "lambda-duration",
            &[("service", "lambda"), ("group", "duration")],
            &[0.3],
        ),
        entry(
            "s3-storage",
            &[("service", "s3"), ("group", "storage")],
            &[0.4],
        ),
    ];

    let matches = find_entries(&entries, &[("service", "lambda"), ("group", "duration")]);
    assert_eq!(matches.len(), 1);
    assert_eq!(matches[0].sku, "lambda-duration");

    let missing = find_entries(&entries, &[("service", "lambda"), ("group", "storage")]);
    assert!(missing.is_empty());
}

#[test]
fn first_price_skips_non_positive_values_and_returns_none_when_absent() {
    let positive = entry(
        "kinesis",
        &[("service", "kinesis")],
        &[0.0, -0.5, 0.75, 1.2],
    );
    assert_eq!(first_price(&positive).map(number), Some(0.75));

    let none = entry("free-tier", &[("service", "misc")], &[0.0, -0.5]);
    assert_eq!(first_price(&none).map(number), None);
}

#[test]
fn typed_scalar_erases_to_priced_value_with_code() {
    let typed: TypedPriceRecord<USD> = TypedPriceRecord::Scalar(Currency::new(decimal(5, 1)));
    let erased = typed.erase();
    match erased {
        PricedValue::Scalar { value, currency } => {
            assert_eq!(number(value), 0.5);
            assert_eq!(currency, "USD");
        }
        PricedValue::Tiered { .. } => panic!("expected scalar"),
    }
}

#[test]
fn typed_tiered_preserves_tier_count() {
    let typed: TypedPriceRecord<USD> = TypedPriceRecord::Tiered(vec![
        TypedTier::new(Some(whole(1000)), Currency::new(whole(0))),
        TypedTier::new(None, Currency::new(decimal(1, 4))),
    ]);
    let erased = typed.erase();
    match erased {
        PricedValue::Tiered { tiers, currency } => {
            assert_eq!(tiers.len(), 2);
            assert_eq!(currency, "USD");
            assert_eq!(number(tiers[1].unit_price), 0.0001);
        }
        PricedValue::Scalar { .. } => panic!("expected tiered"),
    }
}

#[test]
fn pricing_url_embeds_service_and_region() {
    let url = pricing_url("AmazonEC2", "ap-northeast-1");
    assert_eq!(
        url,
        "https://pricing.us-east-1.amazonaws.com/offers/v1.0/aws/AmazonEC2/current/ap-northeast-1/index.json"
    );
}

#[test]
fn pricing_services_have_unique_file_stems() {
    let mut stems: Vec<&str> = PRICING_SERVICES.iter().map(|(_, stem)| *stem).collect();
    stems.sort_unstable();
    let len_before = stems.len();
    stems.dedup();
    assert_eq!(
        len_before,
        stems.len(),
        "duplicate file stems would clobber output files"
    );
}

/// A product with one on-demand price.
fn offer(sku: &str, family: &str, attributes: &[(&str, &str)], price: &str) -> (BulkProduct, BulkOfferTerm) {
    let mut price_dimensions = StrMap::new();
    price_dimensions.insert(
        format!("{sku}.JRTCKXETXF.6YS6EN2CT7"),
        BulkPriceDimension {
            description: "per unit".to_string(),
            begin_range: numeral("0"),
            end_range: numeral("Inf"),
            unit: "Unit".to_string(),
            price_per_unit: numerals(&[("USD", price)]),
        },
    );
    (
        BulkProduct {
            sku: sku.to_string(),
            product_family: family.to_string(),
            attributes: text_map(attributes),
        },
        BulkOfferTerm {
            sku: sku.to_string(),
            price_dimensions,
        },
    )
}

/// A file of the given offers.
fn file_of(offers: Vec<(BulkProduct, BulkOfferTerm)>) -> BulkPricingFile {
    let mut products = StrMap::new();
    let mut on_demand = StrMap::new();
    for (product, term) in offers {
        let mut terms = StrMap::new();
        terms.insert(format!("{}.JRTCKXETXF", product.sku), term);
        on_demand.insert(product.sku.clone(), terms);
        products.insert(product.sku.clone(), product);
    }
    BulkPricingFile {
        offer_code: "Amazon".to_string(),
        publication_date: Some("2025-01-01T00:00:00Z".to_string()),
        version: Some("20250101".to_string()),
        products,
        terms: BulkTerms { on_demand },
    }
}

fn fixture() -> StrMap<BulkPricingFile> {
    let mut files = StrMap::new();
    files.insert(
        "lambda".to_string(),
        file_of(vec![
            offer("L1", "Serverless", &[("group", "AWS-Lambda-Requests")], "0.0000009"),
            offer("L2", "Serverless", &[("group", "AWS-Lambda-Duration")], "0.0000999"),
        ]),
    );
    let instance = |sku: &str, kind: &str, engine: &str, price: &str| {
        offer(
            sku,
            "Database Instance",
            &[("instanceType", kind), ("databaseEngine", engine)],
            price,
        )
    };
    files.insert(
        "rds".to_string(),
        file_of(vec![
            instance("R1", "db.t3.small", "MySQL", "0.111"),
            instance("R2", "db.t3.medium", "PostgreSQL", "0.222"),
            instance("R3", "db.r5.large", "Aurora MySQL", "0.333"),
            instance("R4", "db.r5.xlarge", "Aurora PostgreSQL", "0.444"),
            offer(
                "R5",
                "Database Storage",
                &[
                    ("volumeType", "General Purpose-GP3"),
                    ("deploymentOption", "Single-AZ"),
                ],
                "0.1300",
            ),
            offer(
                "R6",
                "System Operation",
                &[("group", "RDS-GP3-IOPS"), ("deploymentOption", "Single-AZ")],
                "0.0090",
            ),
        ]),
    );
    files.insert(
        "ec2".to_string(),
        file_of(vec![
            offer(
                "E1",
                "Compute Instance",
                &[
                    ("instanceType", "m5.large"),
                    ("operatingSystem", "Windows"),
                    ("tenancy", "Shared"),
                    ("preInstalledSw", "NA"),
                    ("capacitystatus", "Used"),
                ],
                "0.9",
            ),
            offer(
                "E2",
                "Compute Instance",
                &[
                    ("instanceType", "m5.large"),
                    ("operatingSystem", "Linux"),
                    ("tenancy", "Shared"),
                    ("preInstalledSw", "NA"),
                    ("capacitystatus", "Used"),
                ],
                "0.124",
            ),
        ]),
    );
    files
}

fn assert_close(actual: Amount, expected: f64) {
    let actual = number(actual);
    assert!(
        (actual - expected).abs() < 1e-12,
        "expected {expected}, got {actual}"
    );
}

#[test]
fn file_registry_uses_loaded_lambda_prices_instead_of_fallback_defaults() {
    let registry = FilePricingRegistry::load("ap-northeast-1", &fixture());
    let price = registry.lambda_price().unwrap();

    assert_close(price.request_price, 0.0000009);
    assert_close(price.gb_second_price, 0.0000999);
    assert_close(price.free_tier_requests, 1_000_000.0);
    assert_close(price.free_tier_gb_seconds, 400_000.0);
}

#[test]
fn file_registry_returns_gp3_prices_from_rds_json_not_hardcoded_fallback() {
    let registry = FilePricingRegistry::load("us-east-1", &fixture());

    let storage_price = registry.rds_gp3_storage_price().unwrap();
    assert_close(storage_price, 0.1300);

    let iops_price = registry.rds_gp3_iops_price().unwrap();
    assert_close(iops_price, 0.0090);
}

#[test]
fn file_registry_maps_rds_engine_aliases_to_bulk_api_database_engine_names() {
    let registry = FilePricingRegistry::load("ap-northeast-1", &fixture());

    let mariadb = registry.rds_price("db.t3.small", "mariadb").unwrap();
    assert_close(mariadb.hourly_price, 0.111);
    assert_close(mariadb.storage_price_per_gb, 0.138);

    let postgres = registry.rds_price("db.t3.medium", "postgres").unwrap();
    assert_close(postgres.hourly_price, 0.222);
    assert_close(postgres.storage_price_per_gb, 0.138);

    let aurora_mysql = registry.rds_price("db.r5.large", "aurora-mysql").unwrap();
    assert_close(aurora_mysql.hourly_price, 0.333);
    assert_close(aurora_mysql.storage_price_per_gb, 0.138);

    let aurora_postgresql = registry
        .rds_price("db.r5.xlarge", "aurora-postgresql")
        .unwrap();
    assert_close(aurora_postgresql.hourly_price, 0.444);
    assert_close(aurora_postgresql.storage_price_per_gb, 0.138);
}

#[test]
fn ec2_price_takes_the_linux_offer() {
    let registry = FilePricingRegistry::load("ap-northeast-1", &fixture());
    let price = registry.ec2_price("m5.large").unwrap();
    assert_eq!(price.instance_type, "m5.large");
    assert_close(price.hourly_price, 0.124);
    assert_not_found(registry.ec2_price("m5.24xlarge"), "ec2:m5.24xlarge");
}

#[test]
fn metadata_names_the_version_of_each_file() {
    let registry = FilePricingRegistry::load("ap-northeast-1", &fixture());
    let known = registry.metadata("lambda").expect("the file is loaded");
    assert_eq!(known.version.as_deref(), Some("20250101"));
    assert_eq!(
        known.publication_date.as_deref(),
        Some("2025-01-01T00:00:00Z")
    );
    assert_eq!(registry.all_metadata().len(), 3);
}
