//! Price tables and price records.

use yevice::amount::decimal;
use yevice::amount::whole;
use yevice::amount::Amount;
use yevice::cost::Tier;
use yevice::pricing::catalog::PriceCatalog;
use yevice::pricing::catalog::PricedTier;
use yevice::pricing::catalog::PricedValue;
use yevice::pricing::catalog::Sku;
use yevice::pricing::error::PricingError;
use yevice::pricing::gcp_registry::hardcoded_pricing;
use yevice::pricing::registry::PricingRegistry;

/// The binary64 number that an amount stands for.
fn number(a: Amount) -> f64 {
    match a {
        Amount::Decimal { units, scale, per } => {
            let scaled = units as f64 / 10f64.powi(scale as i32);
            if per == 1 {
                scaled
            } else {
                scaled / per as f64
            }
        }
        Amount::Bits(b) => f64::from_bits(b),
    }
}

fn assert_close(actual: f64, expected: f64) {
    assert!(
        (actual - expected).abs() < 1e-12,
        "expected {expected}, got {actual}"
    );
}

struct LookupCatalog;

impl PriceCatalog for LookupCatalog {
    fn region(&self) -> &str {
        "test"
    }

    fn lookup(&self, sku: &Sku) -> Result<PricedValue, PricingError> {
        match sku.as_str() {
            "flat" => Ok(PricedValue::scalar(decimal(27, 1), "USD")),
            "tiered" => Ok(PricedValue::tiered(
                vec![
                    PricedTier {
                        upper_limit: Some(whole(4)),
                        unit_price: decimal(2, 1),
                    },
                    PricedTier {
                        upper_limit: None,
                        unit_price: decimal(6, 1),
                    },
                ],
                "USD",
            )),
            other => Err(PricingError::NotFound {
                service: other.to_string(),
                region: "test".to_string(),
            }),
        }
    }
}

#[test]
fn lookup_f64_uses_catalog_lookup_result_instead_of_stub_values() {
    assert_close(
        number(LookupCatalog.lookup_f64(&Sku::new("flat")).unwrap()),
        2.7,
    );

    let err = LookupCatalog.lookup_f64(&Sku::new("tiered")).unwrap_err();
    assert!(matches!(err, PricingError::NotFound { .. }));
    assert!(LookupCatalog.lookup_f64(&Sku::new("other")).is_err());
}

#[test]
fn sku_display_and_price_record_helpers_preserve_values() {
    let sku = Sku::dynamic("aws.lambda.requests");
    assert_eq!(sku.as_str(), "aws.lambda.requests");

    let flat = PricedValue::scalar(decimal(42, 2), "USD");
    assert_close(number(flat.as_flat().unwrap()), 0.42);

    let tiers = vec![
        PricedTier {
            upper_limit: Some(whole(1_000)),
            unit_price: decimal(10, 2),
        },
        PricedTier {
            upper_limit: None,
            unit_price: decimal(8, 2),
        },
    ];
    let expected: Vec<Tier> = vec![
        Tier {
            upper_limit: Some(whole(1_000)),
            unit_price: decimal(10, 2),
        },
        Tier {
            upper_limit: None,
            unit_price: decimal(8, 2),
        },
    ];
    let tiered = PricedValue::tiered(tiers, "USD");
    assert_eq!(tiered.as_tiered().unwrap(), expected);
    assert_close(number(expected[0].unit_price), 0.10);
    assert_close(number(expected[1].unit_price), 0.08);
    assert_close(number(whole(1_000)), 1_000.0);
}

#[test]
fn hardcoded_ec2_prices_cover_all_supported_instance_arms() {
    let registry = PricingRegistry::new("ap-northeast-1");

    for (instance_type, hourly_price) in [
        ("t3.nano", 0.0068),
        ("t3.small", 0.0272),
        ("t3.medium", 0.0544),
        ("t3.large", 0.1088),
        ("t3.xlarge", 0.2176),
        ("t3.2xlarge", 0.4352),
        ("m5.large", 0.124),
        ("m5.xlarge", 0.248),
        ("m5.2xlarge", 0.496),
        ("m5.4xlarge", 0.992),
        ("m6i.large", 0.124),
        ("m6i.xlarge", 0.248),
        ("m6i.2xlarge", 0.496),
        ("c5.large", 0.107),
        ("c5.xlarge", 0.214),
        ("c5.2xlarge", 0.428),
        ("r5.large", 0.152),
        ("r5.xlarge", 0.304),
        ("r5.2xlarge", 0.608),
    ] {
        let price = registry.ec2_price(instance_type).unwrap();
        assert_eq!(price.instance_type, instance_type);
        assert_close(number(price.hourly_price), hourly_price);
    }
}

#[test]
fn hardcoded_rds_prices_cover_remaining_engine_and_size_combinations() {
    let registry = PricingRegistry::new("ap-northeast-1");

    for ((engine, instance_type), hourly_price) in [
        (("mysql", "db.t3.small"), 0.052),
        (("mariadb", "db.t3.medium"), 0.104),
        (("mysql", "db.r5.large"), 0.290),
        (("mariadb", "db.r5.xlarge"), 0.580),
        (("postgres", "db.t3.micro"), 0.026),
        (("postgres", "db.t3.small"), 0.052),
        (("postgres", "db.t3.medium"), 0.104),
        (("postgres", "db.r5.large"), 0.290),
        (("postgres", "db.r5.xlarge"), 0.580),
        (("aurora-mysql", "db.r5.large"), 0.350),
        (("aurora-postgresql", "db.r5.xlarge"), 0.700),
    ] {
        let price = registry.rds_price(instance_type, engine).unwrap();
        assert_eq!(price.instance_type, instance_type);
        assert_close(number(price.hourly_price), hourly_price);
        assert_close(number(price.storage_price_per_gb), 0.138);
    }
}

#[test]
fn hardcoded_elasticache_prices_cover_all_supported_node_types() {
    let registry = PricingRegistry::new("ap-northeast-1");

    for (node_type, hourly_price) in [
        ("cache.t3.micro", 0.021),
        ("cache.t3.small", 0.042),
        ("cache.t3.medium", 0.084),
        ("cache.r6g.large", 0.202),
        ("cache.r6g.xlarge", 0.404),
        ("cache.m6g.large", 0.178),
    ] {
        let price = registry.elasticache_price(node_type).unwrap();
        assert_eq!(price.node_type, node_type);
        assert_close(number(price.hourly_price), hourly_price);
    }
}

#[test]
fn hardcoded_msk_prices_cover_all_supported_broker_types() {
    let registry = PricingRegistry::new("ap-northeast-1");

    for (broker_type, hourly_price) in [
        ("kafka.t3.small", 0.0456),
        ("kafka.m5.large", 0.213),
        ("kafka.m5.xlarge", 0.425),
        ("kafka.m5.2xlarge", 0.850),
    ] {
        let price = registry.msk_broker_price(broker_type).unwrap();
        assert_close(number(price.hourly_price), hourly_price);
        assert_close(number(price.storage_gb_month_price), 0.114);
    }
}

#[test]
fn hardcoded_opensearch_service_prices_cover_all_supported_instance_types() {
    let registry = PricingRegistry::new("ap-northeast-1");

    for (instance_type, hourly_price) in [
        ("t3.small.search", 0.036),
        ("t3.medium.search", 0.073),
        ("m5.large.search", 0.182),
        ("m5.xlarge.search", 0.365),
        ("r5.large.search", 0.250),
        ("r5.xlarge.search", 0.501),
    ] {
        let price = registry.opensearch_service_price(instance_type).unwrap();
        assert_close(number(price.instance_hour_price), hourly_price);
        assert_close(number(price.gp2_storage_gb_month_price), 0.135);
    }
}

#[test]
fn hardcoded_documentdb_prices_and_storage_cover_all_supported_types() {
    let registry = PricingRegistry::new("ap-northeast-1");

    for (instance_type, hourly_price) in [
        ("db.t3.medium", 0.076),
        ("db.r5.large", 0.277),
        ("db.r5.xlarge", 0.554),
        ("db.r5.2xlarge", 1.108),
        ("db.r6g.large", 0.264),
        ("db.r6g.xlarge", 0.528),
    ] {
        let price = registry.documentdb_price(instance_type).unwrap();
        assert_close(number(price.instance_hour_price), hourly_price);
        assert_close(number(price.storage_gb_month_price), 0.110);
    }

    assert_close(number(registry.documentdb_storage_price()), 0.110);
}

#[test]
fn hardcoded_redshift_prices_cover_all_supported_node_types() {
    let registry = PricingRegistry::new("ap-northeast-1");

    for (node_type, hourly_price) in [
        ("dc2.large", 0.314),
        ("dc2.8xlarge", 5.024),
        ("ra3.xlplus", 1.086),
        ("ra3.4xlarge", 3.496),
        ("ra3.16xlarge", 13.985),
    ] {
        let price = registry.redshift_price(node_type).unwrap();
        assert_close(number(price.node_hour_price), hourly_price);
    }
}

#[test]
fn gcp_hardcoded_pricing_respects_region_specific_sql_and_storage_bands() {
    for (region, sql_vcpu, sql_ram, sql_ssd, standard_storage, nearline_storage, archive_storage) in [
        ("us-east1", 0.0413, 0.0070, 0.170, 0.020, 0.013, 0.0025),
        ("europe-west4", 0.0513, 0.0087, 0.187, 0.020, 0.013, 0.0025),
        ("europe-west2", 0.0534, 0.0090, 0.187, 0.023, 0.016, 0.0025),
        ("asia-east1", 0.0488, 0.0083, 0.187, 0.020, 0.013, 0.0025),
        (
            "asia-northeast1",
            0.0559,
            0.0095,
            0.221,
            0.023,
            0.016,
            0.0025,
        ),
        (
            "asia-southeast1",
            0.0526,
            0.0089,
            0.187,
            0.023,
            0.016,
            0.0025,
        ),
        ("asia-south1", 0.0465, 0.0079, 0.187, 0.023, 0.016, 0.0025),
        (
            "australia-southeast1",
            0.0659,
            0.0112,
            0.221,
            0.023,
            0.016,
            0.0025,
        ),
        (
            "southamerica-east1",
            0.0695,
            0.0118,
            0.221,
            0.035,
            0.020,
            0.0025,
        ),
        ("me-central1", 0.0605, 0.0103, 0.221, 0.026, 0.019, 0.0028),
        ("me-west1", 0.0559, 0.0095, 0.221, 0.026, 0.019, 0.0028),
    ] {
        let pricing = hardcoded_pricing(region);
        assert_eq!(pricing.region, region);
        assert_close(number(pricing.cloud_run_request_per_million), 0.40);
        assert_close(number(pricing.cloud_function_invocation_per_million), 0.40);
        assert_close(number(pricing.pubsub_data_gb), 0.04);
        assert_close(number(pricing.bigquery_query_per_tb), 5.0);
        assert_close(number(pricing.cloud_sql_vcpu_hour), sql_vcpu);
        assert_close(number(pricing.cloud_sql_ram_gb_hour), sql_ram);
        assert_close(number(pricing.cloud_sql_ssd_gb_month), sql_ssd);
        assert_close(number(pricing.cloud_storage_standard_gb_month), standard_storage);
        assert_close(number(pricing.cloud_storage_nearline_gb_month), nearline_storage);
        assert_close(number(pricing.cloud_storage_archive_gb_month), archive_storage);
    }
}

#[test]
fn gcp_hardcoded_pricing_keeps_asia_northeast_and_high_cost_storage_groups() {
    let asia_northeast = hardcoded_pricing("asia-northeast2");
    assert_eq!(asia_northeast.region, "asia-northeast2");
    assert_close(number(asia_northeast.cloud_sql_vcpu_hour), 0.0559);
    assert_close(number(asia_northeast.cloud_sql_ram_gb_hour), 0.0095);
    assert_close(number(asia_northeast.cloud_sql_ssd_gb_month), 0.221);
    assert_close(number(asia_northeast.cloud_storage_standard_gb_month), 0.023);
    assert_close(number(asia_northeast.cloud_storage_nearline_gb_month), 0.016);
    assert_close(number(asia_northeast.cloud_storage_archive_gb_month), 0.0025);

    let australia = hardcoded_pricing("australia-southeast2");
    assert_eq!(australia.region, "australia-southeast2");
    assert_close(number(australia.cloud_sql_vcpu_hour), 0.0559);
    assert_close(number(australia.cloud_sql_ram_gb_hour), 0.0095);
    assert_close(number(australia.cloud_sql_ssd_gb_month), 0.221);
    assert_close(number(australia.cloud_storage_standard_gb_month), 0.023);
    assert_close(number(australia.cloud_storage_nearline_gb_month), 0.016);
    assert_close(number(australia.cloud_storage_archive_gb_month), 0.0025);

    let defaulted = hardcoded_pricing("custom-region-9");
    assert_eq!(defaulted.region, "custom-region-9");
    assert_close(number(defaulted.cloud_sql_vcpu_hour), 0.0559);
    assert_close(number(defaulted.cloud_sql_ram_gb_hour), 0.0095);
    assert_close(number(defaulted.cloud_sql_ssd_gb_month), 0.221);
    assert_close(number(defaulted.cloud_storage_standard_gb_month), 0.023);
    assert_close(number(defaulted.cloud_storage_nearline_gb_month), 0.016);
    assert_close(number(defaulted.cloud_storage_archive_gb_month), 0.0025);
}
