//! Built-in prices of AWS services in the Tokyo region.

use vstd::prelude::*;

use crate::amount::decimal;
use crate::amount::whole;
use crate::amount::Amount;
use crate::pricing::error::PricingError;
use crate::pricing::error::PricingErrorView;
use crate::pricing::model::AlbPrice;
use crate::pricing::model::ApiGatewayPrice;
use crate::pricing::model::AppSyncPrice;
use crate::pricing::model::AthenaPrice;
use crate::pricing::model::BatchPrice;
use crate::pricing::model::CloudFrontPrice;
use crate::pricing::model::CloudWatchLogsPrice;
use crate::pricing::model::CognitoPrice;
use crate::pricing::model::DataTransferPrice;
use crate::pricing::model::DataTransferTier;
use crate::pricing::model::DocumentDbPrice;
use crate::pricing::model::DynamoDbPrice;
use crate::pricing::model::Ec2Price;
use crate::pricing::model::EcrPrice;
use crate::pricing::model::EfsPrice;
use crate::pricing::model::EksPrice;
use crate::pricing::model::ElastiCachePrice;
use crate::pricing::model::EventBridgePrice;
use crate::pricing::model::EventBridgeSchedulerPrice;
use crate::pricing::model::FargatePrice;
use crate::pricing::model::FirehosePrice;
use crate::pricing::model::GluePrice;
use crate::pricing::model::GuardDutyPrice;
use crate::pricing::model::GuardDutyTier;
use crate::pricing::model::KinesisPrice;
use crate::pricing::model::LambdaPrice;
use crate::pricing::model::LightsailPrice;
use crate::pricing::model::MskBrokerPrice;
use crate::pricing::model::NatGatewayPrice;
use crate::pricing::model::OpenSearchServerlessPrice;
use crate::pricing::model::OpenSearchServicePrice;
use crate::pricing::model::QuickSightPrice;
use crate::pricing::model::RdsPrice;
use crate::pricing::model::RedshiftPrice;
use crate::pricing::model::Route53Price;
use crate::pricing::model::S3Price;
use crate::pricing::model::S3StorageTier;
use crate::pricing::model::SecretsManagerPrice;
use crate::pricing::model::SnsPrice;
use crate::pricing::model::SqsPrice;
use crate::pricing::model::StepFunctionsPrice;
use crate::pricing::model::WafPrice;
use crate::text::text_eq;

verus! {

// ---------------------------------------------------------------------------
// Tables
// ---------------------------------------------------------------------------

/// The hourly price of an on-demand Linux instance of each type.
pub const EC2_RATES: [(&'static str, u64, u32); 23] = [
    ("t3.nano", 68, 4),
    ("t3.micro", 136, 4),
    ("t3.small", 272, 4),
    ("t3.medium", 544, 4),
    ("t3.large", 1088, 4),
    ("t3.xlarge", 2176, 4),
    ("t3.2xlarge", 4352, 4),
    ("m5.large", 124, 3),
    ("m5.xlarge", 248, 3),
    ("m5.2xlarge", 496, 3),
    ("m5.4xlarge", 992, 3),
    ("m6i.large", 124, 3),
    ("m6i.xlarge", 248, 3),
    ("m6i.2xlarge", 496, 3),
    ("m6a.large", 1116, 4),
    ("m6a.xlarge", 2232, 4),
    ("m6a.2xlarge", 4464, 4),
    ("c5.large", 107, 3),
    ("c5.xlarge", 214, 3),
    ("c5.2xlarge", 428, 3),
    ("r5.large", 152, 3),
    ("r5.xlarge", 304, 3),
    ("r5.2xlarge", 608, 3),
];

/// The hourly price of an on-demand Windows instance of each type.
pub const EC2_WINDOWS_RATES: [(&'static str, u64, u32); 10] = [
    ("m5.large", 216, 3),
    ("m5.xlarge", 432, 3),
    ("m5.2xlarge", 864, 3),
    ("m6a.large", 2036, 4),
    ("m6a.xlarge", 4072, 4),
    ("m6a.2xlarge", 8144, 4),
    ("m6i.large", 216, 3),
    ("m6i.xlarge", 432, 3),
    ("t3.medium", 1464, 4),
    ("t3.large", 2008, 4),
];

/// The hourly price of an on-demand database instance of each engine and type.
pub const RDS_RATES: [(&'static str, &'static str, u64, u32); 25] = [
    ("mysql", "db.t3.micro", 26, 3),
    ("mariadb", "db.t3.micro", 26, 3),
    ("mysql", "db.t3.small", 52, 3),
    ("mariadb", "db.t3.small", 52, 3),
    ("mysql", "db.t3.medium", 104, 3),
    ("mariadb", "db.t3.medium", 104, 3),
    ("mysql", "db.m6i.large", 235, 3),
    ("mariadb", "db.m6i.large", 235, 3),
    ("mysql", "db.r5.large", 29, 2),
    ("mariadb", "db.r5.large", 29, 2),
    ("mysql", "db.r5.xlarge", 58, 2),
    ("mariadb", "db.r5.xlarge", 58, 2),
    ("postgres", "db.t3.micro", 26, 3),
    ("postgres", "db.t3.small", 52, 3),
    ("postgres", "db.t3.medium", 104, 3),
    ("postgres", "db.m6i.large", 235, 3),
    ("postgres", "db.r5.large", 29, 2),
    ("postgres", "db.r5.xlarge", 58, 2),
    ("aurora-mysql", "db.r5.large", 35, 2),
    ("aurora-postgresql", "db.r5.large", 35, 2),
    ("aurora-mysql", "db.r5.xlarge", 7, 1),
    ("aurora-postgresql", "db.r5.xlarge", 7, 1),
    ("sqlserver-se", "db.r5.large", 105, 2),
    ("sqlserver-se", "db.r5.xlarge", 21, 1),
    ("sqlserver-se", "db.t3.medium", 342, 3),
];

/// The hourly price of a cache node of each type.
pub const ELASTICACHE_RATES: [(&'static str, u64, u32); 9] = [
    ("cache.t3.micro", 21, 3),
    ("cache.t3.small", 42, 3),
    ("cache.t3.medium", 84, 3),
    ("cache.r6g.large", 202, 3),
    ("cache.r6g.xlarge", 404, 3),
    ("cache.r7g.large", 263, 3),
    ("cache.m6g.large", 178, 3),
    ("cache.m5.large", 191, 3),
    ("cache.m5.xlarge", 382, 3),
];

/// The hourly price of a broker of each type.
pub const MSK_RATES: [(&'static str, u64, u32); 4] = [
    ("kafka.t3.small", 456, 4),
    ("kafka.m5.large", 213, 3),
    ("kafka.m5.xlarge", 425, 3),
    ("kafka.m5.2xlarge", 85, 2),
];

/// The hourly price of a search instance of each type.
pub const OPENSEARCH_RATES: [(&'static str, u64, u32); 6] = [
    ("t3.small.search", 36, 3),
    ("t3.medium.search", 73, 3),
    ("m5.large.search", 182, 3),
    ("m5.xlarge.search", 365, 3),
    ("r5.large.search", 25, 2),
    ("r5.xlarge.search", 501, 3),
];

/// The hourly price of a document database instance of each type.
pub const DOCUMENTDB_RATES: [(&'static str, u64, u32); 6] = [
    ("db.t3.medium", 76, 3),
    ("db.r5.large", 277, 3),
    ("db.r5.xlarge", 554, 3),
    ("db.r5.2xlarge", 1108, 3),
    ("db.r6g.large", 264, 3),
    ("db.r6g.xlarge", 528, 3),
];

/// The price of a GB-month on a volume of each type.
pub const EBS_RATES: [(&'static str, u64, u32); 8] = [
    ("gp3", 96, 3),
    ("gp2", 12, 2),
    ("st1", 54, 3),
    ("sc1", 18, 3),
    ("io1", 142, 3),
    ("io2", 142, 3),
    ("standard", 1, 1),
    ("magnetic", 1, 1),
];

/// The hourly price of a warehouse node of each type.
pub const REDSHIFT_RATES: [(&'static str, u64, u32); 5] = [
    ("dc2.large", 314, 3),
    ("dc2.8xlarge", 5024, 3),
    ("ra3.xlplus", 1086, 3),
    ("ra3.4xlarge", 3496, 3),
    ("ra3.16xlarge", 13_985, 3),
];

/// The monthly price of each instance bundle.
pub const LIGHTSAIL_RATES: [(&'static str, u64, u32); 7] = [
    ("nano_2_0", 343, 2),
    ("micro_2_0", 5, 0),
    ("small_2_0", 10, 0),
    ("medium_2_0", 20, 0),
    ("large_2_0", 40, 0),
    ("xlarge_2_0", 80, 0),
    ("2xlarge_2_0", 160, 0),
];

/// The hourly price of an index of each edition.
pub const KENDRA_RATES: [(&'static str, u64, u32); 2] = [
    ("DEVELOPER_EDITION", 1125, 3),
    ("ENTERPRISE_EDITION", 14, 1),
];

/// The price of a GB-month of each storage type and deployment.
pub const FSX_STORAGE_RATES: [(&'static str, &'static str, u64, u32); 4] = [
    ("ssd", "single_az", 156, 3),
    ("ssd", "multi_az", 276, 3),
    ("hdd", "single_az", 16, 3),
    ("hdd", "multi_az", 3, 2),
];

/// The price of a MBps-month of each deployment.
pub const FSX_THROUGHPUT_RATES: [(&'static str, u64, u32); 2] = [
    ("single_az", 253, 2),
    ("multi_az", 5175, 3),
];

/// The hourly price of a domain controller of each edition.
pub const DIRECTORY_RATES: [(&'static str, u64, u32); 2] = [
    ("Standard", 73, 3),
    ("Enterprise", 2225, 4),
];

/// The price of a GB-month of warm backup storage of each engine.
pub const BACKUP_RATES: [(&'static str, u64, u32); 5] = [
    ("ebs", 5, 2),
    ("efs", 6, 2),
    ("rds", 95, 3),
    ("aurora", 24, 3),
    ("dynamodb", 114, 3),
];

/// The rate of the first row under `key`.
pub open spec fn rate_in(table: Seq<(&'static str, u64, u32)>, key: Seq<char>) -> Option<Amount>
    decreases table.len(),
{
    if table.len() == 0 {
        None
    } else if table[0].0@ == key {
        Some(decimal(table[0].1, table[0].2))
    } else {
        rate_in(table.drop_first(), key)
    }
}

/// The rate of the first row under two keys.
pub open spec fn pair_rate_in(
    table: Seq<(&'static str, &'static str, u64, u32)>,
    first: Seq<char>,
    second: Seq<char>,
) -> Option<Amount>
    decreases table.len(),
{
    if table.len() == 0 {
        None
    } else if table[0].0@ == first && table[0].1@ == second {
        Some(decimal(table[0].2, table[0].3))
    } else {
        pair_rate_in(table.drop_first(), first, second)
    }
}

/// The rate, or the error that names the service and the region.
pub open spec fn priced(rate: Option<Amount>, service: Seq<char>, region: Seq<char>) -> Result<
    Amount,
    PricingErrorView,
> {
    match rate {
        Some(x) => Ok(x),
        None => Err(PricingErrorView::NotFound { service, region }),
    }
}

/// The rate of the first row under `key`.
pub fn find_rate(table: &[(&'static str, u64, u32)], key: &str) -> (r: Option<Amount>)
    ensures
        r == rate_in(table@, key@),
{
    let ghost all = table@;
    let mut i: usize = 0;
    assert(all.subrange(0, all.len() as int) =~= all);
    while i < table.len()
        invariant
            i <= table@.len(),
            all == table@,
            rate_in(all, key@) == rate_in(all.subrange(i as int, all.len() as int), key@),
        decreases table@.len() - i,
    {
        proof {
            let rest = all.subrange(i as int, all.len() as int);
            assert(rest[0] == all[i as int]);
            assert(rest.drop_first() =~= all.subrange(i + 1, all.len() as int));
        }
        if text_eq(table[i].0, key) {
            return Some(decimal(table[i].1, table[i].2));
        }
        i = i + 1;
    }
    None
}

/// The rate of the first row under two keys.
pub fn find_pair_rate(
    table: &[(&'static str, &'static str, u64, u32)],
    first: &str,
    second: &str,
) -> (r: Option<Amount>)
    ensures
        r == pair_rate_in(table@, first@, second@),
{
    let ghost all = table@;
    let mut i: usize = 0;
    assert(all.subrange(0, all.len() as int) =~= all);
    while i < table.len()
        invariant
            i <= table@.len(),
            all == table@,
            pair_rate_in(all, first@, second@) == pair_rate_in(
                all.subrange(i as int, all.len() as int),
                first@,
                second@,
            ),
        decreases table@.len() - i,
    {
        proof {
            let rest = all.subrange(i as int, all.len() as int);
            assert(rest[0] == all[i as int]);
            assert(rest.drop_first() =~= all.subrange(i + 1, all.len() as int));
        }
        if text_eq(table[i].0, first) && text_eq(table[i].1, second) {
            return Some(decimal(table[i].2, table[i].3));
        }
        i = i + 1;
    }
    None
}

/// A listed rate is found under its key, where no earlier row has the key.
pub proof fn law_listed_rate_is_found(table: Seq<(&'static str, u64, u32)>, i: int)
    requires
        0 <= i < table.len(),
        forall|j: int| 0 <= j < i ==> (#[trigger] table[j]).0@ != table[i].0@,
    ensures
        rate_in(table, table[i].0@) == Some(decimal(table[i].1, table[i].2)),
    decreases table.len(),
{
    if i > 0 {
        let rest = table.drop_first();
        assert(table[0].0@ != table[i].0@);
        assert forall|j: int| 0 <= j < i - 1 implies (#[trigger] rest[j]).0@ != rest[i - 1].0@ by {
            assert(table[j + 1].0@ != table[i].0@);
        }
        law_listed_rate_is_found(rest, i - 1);
    }
}

/// A key that no row has is not found.
pub proof fn law_unlisted_rate_is_not_found(
    table: Seq<(&'static str, u64, u32)>,
    key: Seq<char>,
)
    requires
        forall|j: int| 0 <= j < table.len() ==> (#[trigger] table[j]).0@ != key,
    ensures
        rate_in(table, key) is None,
    decreases table.len(),
{
    if table.len() > 0 {
        let rest = table.drop_first();
        assert(table[0].0@ != key);
        assert forall|j: int| 0 <= j < rest.len() implies (#[trigger] rest[j]).0@ != key by {
            assert(table[j + 1].0@ != key);
        }
        law_unlisted_rate_is_not_found(rest, key);
    }
}

// ---------------------------------------------------------------------------
// Registry
// ---------------------------------------------------------------------------

/// Built-in prices. The prices are those of the Tokyo region; the region that
/// is asked for is named in errors.
#[derive(Debug, PartialEq, Eq)]
pub struct PricingRegistry {
    pub region: String,
}

impl PricingRegistry {
    /// The registry for a region.
    pub fn new(region: &str) -> (r: Self)
        ensures
            r.region@ == region@,
    {
        PricingRegistry { region: region.to_owned() }
    }

    /// The error about a service without a price.
    fn not_found(&self, service: String) -> (r: PricingError)
        ensures
            r@ == (PricingErrorView::NotFound { service: service@, region: self.region@ }),
    {
        PricingError::NotFound { service, region: self.region.clone() }
    }

    /// Look up EC2 on-demand pricing for a given instance type.
    pub fn ec2_price(&self, instance_type: &str) -> (r: Result<Ec2Price, PricingError>)
        ensures
            match r {
                Ok(p) => priced(
                    rate_in(EC2_RATES@, instance_type@),
                    "EC2:"@ + instance_type@,
                    self.region@,
                ) == Ok::<Amount, PricingErrorView>(p.hourly_price)
                    && p.instance_type@ == instance_type@,
                Err(e) => priced(
                    rate_in(EC2_RATES@, instance_type@),
                    "EC2:"@ + instance_type@,
                    self.region@,
                ) == Err::<Amount, PricingErrorView>(e@),
            },
    {
        match find_rate(EC2_RATES.as_slice(), instance_type) {
            Some(x) => Ok(Ec2Price { instance_type: instance_type.to_owned(), hourly_price: x }),
            None => {
                let mut service = "EC2:".to_owned();
                service.append(instance_type);
                Err(self.not_found(service))
            },
        }
    }

    /// EC2 on-demand Windows pricing (USD/hr, ap-northeast-1).
    /// Windows = Linux base + license uplift (~$0.046/vCPU-hr).
    pub fn ec2_windows_hourly_price(&self, instance_type: &str) -> (r: Result<Amount, PricingError>)
        ensures
            crate::pricing::catalog::amount_outcome(r) == priced(
                rate_in(EC2_WINDOWS_RATES@, instance_type@),
                "EC2:Windows:"@ + instance_type@,
                self.region@,
            ),
    {
        match find_rate(EC2_WINDOWS_RATES.as_slice(), instance_type) {
            Some(x) => Ok(x),
            None => {
                let mut service = "EC2:Windows:".to_owned();
                service.append(instance_type);
                Err(self.not_found(service))
            },
        }
    }

    /// AWS Lambda HTTP response streaming processed-bytes price per GB
    /// (ap-northeast-1). Verified $0.008/GiB via the AWS Price List API.
    pub fn lambda_http_stream_gb_price(&self) -> (r: Amount)
        ensures
            r == decimal(8, 3),
    {
        decimal(8, 3)
    }

    /// Lambda pricing for ap-northeast-1.
    pub fn lambda_price(&self) -> (r: LambdaPrice)
        ensures
            r == (LambdaPrice {
                request_price: decimal(2, 7),
                gb_second_price: decimal(166_667, 10),
                free_tier_requests: whole(1_000_000),
                free_tier_gb_seconds: whole(400_000),
            }),
    {
        LambdaPrice {
            request_price: decimal(2, 7),
            gb_second_price: decimal(166_667, 10),
            free_tier_requests: whole(1_000_000),
            free_tier_gb_seconds: whole(400_000),
        }
    }

    /// RDS on-demand pricing for a given instance type.
    pub fn rds_price(&self, instance_type: &str, engine: &str) -> (r: Result<RdsPrice, PricingError>)
        ensures
            match r {
                Ok(p) => priced(
                    pair_rate_in(RDS_RATES@, engine@, instance_type@),
                    "RDS:"@ + engine@ + ":"@ + instance_type@,
                    self.region@,
                ) == Ok::<Amount, PricingErrorView>(p.hourly_price)
                    && p.instance_type@ == instance_type@
                    && p.storage_price_per_gb == decimal(138, 3),
                Err(e) => priced(
                    pair_rate_in(RDS_RATES@, engine@, instance_type@),
                    "RDS:"@ + engine@ + ":"@ + instance_type@,
                    self.region@,
                ) == Err::<Amount, PricingErrorView>(e@),
            },
    {
        match find_pair_rate(RDS_RATES.as_slice(), engine, instance_type) {
            Some(x) => Ok(RdsPrice { instance_type: instance_type.to_owned(), hourly_price: x, storage_price_per_gb: decimal(138, 3) }),
            None => {
                let mut service = "RDS:".to_owned();
                service.append(engine);
                service.append(":");
                service.append(instance_type);
                Err(self.not_found(service))
            },
        }
    }

    /// RDS gp3 storage price per GB-month (ap-northeast-1).
    pub fn rds_gp3_storage_price(&self) -> (r: Amount)
        ensures
            r == decimal(1216, 4),
    {
        decimal(1216, 4)
    }

    /// RDS gp3 excess IOPS price per IOPS-month (ap-northeast-1).
    pub fn rds_gp3_iops_price(&self) -> (r: Amount)
        ensures
            r == decimal(8, 3),
    {
        decimal(8, 3)
    }

    /// S3 Standard pricing for ap-northeast-1.
    pub fn s3_price(&self) -> (r: S3Price)
        ensures
            r.storage_tiers@ == seq![
                S3StorageTier { upper_limit_gb: Some(whole(50_000)), price_per_gb: decimal(25, 3) },
                S3StorageTier { upper_limit_gb: Some(whole(500_000)), price_per_gb: decimal(24, 3) },
                S3StorageTier { upper_limit_gb: None, price_per_gb: decimal(23, 3) },
            ],
            r.put_request_price == decimal(47, 7),
            r.get_request_price == decimal(37, 8),
    {
        let mut tiers: Vec<S3StorageTier> = Vec::new();
        tiers.push(S3StorageTier { upper_limit_gb: Some(whole(50_000)), price_per_gb: decimal(25, 3) });
        tiers.push(S3StorageTier { upper_limit_gb: Some(whole(500_000)), price_per_gb: decimal(24, 3) });
        tiers.push(S3StorageTier { upper_limit_gb: None, price_per_gb: decimal(23, 3) });
        assert(tiers@ =~= seq![
                S3StorageTier { upper_limit_gb: Some(whole(50_000)), price_per_gb: decimal(25, 3) },
                S3StorageTier { upper_limit_gb: Some(whole(500_000)), price_per_gb: decimal(24, 3) },
                S3StorageTier { upper_limit_gb: None, price_per_gb: decimal(23, 3) },
        ]);
        S3Price { storage_tiers: tiers, put_request_price: decimal(47, 7), get_request_price: decimal(37, 8) }
    }

    /// `DynamoDB` on-demand pricing for ap-northeast-1.
    pub fn dynamodb_price(&self) -> (r: DynamoDbPrice)
        ensures
            r == (DynamoDbPrice {
                write_request_price: decimal(715, 9),
                read_request_price: decimal(143, 9),
                wcu_hour_price: decimal(742, 6),
                rcu_hour_price: decimal(1484, 7),
                storage_price_per_gb: decimal(285, 3),
                free_tier_wru: whole(25_000),
                free_tier_rru: whole(25_000),
                free_tier_storage_gb: whole(25),
            }),
    {
        DynamoDbPrice {
            write_request_price: decimal(715, 9),
            read_request_price: decimal(143, 9),
            wcu_hour_price: decimal(742, 6),
            rcu_hour_price: decimal(1484, 7),
            storage_price_per_gb: decimal(285, 3),
            free_tier_wru: whole(25_000),
            free_tier_rru: whole(25_000),
            free_tier_storage_gb: whole(25),
        }
    }

    /// ECS Fargate pricing for ap-northeast-1.
    pub fn fargate_price(&self) -> (r: FargatePrice)
        ensures
            r == (FargatePrice {
                vcpu_hour_price: decimal(5056, 5),
                memory_gb_hour_price: decimal(553, 5),
            }),
    {
        FargatePrice {
            vcpu_hour_price: decimal(5056, 5),
            memory_gb_hour_price: decimal(553, 5),
        }
    }

    /// `OpenSearch` Serverless pricing for ap-northeast-1.
    pub fn opensearch_serverless_price(&self) -> (r: OpenSearchServerlessPrice)
        ensures
            r == (OpenSearchServerlessPrice {
                ocu_hour_price: decimal(334, 3),
                storage_price_per_gb: decimal(26, 3),
            }),
    {
        OpenSearchServerlessPrice {
            ocu_hour_price: decimal(334, 3),
            storage_price_per_gb: decimal(26, 3),
        }
    }

    /// Kinesis Data Streams pricing for ap-northeast-1.
    pub fn kinesis_price(&self) -> (r: KinesisPrice)
        ensures
            r == (KinesisPrice {
                shard_hour_price: decimal(195, 4),
                put_payload_unit_price: decimal(2, 7),
                on_demand_ingestion_price_per_gb: decimal(98, 3),
                on_demand_retrieval_price_per_gb: decimal(34, 3),
                on_demand_stream_hour_price: decimal(52, 3),
            }),
    {
        KinesisPrice {
            shard_hour_price: decimal(195, 4),
            put_payload_unit_price: decimal(2, 7),
            on_demand_ingestion_price_per_gb: decimal(98, 3),
            on_demand_retrieval_price_per_gb: decimal(34, 3),
            on_demand_stream_hour_price: decimal(52, 3),
        }
    }

    /// SQS pricing for ap-northeast-1.
    pub fn sqs_price(&self) -> (r: SqsPrice)
        ensures
            r == (SqsPrice {
                standard_request_price: decimal(4, 7),
                fifo_request_price: decimal(5, 7),
                free_tier_requests: whole(1_000_000),
            }),
    {
        SqsPrice {
            standard_request_price: decimal(4, 7),
            fifo_request_price: decimal(5, 7),
            free_tier_requests: whole(1_000_000),
        }
    }

    /// `CloudWatch` custom metric price per metric per month (ap-northeast-1).
    /// First 10,000 metrics are $0.30 each; used by Container Insights.
    pub fn cloudwatch_custom_metric_month_price(&self) -> (r: Amount)
        ensures
            r == decimal(3, 1),
    {
        decimal(3, 1)
    }

    /// `CloudWatch` Logs pricing for ap-northeast-1.
    pub fn cloudwatch_logs_price(&self) -> (r: CloudWatchLogsPrice)
        ensures
            r == (CloudWatchLogsPrice {
                ingestion_price_per_gb: decimal(76, 2),
                storage_price_per_gb: decimal(33, 3),
                free_tier_ingestion_gb: whole(5),
                free_tier_storage_gb: whole(5),
            }),
    {
        CloudWatchLogsPrice {
            ingestion_price_per_gb: decimal(76, 2),
            storage_price_per_gb: decimal(33, 3),
            free_tier_ingestion_gb: whole(5),
            free_tier_storage_gb: whole(5),
        }
    }

    /// API Gateway pricing for ap-northeast-1.
    pub fn api_gateway_price(&self) -> (r: ApiGatewayPrice)
        ensures
            r == (ApiGatewayPrice {
                rest_api_request_price: decimal(435, 8),
                http_api_request_price: decimal(12, 7),
                free_tier_requests: whole(1_000_000),
            }),
    {
        ApiGatewayPrice {
            rest_api_request_price: decimal(435, 8),
            http_api_request_price: decimal(12, 7),
            free_tier_requests: whole(1_000_000),
        }
    }

    /// NAT Gateway pricing for ap-northeast-1.
    pub fn nat_gateway_price(&self) -> (r: NatGatewayPrice)
        ensures
            r == (NatGatewayPrice {
                hourly_price: decimal(62, 3),
                data_processing_price_per_gb: decimal(62, 3),
            }),
    {
        NatGatewayPrice {
            hourly_price: decimal(62, 3),
            data_processing_price_per_gb: decimal(62, 3),
        }
    }

    /// `CloudFront` pricing for ap-northeast-1 (Japan edge).
    pub fn cloudfront_price(&self) -> (r: CloudFrontPrice)
        ensures
            r == (CloudFrontPrice {
                request_price_per_10k: decimal(12, 3),
                data_transfer_price_per_gb: decimal(114, 3),
                free_tier_data_transfer_gb: whole(1000),
            }),
    {
        CloudFrontPrice {
            request_price_per_10k: decimal(12, 3),
            data_transfer_price_per_gb: decimal(114, 3),
            free_tier_data_transfer_gb: whole(1000),
        }
    }

    /// `ElastiCache` pricing for ap-northeast-1.
    pub fn elasticache_price(&self, node_type: &str) -> (r: Result<ElastiCachePrice, PricingError>)
        ensures
            match r {
                Ok(p) => priced(
                    rate_in(ELASTICACHE_RATES@, node_type@),
                    "ElastiCache:"@ + node_type@,
                    self.region@,
                ) == Ok::<Amount, PricingErrorView>(p.hourly_price)
                    && p.node_type@ == node_type@,
                Err(e) => priced(
                    rate_in(ELASTICACHE_RATES@, node_type@),
                    "ElastiCache:"@ + node_type@,
                    self.region@,
                ) == Err::<Amount, PricingErrorView>(e@),
            },
    {
        match find_rate(ELASTICACHE_RATES.as_slice(), node_type) {
            Some(x) => Ok(ElastiCachePrice { node_type: node_type.to_owned(), hourly_price: x }),
            None => {
                let mut service = "ElastiCache:".to_owned();
                service.append(node_type);
                Err(self.not_found(service))
            },
        }
    }

    /// Step Functions pricing for ap-northeast-1.
    pub fn step_functions_price(&self) -> (r: StepFunctionsPrice)
        ensures
            r == (StepFunctionsPrice {
                standard_transition_price: decimal(25, 6),
                express_request_price: decimal(1, 6),
                express_duration_price_per_gb_second: decimal(1667, 8),
                free_tier_transitions: whole(4000),
            }),
    {
        StepFunctionsPrice {
            standard_transition_price: decimal(25, 6),
            express_request_price: decimal(1, 6),
            express_duration_price_per_gb_second: decimal(1667, 8),
            free_tier_transitions: whole(4000),
        }
    }

    /// `EventBridge` Scheduler pricing for ap-northeast-1.
    pub fn eventbridge_scheduler_price(&self) -> (r: EventBridgeSchedulerPrice)
        ensures
            r == (EventBridgeSchedulerPrice {
                invocation_price: decimal(106, 8),
                free_tier_invocations: whole(14_000_000),
            }),
    {
        EventBridgeSchedulerPrice {
            invocation_price: decimal(106, 8),
            free_tier_invocations: whole(14_000_000),
        }
    }

    /// Internet egress data transfer pricing for ap-northeast-1.
    pub fn data_transfer_price(&self) -> (r: DataTransferPrice)
        ensures
            r.egress_tiers@ == seq![
                DataTransferTier { upper_limit_gb: Some(whole(1)), price_per_gb: whole(0) },
                DataTransferTier { upper_limit_gb: Some(whole(10_240)), price_per_gb: decimal(114, 3) },
                DataTransferTier { upper_limit_gb: Some(whole(51_200)), price_per_gb: decimal(89, 3) },
                DataTransferTier { upper_limit_gb: Some(whole(153_600)), price_per_gb: decimal(86, 3) },
                DataTransferTier { upper_limit_gb: None, price_per_gb: decimal(84, 3) },
            ],
    {
        let mut tiers: Vec<DataTransferTier> = Vec::new();
        tiers.push(DataTransferTier { upper_limit_gb: Some(whole(1)), price_per_gb: whole(0) });
        tiers.push(DataTransferTier { upper_limit_gb: Some(whole(10_240)), price_per_gb: decimal(114, 3) });
        tiers.push(DataTransferTier { upper_limit_gb: Some(whole(51_200)), price_per_gb: decimal(89, 3) });
        tiers.push(DataTransferTier { upper_limit_gb: Some(whole(153_600)), price_per_gb: decimal(86, 3) });
        tiers.push(DataTransferTier { upper_limit_gb: None, price_per_gb: decimal(84, 3) });
        assert(tiers@ =~= seq![
                DataTransferTier { upper_limit_gb: Some(whole(1)), price_per_gb: whole(0) },
                DataTransferTier { upper_limit_gb: Some(whole(10_240)), price_per_gb: decimal(114, 3) },
                DataTransferTier { upper_limit_gb: Some(whole(51_200)), price_per_gb: decimal(89, 3) },
                DataTransferTier { upper_limit_gb: Some(whole(153_600)), price_per_gb: decimal(86, 3) },
                DataTransferTier { upper_limit_gb: None, price_per_gb: decimal(84, 3) },
        ]);
        DataTransferPrice { egress_tiers: tiers }
    }

    /// AWS Batch pricing for ap-northeast-1.
    pub fn batch_price(&self) -> (r: BatchPrice)
        ensures
            r == (BatchPrice {
                fargate_vcpu_hour_price: decimal(5056, 5),
                fargate_memory_gb_hour_price: decimal(553, 5),
                fargate_ephemeral_storage_gb_hour_price: decimal(111, 6),
                fargate_ephemeral_free_gb: whole(20),
                ebs_gp3_gb_month_price: decimal(96, 3),
                ebs_gp3_iops_month_price: decimal(6, 3),
                ebs_gp3_iops_free: whole(3000),
                ebs_gp3_throughput_mibps_month_price: decimal(48, 3),
                ebs_gp3_throughput_free_mibps: whole(125),
            }),
    {
        BatchPrice {
            fargate_vcpu_hour_price: decimal(5056, 5),
            fargate_memory_gb_hour_price: decimal(553, 5),
            fargate_ephemeral_storage_gb_hour_price: decimal(111, 6),
            fargate_ephemeral_free_gb: whole(20),
            ebs_gp3_gb_month_price: decimal(96, 3),
            ebs_gp3_iops_month_price: decimal(6, 3),
            ebs_gp3_iops_free: whole(3000),
            ebs_gp3_throughput_mibps_month_price: decimal(48, 3),
            ebs_gp3_throughput_free_mibps: whole(125),
        }
    }

    /// What alb costs.
    pub fn alb_price(&self) -> (r: AlbPrice)
        ensures
            r == (AlbPrice {
                alb_hour_price: decimal(243, 4),
                lcu_hour_price: decimal(8, 3),
            }),
    {
        AlbPrice {
            alb_hour_price: decimal(243, 4),
            lcu_hour_price: decimal(8, 3),
        }
    }

    /// What sns costs.
    pub fn sns_price(&self) -> (r: SnsPrice)
        ensures
            r == (SnsPrice {
                delivery_price_per_million: decimal(5, 1),
                free_tier_deliveries: whole(1_000_000),
            }),
    {
        SnsPrice {
            delivery_price_per_million: decimal(5, 1),
            free_tier_deliveries: whole(1_000_000),
        }
    }

    /// What eks costs.
    pub fn eks_price(&self) -> (r: EksPrice)
        ensures
            r == (EksPrice {
                cluster_hour_price: decimal(1, 1),
            }),
    {
        EksPrice {
            cluster_hour_price: decimal(1, 1),
        }
    }

    /// What firehose costs.
    pub fn firehose_price(&self) -> (r: FirehosePrice)
        ensures
            r == (FirehosePrice {
                ingestion_price_per_gb: decimal(31, 3),
            }),
    {
        FirehosePrice {
            ingestion_price_per_gb: decimal(31, 3),
        }
    }

    /// What secrets manager costs.
    pub fn secrets_manager_price(&self) -> (r: SecretsManagerPrice)
        ensures
            r == (SecretsManagerPrice {
                secret_month_price: decimal(4, 1),
                api_call_price_per_10k: decimal(5, 2),
            }),
    {
        SecretsManagerPrice {
            secret_month_price: decimal(4, 1),
            api_call_price_per_10k: decimal(5, 2),
        }
    }

    /// What waf costs.
    pub fn waf_price(&self) -> (r: WafPrice)
        ensures
            r == (WafPrice {
                web_acl_month_price: whole(5),
                rule_month_price: whole(1),
                request_price_per_million: decimal(6, 1),
            }),
    {
        WafPrice {
            web_acl_month_price: whole(5),
            rule_month_price: whole(1),
            request_price_per_million: decimal(6, 1),
        }
    }

    /// What efs costs.
    pub fn efs_price(&self) -> (r: EfsPrice)
        ensures
            r == (EfsPrice {
                standard_gb_month_price: decimal(36, 2),
                ia_gb_month_price: decimal(272, 4),
                ia_access_price_per_gb: decimal(1, 2),
            }),
    {
        EfsPrice {
            standard_gb_month_price: decimal(36, 2),
            ia_gb_month_price: decimal(272, 4),
            ia_access_price_per_gb: decimal(1, 2),
        }
    }

    /// What eventbridge costs.
    pub fn eventbridge_price(&self) -> (r: EventBridgePrice)
        ensures
            r == (EventBridgePrice {
                custom_event_price_per_million: whole(1),
            }),
    {
        EventBridgePrice {
            custom_event_price_per_million: whole(1),
        }
    }

    /// What athena costs.
    pub fn athena_price(&self) -> (r: AthenaPrice)
        ensures
            r == (AthenaPrice {
                scan_price_per_tb: whole(5),
            }),
    {
        AthenaPrice {
            scan_price_per_tb: whole(5),
        }
    }

    /// Amazon Bedrock on-demand input token price per 1,000 tokens
    /// (ap-northeast-1; uniform across regions).
    pub fn bedrock_input_token_price_per_1k(&self) -> (r: Amount)
        ensures
            r == decimal(3, 3),
    {
        decimal(3, 3)
    }

    /// Amazon Bedrock on-demand output token price per 1,000 tokens
    /// (ap-northeast-1; uniform across regions).
    pub fn bedrock_output_token_price_per_1k(&self) -> (r: Amount)
        ensures
            r == decimal(15, 3),
    {
        decimal(15, 3)
    }

    /// What ecr costs.
    pub fn ecr_price(&self) -> (r: EcrPrice)
        ensures
            r == (EcrPrice {
                private_storage_gb_month: decimal(1, 1),
            }),
    {
        EcrPrice {
            private_storage_gb_month: decimal(1, 1),
        }
    }

    /// What appsync costs.
    pub fn appsync_price(&self) -> (r: AppSyncPrice)
        ensures
            r == (AppSyncPrice {
                operation_price_per_million: whole(4),
                free_tier_operations: whole(250_000),
            }),
    {
        AppSyncPrice {
            operation_price_per_million: whole(4),
            free_tier_operations: whole(250_000),
        }
    }

    /// What cognito costs.
    pub fn cognito_price(&self) -> (r: CognitoPrice)
        ensures
            r == (CognitoPrice {
                free_tier_mau: whole(50_000),
                tier1_price: decimal(55, 4),
                tier2_price: decimal(46, 4),
                tier3_price: decimal(325, 5),
            }),
    {
        CognitoPrice {
            free_tier_mau: whole(50_000),
            tier1_price: decimal(55, 4),
            tier2_price: decimal(46, 4),
            tier3_price: decimal(325, 5),
        }
    }

    /// What route53 costs.
    pub fn route53_price(&self) -> (r: Route53Price)
        ensures
            r == (Route53Price {
                hosted_zone_month_price: decimal(5, 1),
                query_price_per_million: decimal(4, 1),
            }),
    {
        Route53Price {
            hosted_zone_month_price: decimal(5, 1),
            query_price_per_million: decimal(4, 1),
        }
    }

    /// What glue costs.
    pub fn glue_price(&self) -> (r: GluePrice)
        ensures
            r == (GluePrice {
                standard_dpu_hour_price: decimal(44, 2),
                flex_dpu_hour_price: decimal(29, 2),
            }),
    {
        GluePrice {
            standard_dpu_hour_price: decimal(44, 2),
            flex_dpu_hour_price: decimal(29, 2),
        }
    }

    /// What msk broker costs.
    pub fn msk_broker_price(&self, broker_type: &str) -> (r: Result<MskBrokerPrice, PricingError>)
        ensures
            match r {
                Ok(p) => priced(
                    rate_in(MSK_RATES@, broker_type@),
                    "MSK:"@ + broker_type@,
                    self.region@,
                ) == Ok::<Amount, PricingErrorView>(p.hourly_price)
                    && p.storage_gb_month_price == decimal(114, 3),
                Err(e) => priced(
                    rate_in(MSK_RATES@, broker_type@),
                    "MSK:"@ + broker_type@,
                    self.region@,
                ) == Err::<Amount, PricingErrorView>(e@),
            },
    {
        match find_rate(MSK_RATES.as_slice(), broker_type) {
            Some(x) => Ok(MskBrokerPrice { hourly_price: x, storage_gb_month_price: decimal(114, 3) }),
            None => {
                let mut service = "MSK:".to_owned();
                service.append(broker_type);
                Err(self.not_found(service))
            },
        }
    }

    /// What opensearch service costs.
    pub fn opensearch_service_price(&self, instance_type: &str) -> (r: Result<OpenSearchServicePrice, PricingError>)
        ensures
            match r {
                Ok(p) => priced(
                    rate_in(OPENSEARCH_RATES@, instance_type@),
                    "OpenSearch:"@ + instance_type@,
                    self.region@,
                ) == Ok::<Amount, PricingErrorView>(p.instance_hour_price)
                    && p.gp2_storage_gb_month_price == decimal(135, 3),
                Err(e) => priced(
                    rate_in(OPENSEARCH_RATES@, instance_type@),
                    "OpenSearch:"@ + instance_type@,
                    self.region@,
                ) == Err::<Amount, PricingErrorView>(e@),
            },
    {
        match find_rate(OPENSEARCH_RATES.as_slice(), instance_type) {
            Some(x) => Ok(OpenSearchServicePrice { instance_hour_price: x, gp2_storage_gb_month_price: decimal(135, 3) }),
            None => {
                let mut service = "OpenSearch:".to_owned();
                service.append(instance_type);
                Err(self.not_found(service))
            },
        }
    }

    /// What documentdb costs.
    pub fn documentdb_price(&self, instance_type: &str) -> (r: Result<DocumentDbPrice, PricingError>)
        ensures
            match r {
                Ok(p) => priced(
                    rate_in(DOCUMENTDB_RATES@, instance_type@),
                    "DocumentDB:"@ + instance_type@,
                    self.region@,
                ) == Ok::<Amount, PricingErrorView>(p.instance_hour_price)
                    && p.storage_gb_month_price == decimal(11, 2),
                Err(e) => priced(
                    rate_in(DOCUMENTDB_RATES@, instance_type@),
                    "DocumentDB:"@ + instance_type@,
                    self.region@,
                ) == Err::<Amount, PricingErrorView>(e@),
            },
    {
        match find_rate(DOCUMENTDB_RATES.as_slice(), instance_type) {
            Some(x) => Ok(DocumentDbPrice { instance_hour_price: x, storage_gb_month_price: decimal(11, 2) }),
            None => {
                let mut service = "DocumentDB:".to_owned();
                service.append(instance_type);
                Err(self.not_found(service))
            },
        }
    }

    /// What documentdb storage costs.
    pub fn documentdb_storage_price(&self) -> (r: Amount)
        ensures
            r == decimal(11, 2),
    {
        decimal(11, 2)
    }

    /// Standalone Amazon EBS volume price per GB-month by volume type (ap-northeast-1).
    pub fn ebs_gb_month_price(&self, volume_type: &str) -> (r: Result<Amount, PricingError>)
        ensures
            crate::pricing::catalog::amount_outcome(r) == priced(
                rate_in(EBS_RATES@, volume_type@),
                "EBS:"@ + volume_type@,
                self.region@,
            ),
    {
        match find_rate(EBS_RATES.as_slice(), volume_type) {
            Some(x) => Ok(x),
            None => {
                let mut service = "EBS:".to_owned();
                service.append(volume_type);
                Err(self.not_found(service))
            },
        }
    }

    /// Amazon EBS snapshot storage price per GB-month (ap-northeast-1).
    pub fn ebs_snapshot_gb_month_price(&self) -> (r: Amount)
        ensures
            r == decimal(5, 2),
    {
        decimal(5, 2)
    }

    /// Site-to-Site VPN connection price per hour (ap-northeast-1).
    pub fn site_to_site_vpn_connection_hour_price(&self) -> (r: Amount)
        ensures
            r == decimal(48, 3),
    {
        decimal(48, 3)
    }

    /// `Redshift` managed/cluster storage price per GB-month (ap-northeast-1).
    pub fn redshift_storage_gb_month_price(&self) -> (r: Amount)
        ensures
            r == decimal(261, 4),
    {
        decimal(261, 4)
    }

    /// `Redshift` Spectrum scan price per TB scanned (ap-northeast-1).
    pub fn redshift_spectrum_tb_scan_price(&self) -> (r: Amount)
        ensures
            r == whole(5),
    {
        whole(5)
    }

    /// What redshift costs.
    pub fn redshift_price(&self, node_type: &str) -> (r: Result<RedshiftPrice, PricingError>)
        ensures
            match r {
                Ok(p) => priced(
                    rate_in(REDSHIFT_RATES@, node_type@),
                    "Redshift:"@ + node_type@,
                    self.region@,
                ) == Ok::<Amount, PricingErrorView>(p.node_hour_price),
                Err(e) => priced(
                    rate_in(REDSHIFT_RATES@, node_type@),
                    "Redshift:"@ + node_type@,
                    self.region@,
                ) == Err::<Amount, PricingErrorView>(e@),
            },
    {
        match find_rate(REDSHIFT_RATES.as_slice(), node_type) {
            Some(x) => Ok(RedshiftPrice { node_hour_price: x }),
            None => {
                let mut service = "Redshift:".to_owned();
                service.append(node_type);
                Err(self.not_found(service))
            },
        }
    }

    /// `Lightsail` pricing for ap-northeast-1 (Japan).
    pub fn lightsail_price(&self) -> (r: LightsailPrice)
        ensures
            r == (LightsailPrice {
                instance_bundle_month_price: decimal(343, 2),
                disk_gb_month_price: decimal(1, 1),
            }),
    {
        LightsailPrice {
            instance_bundle_month_price: decimal(343, 2),
            disk_gb_month_price: decimal(1, 1),
        }
    }

    /// `Lightsail` Linux/Unix instance bundle price per month by bundle id
    /// (ap-northeast-1). The classic plan ladder; unknown bundles are
    /// unsupported (so a template's plan is never silently priced as nano).
    pub fn lightsail_bundle_month_price(&self, bundle_id: &str) -> (r: Result<Amount, PricingError>)
        ensures
            crate::pricing::catalog::amount_outcome(r) == priced(
                rate_in(LIGHTSAIL_RATES@, bundle_id@),
                "Lightsail:bundle:"@ + bundle_id@,
                self.region@,
            ),
    {
        match find_rate(LIGHTSAIL_RATES.as_slice(), bundle_id) {
            Some(x) => Ok(x),
            None => {
                let mut service = "Lightsail:bundle:".to_owned();
                service.append(bundle_id);
                Err(self.not_found(service))
            },
        }
    }

    /// `QuickSight` pricing for ap-northeast-1 (Japan).
    /// Reference: <https://aws.amazon.com/jp/quicksight/pricing/>
    pub fn quicksight_price(&self) -> (r: QuickSightPrice)
        ensures
            r == (QuickSightPrice {
                creator_month_price: whole(24),
                creator_annual_month_price: whole(18),
                viewer_session_price: decimal(3, 1),
                viewer_max_month_price: whole(5),
                spice_gb_month_price: decimal(38, 2),
                free_spice_gb: whole(10),
            }),
    {
        QuickSightPrice {
            creator_month_price: whole(24),
            creator_annual_month_price: whole(18),
            viewer_session_price: decimal(3, 1),
            viewer_max_month_price: whole(5),
            spice_gb_month_price: decimal(38, 2),
            free_spice_gb: whole(10),
        }
    }

    /// Amazon Kendra Developer Edition index price per hour (ap-northeast-1).
    /// Billed continuously; multiply by 730h/mo at the service layer.
    pub fn kendra_index_hour_price(&self, edition: &str) -> (r: Result<Amount, PricingError>)
        ensures
            crate::pricing::catalog::amount_outcome(r) == priced(
                rate_in(KENDRA_RATES@, edition@),
                "Kendra:"@ + edition@,
                self.region@,
            ),
    {
        match find_rate(KENDRA_RATES.as_slice(), edition) {
            Some(x) => Ok(x),
            None => {
                let mut service = "Kendra:".to_owned();
                service.append(edition);
                Err(self.not_found(service))
            },
        }
    }

    /// Amazon Kendra connector document-scan price per document (ap-northeast-1).
    /// $1.00 per 1M documents scanned = $0.000001/document.
    pub fn kendra_connector_scan_document_price(&self) -> (r: Amount)
        ensures
            r == decimal(1, 6),
    {
        decimal(1, 6)
    }

    /// Amazon Kendra connector sync (scan) compute price per hour (ap-northeast-1).
    pub fn kendra_connector_scan_hour_price(&self) -> (r: Amount)
        ensures
            r == decimal(35, 2),
    {
        decimal(35, 2)
    }

    /// Amazon Transcribe standard batch transcription price per minute
    /// (ap-northeast-1, Tier 1: first 250K minutes/month).
    pub fn transcribe_standard_batch_price_per_minute(&self) -> (r: Amount)
        ensures
            r == decimal(24, 3),
    {
        decimal(24, 3)
    }

    /// Amazon FSx for Windows File Server storage price per GB-month
    /// (ap-northeast-1), by storage type (`ssd`/`hdd`) and deployment option
    /// (`single_az`/`multi_az`).
    pub fn fsx_windows_storage_gb_month_price(&self, storage_type: &str, deployment: &str) -> (r: Result<Amount, PricingError>)
        ensures
            crate::pricing::catalog::amount_outcome(r) == priced(
                pair_rate_in(FSX_STORAGE_RATES@, storage_type@, deployment@),
                "FSxWindows:storage:"@ + storage_type@ + ":"@ + deployment@,
                self.region@,
            ),
    {
        match find_pair_rate(FSX_STORAGE_RATES.as_slice(), storage_type, deployment) {
            Some(x) => Ok(x),
            None => {
                let mut service = "FSxWindows:storage:".to_owned();
                service.append(storage_type);
                service.append(":");
                service.append(deployment);
                Err(self.not_found(service))
            },
        }
    }

    /// Amazon FSx for Windows File Server throughput capacity price per
    /// MBps-month (ap-northeast-1), by deployment option.
    pub fn fsx_windows_throughput_mbps_month_price(&self, deployment: &str) -> (r: Result<Amount, PricingError>)
        ensures
            crate::pricing::catalog::amount_outcome(r) == priced(
                rate_in(FSX_THROUGHPUT_RATES@, deployment@),
                "FSxWindows:throughput:"@ + deployment@,
                self.region@,
            ),
    {
        match find_rate(FSX_THROUGHPUT_RATES.as_slice(), deployment) {
            Some(x) => Ok(x),
            None => {
                let mut service = "FSxWindows:throughput:".to_owned();
                service.append(deployment);
                Err(self.not_found(service))
            },
        }
    }

    /// Amazon FSx for Windows File Server backup storage price per GB-month
    /// (ap-northeast-1). Identical for Single-AZ and Multi-AZ.
    pub fn fsx_windows_backup_gb_month_price(&self) -> (r: Amount)
        ensures
            r == decimal(5, 2),
    {
        decimal(5, 2)
    }

    /// AWS Directory Service for Microsoft Active Directory (AWS Managed
    /// Microsoft AD) price per domain-controller-hour, by edition
    /// (ap-northeast-1). Source: AWS Price List API (AWSDirectoryService,
    /// region ap-northeast-1) — usagetype `APN1-Std-MicrosoftAD-DC-Usage`
    /// (Standard) and `APN1-MicrosoftAD-DC-Usage` (Enterprise).
    pub fn directory_service_dc_hour_price(&self, edition: &str) -> (r: Result<Amount, PricingError>)
        ensures
            crate::pricing::catalog::amount_outcome(r) == priced(
                rate_in(DIRECTORY_RATES@, edition@),
                "DirectoryService:MicrosoftAD:"@ + edition@,
                self.region@,
            ),
    {
        match find_rate(DIRECTORY_RATES.as_slice(), edition) {
            Some(x) => Ok(x),
            None => {
                let mut service = "DirectoryService:MicrosoftAD:".to_owned();
                service.append(edition);
                Err(self.not_found(service))
            },
        }
    }

    /// `CloudWatch` standard-resolution alarm price per alarm per month (ap-northeast-1).
    pub fn cloudwatch_alarm_month_price(&self) -> (r: Amount)
        ensures
            r == decimal(1, 1),
    {
        decimal(1, 1)
    }

    /// Amazon GuardDuty pricing for ap-northeast-1 (Tokyo).
    /// Source: AWS Price List API, offer `AmazonGuardDuty`, region
    /// `ap-northeast-1` (published 2026-01-20).
    pub fn guardduty_price(&self) -> (r: GuardDutyPrice)
        ensures
            r.flowlog_dns_gb_tiers@ == seq![
                GuardDutyTier { upper_limit_gb: Some(whole(500)), price_per_gb: decimal(118, 2) },
                GuardDutyTier { upper_limit_gb: Some(whole(2500)), price_per_gb: decimal(59, 2) },
                GuardDutyTier { upper_limit_gb: Some(whole(10_000)), price_per_gb: decimal(29, 2) },
                GuardDutyTier { upper_limit_gb: None, price_per_gb: decimal(17, 2) },
            ],
            r.cloudtrail_event_price == decimal(472, 8),
    {
        let mut tiers: Vec<GuardDutyTier> = Vec::new();
        tiers.push(GuardDutyTier { upper_limit_gb: Some(whole(500)), price_per_gb: decimal(118, 2) });
        tiers.push(GuardDutyTier { upper_limit_gb: Some(whole(2500)), price_per_gb: decimal(59, 2) });
        tiers.push(GuardDutyTier { upper_limit_gb: Some(whole(10_000)), price_per_gb: decimal(29, 2) });
        tiers.push(GuardDutyTier { upper_limit_gb: None, price_per_gb: decimal(17, 2) });
        assert(tiers@ =~= seq![
                GuardDutyTier { upper_limit_gb: Some(whole(500)), price_per_gb: decimal(118, 2) },
                GuardDutyTier { upper_limit_gb: Some(whole(2500)), price_per_gb: decimal(59, 2) },
                GuardDutyTier { upper_limit_gb: Some(whole(10_000)), price_per_gb: decimal(29, 2) },
                GuardDutyTier { upper_limit_gb: None, price_per_gb: decimal(17, 2) },
        ]);
        GuardDutyPrice { flowlog_dns_gb_tiers: tiers, cloudtrail_event_price: decimal(472, 8) }
    }

    /// AWS CloudTrail data-event delivery price per 100,000 events (ap-northeast-1).
    /// Management-event delivery: first copy per region is free; additional
    /// copies are $2.00 per 100,000 events (uniform across regions).
    pub fn cloudtrail_data_event_price_per_100k(&self) -> (r: Amount)
        ensures
            r == decimal(1, 1),
    {
        decimal(1, 1)
    }

    /// AWS CloudTrail additional management-event copy price per 100,000 events.
    pub fn cloudtrail_management_event_copy_price_per_100k(&self) -> (r: Amount)
        ensures
            r == whole(2),
    {
        whole(2)
    }

    /// AWS Backup warm (backup) storage price per GB-month by protected-resource
    /// engine (ap-northeast-1). Source: AWS Bulk Pricing API (AWSBackup,
    /// `APN1-WarmStorage-ByteHrs-*`) and the AWS Backup pricing page. EBS warm
    /// storage is billed at the EBS snapshot rate ($0.05/GB-mo); RDS at the RDS
    /// backup-storage rate ($0.095/GB-mo); Aurora at $0.024/GB-mo; EFS $0.06;
    /// DynamoDB $0.114.
    pub fn backup_warm_storage_gb_month_price(&self, engine: &str) -> (r: Result<Amount, PricingError>)
        ensures
            crate::pricing::catalog::amount_outcome(r) == priced(
                rate_in(BACKUP_RATES@, engine@),
                "Backup:"@ + engine@,
                self.region@,
            ),
    {
        match find_rate(BACKUP_RATES.as_slice(), engine) {
            Some(x) => Ok(x),
            None => {
                let mut service = "Backup:".to_owned();
                service.append(engine);
                Err(self.not_found(service))
            },
        }
    }

    /// Standalone inter-region data transfer price per GB (ap-northeast-1 ->
    /// e.g. ap-northeast-3 Osaka). Source: AWS data transfer pricing.
    pub fn data_transfer_inter_region_price_per_gb(&self) -> (r: Amount)
        ensures
            r == decimal(9, 2),
    {
        decimal(9, 2)
    }
}

} // verus!
