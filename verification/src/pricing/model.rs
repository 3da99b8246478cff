//! What services cost.

use vstd::prelude::*;

use crate::amount::Amount;
use crate::strmap::StrMap;

verus! {

/// Pricing data for a single AWS service in a specific region.
#[derive(Debug, PartialEq, Eq)]
pub struct ServicePricing {
    pub service: String,
    pub region: String,
    pub products: Vec<Product>,
}

/// A single product (e.g., a specific EC2 instance type).
#[derive(Debug, PartialEq, Eq)]
pub struct Product {
    pub sku: String,
    pub attributes: StrMap<String>,
    pub prices: Vec<PriceEntry>,
}

/// A price entry for a product.
#[derive(Debug, PartialEq, Eq)]
pub struct PriceEntry {
    pub unit: String,
    pub price_per_unit: Amount,
    pub description: String,
    /// For tiered pricing, the begin/end range.
    pub begin_range: Option<Amount>,
    pub end_range: Option<Amount>,
}

/// EC2 instance prices.
#[derive(Debug, PartialEq, Eq)]
pub struct Ec2Price {
    pub instance_type: String,
    pub hourly_price: Amount,
}

/// Lambda prices.
#[derive(Debug, Clone, Copy, PartialEq, Eq, Structural)]
pub struct LambdaPrice {
    pub request_price: Amount,
    pub gb_second_price: Amount,
    pub free_tier_requests: Amount,
    pub free_tier_gb_seconds: Amount,
}

/// RDS instance prices.
#[derive(Debug, PartialEq, Eq)]
pub struct RdsPrice {
    pub instance_type: String,
    pub hourly_price: Amount,
    pub storage_price_per_gb: Amount,
}

/// S3 storage pricing tiers.
#[derive(Debug, PartialEq, Eq)]
pub struct S3Price {
    pub storage_tiers: Vec<S3StorageTier>,
    pub put_request_price: Amount,
    pub get_request_price: Amount,
}

/// One tier of an S3 storage price.
#[derive(Debug, Clone, Copy, PartialEq, Eq, Structural)]
pub struct S3StorageTier {
    pub upper_limit_gb: Option<Amount>,
    pub price_per_gb: Amount,
}

/// `DynamoDB` pricing.
#[derive(Debug, Clone, Copy, PartialEq, Eq, Structural)]
pub struct DynamoDbPrice {
    // On-Demand (PAY_PER_REQUEST)
    pub write_request_price: Amount,
    pub read_request_price: Amount,
    // Provisioned
    pub wcu_hour_price: Amount,
    pub rcu_hour_price: Amount,
    // Common
    pub storage_price_per_gb: Amount,
    pub free_tier_wru: Amount,
    pub free_tier_rru: Amount,
    pub free_tier_storage_gb: Amount,
}

/// ECS Fargate pricing.
#[derive(Debug, Clone, Copy, PartialEq, Eq, Structural)]
pub struct FargatePrice {
    pub vcpu_hour_price: Amount,
    pub memory_gb_hour_price: Amount,
}

/// `OpenSearch` Serverless pricing.
#[derive(Debug, Clone, Copy, PartialEq, Eq, Structural)]
pub struct OpenSearchServerlessPrice {
    pub ocu_hour_price: Amount,
    pub storage_price_per_gb: Amount,
}

/// Kinesis Data Streams pricing.
#[derive(Debug, Clone, Copy, PartialEq, Eq, Structural)]
pub struct KinesisPrice {
    // Provisioned mode
    pub shard_hour_price: Amount,
    pub put_payload_unit_price: Amount,
    // On-Demand mode
    pub on_demand_ingestion_price_per_gb: Amount,
    pub on_demand_retrieval_price_per_gb: Amount,
    pub on_demand_stream_hour_price: Amount,
}

/// SQS pricing.
#[derive(Debug, Clone, Copy, PartialEq, Eq, Structural)]
pub struct SqsPrice {
    pub standard_request_price: Amount,
    pub fifo_request_price: Amount,
    pub free_tier_requests: Amount,
}

/// `CloudWatch` Logs pricing.
#[derive(Debug, Clone, Copy, PartialEq, Eq, Structural)]
pub struct CloudWatchLogsPrice {
    pub ingestion_price_per_gb: Amount,
    pub storage_price_per_gb: Amount,
    pub free_tier_ingestion_gb: Amount,
    pub free_tier_storage_gb: Amount,
}

/// API Gateway (REST/HTTP) pricing.
#[derive(Debug, Clone, Copy, PartialEq, Eq, Structural)]
pub struct ApiGatewayPrice {
    pub rest_api_request_price: Amount,
    pub http_api_request_price: Amount,
    pub free_tier_requests: Amount,
}

/// NAT Gateway pricing.
#[derive(Debug, Clone, Copy, PartialEq, Eq, Structural)]
pub struct NatGatewayPrice {
    pub hourly_price: Amount,
    pub data_processing_price_per_gb: Amount,
}

/// `CloudFront` pricing.
#[derive(Debug, Clone, Copy, PartialEq, Eq, Structural)]
pub struct CloudFrontPrice {
    pub request_price_per_10k: Amount,
    pub data_transfer_price_per_gb: Amount,
    pub free_tier_data_transfer_gb: Amount,
}

/// `ElastiCache` pricing.
#[derive(Debug, PartialEq, Eq)]
pub struct ElastiCachePrice {
    pub node_type: String,
    pub hourly_price: Amount,
}

/// Step Functions pricing.
#[derive(Debug, Clone, Copy, PartialEq, Eq, Structural)]
pub struct StepFunctionsPrice {
    pub standard_transition_price: Amount,
    pub express_request_price: Amount,
    pub express_duration_price_per_gb_second: Amount,
    pub free_tier_transitions: Amount,
}

/// `EventBridge` Scheduler pricing.
#[derive(Debug, Clone, Copy, PartialEq, Eq, Structural)]
pub struct EventBridgeSchedulerPrice {
    pub invocation_price: Amount,
    pub free_tier_invocations: Amount,
}

/// Internet egress (data transfer out) pricing with tiered structure.
#[derive(Debug, PartialEq, Eq)]
pub struct DataTransferPrice {
    /// Tiered pricing for internet egress (GB)
    pub egress_tiers: Vec<DataTransferTier>,
}

/// One tier of a data transfer price.
#[derive(Debug, Clone, Copy, PartialEq, Eq, Structural)]
pub struct DataTransferTier {
    pub upper_limit_gb: Option<Amount>,
    pub price_per_gb: Amount,
}

/// AWS Batch pricing (uses Fargate or EC2 pricing underneath).
#[derive(Debug, Clone, Copy, PartialEq, Eq, Structural)]
pub struct BatchPrice {
    // Fargate pricing (same as ECS Fargate)
    pub fargate_vcpu_hour_price: Amount,
    pub fargate_memory_gb_hour_price: Amount,
    pub fargate_ephemeral_storage_gb_hour_price: Amount,
    pub fargate_ephemeral_free_gb: Amount,
    // EBS gp3 pricing
    pub ebs_gp3_gb_month_price: Amount,
    pub ebs_gp3_iops_month_price: Amount,
    pub ebs_gp3_iops_free: Amount,
    pub ebs_gp3_throughput_mibps_month_price: Amount,
    pub ebs_gp3_throughput_free_mibps: Amount,
}

/// What Alb costs.
#[derive(Debug, Clone, Copy, PartialEq, Eq, Structural)]
pub struct AlbPrice {
    pub alb_hour_price: Amount,
    pub lcu_hour_price: Amount,
}

/// What Sns costs.
#[derive(Debug, Clone, Copy, PartialEq, Eq, Structural)]
pub struct SnsPrice {
    pub delivery_price_per_million: Amount,
    pub free_tier_deliveries: Amount,
}

/// What Eks costs.
#[derive(Debug, Clone, Copy, PartialEq, Eq, Structural)]
pub struct EksPrice {
    pub cluster_hour_price: Amount,
}

/// What Firehose costs.
#[derive(Debug, Clone, Copy, PartialEq, Eq, Structural)]
pub struct FirehosePrice {
    pub ingestion_price_per_gb: Amount,
}

/// What SecretsManager costs.
#[derive(Debug, Clone, Copy, PartialEq, Eq, Structural)]
pub struct SecretsManagerPrice {
    pub secret_month_price: Amount,
    pub api_call_price_per_10k: Amount,
}

/// What Waf costs.
#[derive(Debug, Clone, Copy, PartialEq, Eq, Structural)]
pub struct WafPrice {
    pub web_acl_month_price: Amount,
    pub rule_month_price: Amount,
    pub request_price_per_million: Amount,
}

/// What Efs costs.
#[derive(Debug, Clone, Copy, PartialEq, Eq, Structural)]
pub struct EfsPrice {
    pub standard_gb_month_price: Amount,
    pub ia_gb_month_price: Amount,
    pub ia_access_price_per_gb: Amount,
}

/// What EventBridge costs.
#[derive(Debug, Clone, Copy, PartialEq, Eq, Structural)]
pub struct EventBridgePrice {
    pub custom_event_price_per_million: Amount,
}

/// What Athena costs.
#[derive(Debug, Clone, Copy, PartialEq, Eq, Structural)]
pub struct AthenaPrice {
    pub scan_price_per_tb: Amount,
}

/// What Ecr costs.
#[derive(Debug, Clone, Copy, PartialEq, Eq, Structural)]
pub struct EcrPrice {
    pub private_storage_gb_month: Amount,
}

/// What AppSync costs.
#[derive(Debug, Clone, Copy, PartialEq, Eq, Structural)]
pub struct AppSyncPrice {
    pub operation_price_per_million: Amount,
    pub free_tier_operations: Amount,
}

/// What Cognito costs.
#[derive(Debug, Clone, Copy, PartialEq, Eq, Structural)]
pub struct CognitoPrice {
    pub free_tier_mau: Amount,
    pub tier1_price: Amount,
    pub tier2_price: Amount,
    pub tier3_price: Amount,
}

/// What Route53 costs.
#[derive(Debug, Clone, Copy, PartialEq, Eq, Structural)]
pub struct Route53Price {
    pub hosted_zone_month_price: Amount,
    pub query_price_per_million: Amount,
}

/// What Glue costs.
#[derive(Debug, Clone, Copy, PartialEq, Eq, Structural)]
pub struct GluePrice {
    pub standard_dpu_hour_price: Amount,
    pub flex_dpu_hour_price: Amount,
}

/// What MskBroker costs.
#[derive(Debug, Clone, Copy, PartialEq, Eq, Structural)]
pub struct MskBrokerPrice {
    pub hourly_price: Amount,
    pub storage_gb_month_price: Amount,
}

/// What OpenSearchService costs.
#[derive(Debug, Clone, Copy, PartialEq, Eq, Structural)]
pub struct OpenSearchServicePrice {
    pub instance_hour_price: Amount,
    pub gp2_storage_gb_month_price: Amount,
}

/// What DocumentDb costs.
#[derive(Debug, Clone, Copy, PartialEq, Eq, Structural)]
pub struct DocumentDbPrice {
    pub instance_hour_price: Amount,
    pub storage_gb_month_price: Amount,
}

/// What Redshift costs.
#[derive(Debug, Clone, Copy, PartialEq, Eq, Structural)]
pub struct RedshiftPrice {
    pub node_hour_price: Amount,
}

/// `Lightsail` pricing.
#[derive(Debug, Clone, Copy, PartialEq, Eq, Structural)]
pub struct LightsailPrice {
    /// Instance bundle price per month (e.g., $3.43 for nano_2_0)
    pub instance_bundle_month_price: Amount,
    /// EBS disk price per GB per month
    pub disk_gb_month_price: Amount,
}

/// `QuickSight` pricing.
#[derive(Debug, Clone, Copy, PartialEq, Eq, Structural)]
pub struct QuickSightPrice {
    /// Creator monthly price per user
    pub creator_month_price: Amount,
    /// Creator annual price per user (discounted)
    pub creator_annual_month_price: Amount,
    /// Viewer on-demand session price per session
    pub viewer_session_price: Amount,
    /// Viewer maximum monthly price per user
    pub viewer_max_month_price: Amount,
    /// SPICE capacity price per GB per month
    pub spice_gb_month_price: Amount,
    /// Free SPICE allocation per creator
    pub free_spice_gb: Amount,
}

/// Amazon GuardDuty pricing.
#[derive(Debug, PartialEq, Eq)]
pub struct GuardDutyPrice {
    /// CloudTrail management-event analysis price per individual event.
    pub cloudtrail_event_price: Amount,
    /// VPC Flow Logs + DNS query log analysis, volume-tiered per GB-month.
    pub flowlog_dns_gb_tiers: Vec<GuardDutyTier>,
}

/// One tier of a GuardDuty price.
#[derive(Debug, Clone, Copy, PartialEq, Eq, Structural)]
pub struct GuardDutyTier {
    pub upper_limit_gb: Option<Amount>,
    pub price_per_gb: Amount,
}

} // verus!
