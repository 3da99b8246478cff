//! What Google Cloud services cost.

use vstd::prelude::*;

use crate::amount::Amount;

verus! {

/// The prices of a region.
///
/// Cloud Run, Cloud Functions, Pub/Sub and BigQuery queries cost the same
/// everywhere; Cloud Storage and Cloud SQL do not.
#[derive(Debug, PartialEq, Eq)]
pub struct GcpPricing {
    pub region: String,
    // Cloud Run
    pub cloud_run_request_per_million: Amount,
    pub cloud_run_vcpu_second: Amount,
    pub cloud_run_memory_gb_second: Amount,
    /// Idle (min-instance, allocated-but-not-serving) vCPU-second rate.
    pub cloud_run_idle_vcpu_second: Amount,
    // Cloud Functions Gen2
    pub cloud_function_invocation_per_million: Amount,
    pub cloud_function_gb_second: Amount,
    // BigQuery
    pub bigquery_active_storage_gb_month: Amount,
    pub bigquery_query_per_tb: Amount,
    // Cloud Storage
    pub cloud_storage_standard_gb_month: Amount,
    pub cloud_storage_nearline_gb_month: Amount,
    pub cloud_storage_coldline_gb_month: Amount,
    pub cloud_storage_archive_gb_month: Amount,
    // Pub/Sub
    pub pubsub_data_gb: Amount,
    // Cloud SQL (per instance, before HA multiplier)
    pub cloud_sql_vcpu_hour: Amount,
    pub cloud_sql_ram_gb_hour: Amount,
    pub cloud_sql_ssd_gb_month: Amount,
}

} // verus!
