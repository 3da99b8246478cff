//! Built-in prices of Google Cloud services by region.

use vstd::prelude::*;

use crate::amount::decimal;
use crate::amount::whole;
use crate::amount::Amount;
use crate::pricing::gcp_model::GcpPricing;
use crate::text::text_eq;

verus! {

/// What Cloud SQL costs in a region.
#[derive(Debug, Clone, Copy, PartialEq, Eq, Structural)]
pub struct RegionalSqlPrice {
    pub vcpu_hour: Amount,
    pub ram_gb_hour: Amount,
    pub ssd_gb_month: Amount,
}

/// What storage costs in a region.
#[derive(Debug, Clone, Copy, PartialEq, Eq, Structural)]
pub struct RegionalStoragePrice {
    pub standard_gb_month: Amount,
    pub bigquery_active_gb_month: Amount,
    pub nearline_gb_month: Amount,
    pub coldline_gb_month: Amount,
    pub archive_gb_month: Amount,
}

/// What Cloud SQL costs in a region. A region that is not listed costs what
/// Tokyo costs.
pub open spec fn sql_price(region: Seq<char>) -> RegionalSqlPrice {
    if region == "us-central1"@ || region == "us-east1"@ || region == "us-east4"@
        || region == "us-west1"@ || region == "us-west2"@ {
        RegionalSqlPrice {
            vcpu_hour: decimal(413, 4),
            ram_gb_hour: decimal(7, 3),
            ssd_gb_month: decimal(17, 2),
        }
    } else if region == "europe-west1"@ || region == "europe-west4"@
        || region == "europe-north1"@ {
        RegionalSqlPrice {
            vcpu_hour: decimal(513, 4),
            ram_gb_hour: decimal(87, 4),
            ssd_gb_month: decimal(187, 3),
        }
    } else if region == "europe-west2"@ || region == "europe-west3"@
        || region == "europe-central2"@ {
        RegionalSqlPrice {
            vcpu_hour: decimal(534, 4),
            ram_gb_hour: decimal(9, 3),
            ssd_gb_month: decimal(187, 3),
        }
    } else if region == "asia-east1"@ || region == "asia-east2"@ {
        RegionalSqlPrice {
            vcpu_hour: decimal(488, 4),
            ram_gb_hour: decimal(83, 4),
            ssd_gb_month: decimal(187, 3),
        }
    } else if region == "asia-northeast1"@ || region == "asia-northeast2"@
        || region == "asia-northeast3"@ {
        RegionalSqlPrice {
            vcpu_hour: decimal(559, 4),
            ram_gb_hour: decimal(95, 4),
            ssd_gb_month: decimal(221, 3),
        }
    } else if region == "asia-southeast1"@ || region == "asia-southeast2"@ {
        RegionalSqlPrice {
            vcpu_hour: decimal(526, 4),
            ram_gb_hour: decimal(89, 4),
            ssd_gb_month: decimal(187, 3),
        }
    } else if region == "asia-south1"@ || region == "asia-south2"@ {
        RegionalSqlPrice {
            vcpu_hour: decimal(465, 4),
            ram_gb_hour: decimal(79, 4),
            ssd_gb_month: decimal(187, 3),
        }
    } else if region == "australia-southeast1"@ {
        RegionalSqlPrice {
            vcpu_hour: decimal(659, 4),
            ram_gb_hour: decimal(112, 4),
            ssd_gb_month: decimal(221, 3),
        }
    } else if region == "southamerica-east1"@ {
        RegionalSqlPrice {
            vcpu_hour: decimal(695, 4),
            ram_gb_hour: decimal(118, 4),
            ssd_gb_month: decimal(221, 3),
        }
    } else if region == "me-central1"@ {
        RegionalSqlPrice {
            vcpu_hour: decimal(605, 4),
            ram_gb_hour: decimal(103, 4),
            ssd_gb_month: decimal(221, 3),
        }
    } else {
        RegionalSqlPrice {
            vcpu_hour: decimal(559, 4),
            ram_gb_hour: decimal(95, 4),
            ssd_gb_month: decimal(221, 3),
        }
    }
}

/// What storage costs in a region. A region that is not listed costs what
/// Tokyo costs.
pub open spec fn storage_price(region: Seq<char>) -> RegionalStoragePrice {
    if region == "us-central1"@ || region == "us-east1"@ || region == "us-east4"@
        || region == "us-east5"@ || region == "us-west1"@
        || region == "us-west2"@ || region == "us-west3"@
        || region == "us-west4"@ || region == "europe-west1"@
        || region == "europe-west4"@ || region == "europe-north1"@
        || region == "asia-east1"@ || region == "asia-east2"@ {
        RegionalStoragePrice {
            standard_gb_month: decimal(2, 2),
            bigquery_active_gb_month: decimal(2, 2),
            nearline_gb_month: decimal(13, 3),
            coldline_gb_month: decimal(6, 3),
            archive_gb_month: decimal(25, 4),
        }
    } else if region == "europe-west2"@ || region == "europe-west3"@
        || region == "europe-west6"@ || region == "europe-west8"@
        || region == "europe-west9"@ || region == "europe-central2"@
        || region == "asia-northeast1"@ || region == "asia-northeast2"@
        || region == "asia-northeast3"@ || region == "asia-southeast1"@
        || region == "asia-southeast2"@ || region == "asia-south1"@
        || region == "asia-south2"@ || region == "australia-southeast1"@
        || region == "australia-southeast2"@ {
        RegionalStoragePrice {
            standard_gb_month: decimal(23, 3),
            bigquery_active_gb_month: decimal(23, 3),
            nearline_gb_month: decimal(16, 3),
            coldline_gb_month: decimal(6, 3),
            archive_gb_month: decimal(25, 4),
        }
    } else if region == "southamerica-east1"@ {
        RegionalStoragePrice {
            standard_gb_month: decimal(35, 3),
            bigquery_active_gb_month: decimal(35, 3),
            nearline_gb_month: decimal(2, 2),
            coldline_gb_month: decimal(7, 3),
            archive_gb_month: decimal(25, 4),
        }
    } else if region == "me-central1"@ || region == "me-west1"@ {
        RegionalStoragePrice {
            standard_gb_month: decimal(26, 3),
            bigquery_active_gb_month: decimal(26, 3),
            nearline_gb_month: decimal(19, 3),
            coldline_gb_month: decimal(7, 3),
            archive_gb_month: decimal(28, 4),
        }
    } else {
        RegionalStoragePrice {
            standard_gb_month: decimal(23, 3),
            bigquery_active_gb_month: decimal(23, 3),
            nearline_gb_month: decimal(16, 3),
            coldline_gb_month: decimal(6, 3),
            archive_gb_month: decimal(25, 4),
        }
    }
}

/// What Cloud SQL costs in a region.
fn regional_sql(region: &str) -> (r: RegionalSqlPrice)
    ensures
        r == sql_price(region@),
{
    if text_eq(region, "us-central1") || text_eq(region, "us-east1")
        || text_eq(region, "us-east4") || text_eq(region, "us-west1")
        || text_eq(region, "us-west2") {
        RegionalSqlPrice {
            vcpu_hour: decimal(413, 4),
            ram_gb_hour: decimal(7, 3),
            ssd_gb_month: decimal(17, 2),
        }
    } else if text_eq(region, "europe-west1") || text_eq(region, "europe-west4")
        || text_eq(region, "europe-north1") {
        RegionalSqlPrice {
            vcpu_hour: decimal(513, 4),
            ram_gb_hour: decimal(87, 4),
            ssd_gb_month: decimal(187, 3),
        }
    } else if text_eq(region, "europe-west2") || text_eq(region, "europe-west3")
        || text_eq(region, "europe-central2") {
        RegionalSqlPrice {
            vcpu_hour: decimal(534, 4),
            ram_gb_hour: decimal(9, 3),
            ssd_gb_month: decimal(187, 3),
        }
    } else if text_eq(region, "asia-east1") || text_eq(region, "asia-east2") {
        RegionalSqlPrice {
            vcpu_hour: decimal(488, 4),
            ram_gb_hour: decimal(83, 4),
            ssd_gb_month: decimal(187, 3),
        }
    } else if text_eq(region, "asia-northeast1") || text_eq(region, "asia-northeast2")
        || text_eq(region, "asia-northeast3") {
        RegionalSqlPrice {
            vcpu_hour: decimal(559, 4),
            ram_gb_hour: decimal(95, 4),
            ssd_gb_month: decimal(221, 3),
        }
    } else if text_eq(region, "asia-southeast1") || text_eq(region, "asia-southeast2") {
        RegionalSqlPrice {
            vcpu_hour: decimal(526, 4),
            ram_gb_hour: decimal(89, 4),
            ssd_gb_month: decimal(187, 3),
        }
    } else if text_eq(region, "asia-south1") || text_eq(region, "asia-south2") {
        RegionalSqlPrice {
            vcpu_hour: decimal(465, 4),
            ram_gb_hour: decimal(79, 4),
            ssd_gb_month: decimal(187, 3),
        }
    } else if text_eq(region, "australia-southeast1") {
        RegionalSqlPrice {
            vcpu_hour: decimal(659, 4),
            ram_gb_hour: decimal(112, 4),
            ssd_gb_month: decimal(221, 3),
        }
    } else if text_eq(region, "southamerica-east1") {
        RegionalSqlPrice {
            vcpu_hour: decimal(695, 4),
            ram_gb_hour: decimal(118, 4),
            ssd_gb_month: decimal(221, 3),
        }
    } else if text_eq(region, "me-central1") {
        RegionalSqlPrice {
            vcpu_hour: decimal(605, 4),
            ram_gb_hour: decimal(103, 4),
            ssd_gb_month: decimal(221, 3),
        }
    } else {
        RegionalSqlPrice {
            vcpu_hour: decimal(559, 4),
            ram_gb_hour: decimal(95, 4),
            ssd_gb_month: decimal(221, 3),
        }
    }
}

/// What storage costs in a region.
fn regional_storage(region: &str) -> (r: RegionalStoragePrice)
    ensures
        r == storage_price(region@),
{
    if text_eq(region, "us-central1") || text_eq(region, "us-east1")
        || text_eq(region, "us-east4") || text_eq(region, "us-east5")
        || text_eq(region, "us-west1") || text_eq(region, "us-west2")
        || text_eq(region, "us-west3") || text_eq(region, "us-west4")
        || text_eq(region, "europe-west1") || text_eq(region, "europe-west4")
        || text_eq(region, "europe-north1") || text_eq(region, "asia-east1")
        || text_eq(region, "asia-east2") {
        RegionalStoragePrice {
            standard_gb_month: decimal(2, 2),
            bigquery_active_gb_month: decimal(2, 2),
            nearline_gb_month: decimal(13, 3),
            coldline_gb_month: decimal(6, 3),
            archive_gb_month: decimal(25, 4),
        }
    } else if text_eq(region, "europe-west2") || text_eq(region, "europe-west3")
        || text_eq(region, "europe-west6") || text_eq(region, "europe-west8")
        || text_eq(region, "europe-west9") || text_eq(region, "europe-central2")
        || text_eq(region, "asia-northeast1")
        || text_eq(region, "asia-northeast2")
        || text_eq(region, "asia-northeast3")
        || text_eq(region, "asia-southeast1")
        || text_eq(region, "asia-southeast2") || text_eq(region, "asia-south1")
        || text_eq(region, "asia-south2")
        || text_eq(region, "australia-southeast1")
        || text_eq(region, "australia-southeast2") {
        RegionalStoragePrice {
            standard_gb_month: decimal(23, 3),
            bigquery_active_gb_month: decimal(23, 3),
            nearline_gb_month: decimal(16, 3),
            coldline_gb_month: decimal(6, 3),
            archive_gb_month: decimal(25, 4),
        }
    } else if text_eq(region, "southamerica-east1") {
        RegionalStoragePrice {
            standard_gb_month: decimal(35, 3),
            bigquery_active_gb_month: decimal(35, 3),
            nearline_gb_month: decimal(2, 2),
            coldline_gb_month: decimal(7, 3),
            archive_gb_month: decimal(25, 4),
        }
    } else if text_eq(region, "me-central1") || text_eq(region, "me-west1") {
        RegionalStoragePrice {
            standard_gb_month: decimal(26, 3),
            bigquery_active_gb_month: decimal(26, 3),
            nearline_gb_month: decimal(19, 3),
            coldline_gb_month: decimal(7, 3),
            archive_gb_month: decimal(28, 4),
        }
    } else {
        RegionalStoragePrice {
            standard_gb_month: decimal(23, 3),
            bigquery_active_gb_month: decimal(23, 3),
            nearline_gb_month: decimal(16, 3),
            coldline_gb_month: decimal(6, 3),
            archive_gb_month: decimal(25, 4),
        }
    }
}

/// The built-in prices of a region.
pub fn hardcoded_pricing(region: &str) -> (r: GcpPricing)
    ensures
        r.region@ == region@,
        r.cloud_run_request_per_million == decimal(4, 1),
        r.cloud_run_vcpu_second == decimal(24, 6),
        r.cloud_run_memory_gb_second == decimal(25, 7),
        r.cloud_run_idle_vcpu_second == decimal(25, 7),
        r.cloud_function_invocation_per_million == decimal(4, 1),
        r.cloud_function_gb_second == decimal(25, 7),
        r.bigquery_active_storage_gb_month == storage_price(region@).bigquery_active_gb_month,
        r.bigquery_query_per_tb == whole(5),
        r.cloud_storage_standard_gb_month == storage_price(region@).standard_gb_month,
        r.cloud_storage_nearline_gb_month == storage_price(region@).nearline_gb_month,
        r.cloud_storage_coldline_gb_month == storage_price(region@).coldline_gb_month,
        r.cloud_storage_archive_gb_month == storage_price(region@).archive_gb_month,
        r.pubsub_data_gb == decimal(4, 2),
        r.cloud_sql_vcpu_hour == sql_price(region@).vcpu_hour,
        r.cloud_sql_ram_gb_hour == sql_price(region@).ram_gb_hour,
        r.cloud_sql_ssd_gb_month == sql_price(region@).ssd_gb_month,
{
    let sql = regional_sql(region);
    let storage = regional_storage(region);
    GcpPricing {
        region: region.to_owned(),
        cloud_run_request_per_million: decimal(4, 1),
        cloud_run_vcpu_second: decimal(24, 6),
        cloud_run_memory_gb_second: decimal(25, 7),
        cloud_run_idle_vcpu_second: decimal(25, 7),
        cloud_function_invocation_per_million: decimal(4, 1),
        cloud_function_gb_second: decimal(25, 7),
        bigquery_active_storage_gb_month: storage.bigquery_active_gb_month,
        bigquery_query_per_tb: whole(5),
        cloud_storage_standard_gb_month: storage.standard_gb_month,
        cloud_storage_nearline_gb_month: storage.nearline_gb_month,
        cloud_storage_coldline_gb_month: storage.coldline_gb_month,
        cloud_storage_archive_gb_month: storage.archive_gb_month,
        pubsub_data_gb: decimal(4, 2),
        cloud_sql_vcpu_hour: sql.vcpu_hour,
        cloud_sql_ram_gb_hour: sql.ram_gb_hour,
        cloud_sql_ssd_gb_month: sql.ssd_gb_month,
    }
}

} // verus!
