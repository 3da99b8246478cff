//! Prices out of downloaded bulk price files.

use vstd::prelude::*;

use crate::amount::decimal;
use crate::amount::whole;
use crate::amount::Amount;
use crate::pricing::bulk_api::find_entries;
use crate::pricing::bulk_api::find_entries_by_family;
use crate::pricing::bulk_api::first_price;
use crate::pricing::bulk_api::has_attributes;
use crate::pricing::bulk_api::parse_bulk_pricing_full;
use crate::pricing::bulk_api::BulkFileView;
use crate::pricing::bulk_api::BulkPricingFile;
use crate::pricing::bulk_api::DimensionView;
use crate::pricing::bulk_api::EntryView;
use crate::pricing::bulk_api::PricingEntry;
use crate::pricing::error::PricingError;
use crate::pricing::error::PricingErrorView;
use crate::pricing::model::DynamoDbPrice;
use crate::pricing::model::Ec2Price;
use crate::pricing::model::KinesisPrice;
use crate::pricing::model::LambdaPrice;
use crate::pricing::model::RdsPrice;
use crate::strmap::text_get;
use crate::strmap::StrMap;
use crate::text::contains;
use crate::text::ends_with;
use crate::text::text_eq;

verus! {

// ---------------------------------------------------------------------------
// Models
// ---------------------------------------------------------------------------

/// The services whose prices are read from files.
pub const FILE_SERVICES: [&'static str; 5] = ["lambda", "ec2", "rds", "dynamodb", "kinesis"];

/// The first price above zero of the first entry that has one.
pub open spec fn first_of(entries: Seq<EntryView>) -> Option<Amount>
    decreases entries.len(),
{
    if entries.len() == 0 {
        None
    } else {
        match crate::pricing::bulk_api::positive_price(entries[0].dimensions) {
            Some(x) => Some(x),
            None => first_of(entries.drop_first()),
        }
    }
}

/// The price of the first entry that has one, or the error that names the
/// service and the region.
pub open spec fn required(
    entries: Seq<EntryView>,
    service: Seq<char>,
    region: Seq<char>,
) -> Result<Amount, PricingErrorView> {
    match first_of(entries) {
        Some(x) => Ok(x),
        None => Err(PricingErrorView::NotFound { service, region }),
    }
}

/// The entries that have the value that each filter asks for.
pub open spec fn with_attributes(
    entries: Seq<EntryView>,
    filters: Seq<(Seq<char>, Seq<char>)>,
) -> Seq<EntryView> {
    crate::pricing::bulk_api::selected(
        entries,
        |e: EntryView| crate::pricing::bulk_api::passes(e, filters),
    )
}

/// The entries of a family that have the value that each filter asks for.
pub open spec fn of_family(
    entries: Seq<EntryView>,
    family: Seq<char>,
    filters: Seq<(Seq<char>, Seq<char>)>,
) -> Seq<EntryView> {
    crate::pricing::bulk_api::selected(
        entries,
        |e: EntryView|
            e.product_family == family && crate::pricing::bulk_api::passes(e, filters),
    )
}

/// The filters by which the price of an instance is found.
pub open spec fn ec2_filters(instance_type: Seq<char>) -> Seq<(Seq<char>, Seq<char>)> {
    seq![
        ("instanceType"@, instance_type),
        ("operatingSystem"@, "Linux"@),
        ("tenancy"@, "Shared"@),
        ("preInstalledSw"@, "NA"@),
        ("capacitystatus"@, "Used"@),
    ]
}

/// The filters by which the price of a database instance is found.
pub open spec fn rds_filters(instance_type: Seq<char>, engine: Seq<char>) -> Seq<
    (Seq<char>, Seq<char>),
> {
    if engine == "sqlserver-se"@ || engine == "sqlserver"@ {
        seq![
            ("instanceType"@, instance_type),
            ("databaseEngine"@, "SQL Server"@),
            ("databaseEdition"@, "Standard"@),
        ]
    } else {
        seq![("instanceType"@, instance_type), ("databaseEngine"@, engine_name(engine))]
    }
}

/// The name of an engine in price files.
pub open spec fn engine_name(engine: Seq<char>) -> Seq<char> {
    if engine == "mysql"@ || engine == "mariadb"@ {
        "MySQL"@
    } else if engine == "postgres"@ {
        "PostgreSQL"@
    } else if engine == "aurora-mysql"@ {
        "Aurora MySQL"@
    } else if engine == "aurora-postgresql"@ {
        "Aurora PostgreSQL"@
    } else {
        engine
    }
}

/// A description that speaks of the infrequent access table class.
pub open spec fn speaks_of_infrequent_access(d: DimensionView) -> bool {
    crate::text::contains_text(d.description, "Standard-IA"@) || crate::text::contains_text(
        d.description,
        "Standard Infrequent Access"@,
    )
}

/// Some description speaks of the infrequent access table class.
pub open spec fn any_infrequent_access(dims: Seq<DimensionView>) -> bool {
    exists|i: int| 0 <= i < dims.len() && speaks_of_infrequent_access(#[trigger] dims[i])
}

/// The entry is about tables of the standard class: it names that class, or
/// names none and nothing else speaks of infrequent access.
pub open spec fn is_standard_class(e: EntryView) -> bool {
    match crate::strmap::lookup(e.attributes, "tableClass"@) {
        Some(c) => c == "Standard"@ || c == "DynamoDB Standard"@ || c
            == "DynamoDB Standard table class"@,
        None => !(crate::strmap::lookup(e.attributes, "usagetype"@) matches Some(u)
            && crate::text::contains_text(u, "-IA-"@)) && !any_infrequent_access(e.dimensions),
    }
}

/// The entries about a group and an operation on tables of the standard class.
pub open spec fn throughput_entries(
    entries: Seq<EntryView>,
    group: Seq<char>,
    operation: Seq<char>,
) -> Seq<EntryView> {
    crate::pricing::bulk_api::selected(
        entries,
        |e: EntryView|
            crate::pricing::bulk_api::passes(e, seq![("group"@, group), ("operation"@, operation)])
                && is_standard_class(e),
    )
}

/// The entry is about storage of tables of the standard class.
pub open spec fn is_table_storage(e: EntryView) -> bool {
    e.product_family == "Database Storage"@ && is_standard_class(e) && (crate::strmap::lookup(
        e.attributes,
        "usagetype"@,
    ) matches Some(u) && crate::text::has_suffix(u, "-TimedStorage-ByteHrs"@))
}

/// The error about a service without a price.
pub open spec fn missing(service: Seq<char>, region: Seq<char>) -> PricingErrorView {
    PricingErrorView::NotFound { service, region }
}

/// What Lambda costs according to the entries of its file.
pub open spec fn lambda_of(entries: Seq<EntryView>, region: Seq<char>) -> Result<
    LambdaPrice,
    PricingErrorView,
> {
    match required(
        with_attributes(entries, seq![("group"@, "AWS-Lambda-Requests"@)]),
        "lambda:AWS-Lambda-Requests"@,
        region,
    ) {
        Err(e) => Err(e),
        Ok(request_price) => match required(
            with_attributes(entries, seq![("group"@, "AWS-Lambda-Duration"@)]),
            "lambda:AWS-Lambda-Duration"@,
            region,
        ) {
            Err(e) => Err(e),
            Ok(gb_second_price) => Ok(
                LambdaPrice {
                    request_price,
                    gb_second_price,
                    free_tier_requests: whole(1_000_000),
                    free_tier_gb_seconds: whole(400_000),
                },
            ),
        },
    }
}

/// What an instance costs for an hour according to the entries of the file, or
/// the error that there is none.
pub open spec fn ec2_of(
    entries: Option<Seq<EntryView>>,
    instance_type: Seq<char>,
    region: Seq<char>,
) -> Result<Amount, PricingErrorView> {
    match entries {
        Some(es) => required(
            with_attributes(es, ec2_filters(instance_type)),
            "ec2:"@ + instance_type,
            region,
        ),
        None => Err(missing("ec2"@, region)),
    }
}

/// What a database instance costs for an hour according to the entries of the
/// file, or the error that there is none.
pub open spec fn rds_of(
    entries: Option<Seq<EntryView>>,
    instance_type: Seq<char>,
    engine: Seq<char>,
    region: Seq<char>,
) -> Result<Amount, PricingErrorView> {
    match entries {
        Some(es) => required(
            with_attributes(es, rds_filters(instance_type, engine)),
            "rds:"@ + engine + ":"@ + instance_type,
            region,
        ),
        None => Err(missing("rds"@, region)),
    }
}

/// What a GB-month of general purpose database storage costs according to the
/// entries of the file, or the error that there is none.
pub open spec fn gp3_storage_of(entries: Option<Seq<EntryView>>, region: Seq<char>) -> Result<
    Amount,
    PricingErrorView,
> {
    match entries {
        Some(es) => required(
            of_family(
                es,
                "Database Storage"@,
                seq![
                    ("volumeType"@, "General Purpose-GP3"@),
                    ("deploymentOption"@, "Single-AZ"@),
                ],
            ),
            "rds:gp3_storage"@,
            region,
        ),
        None => Err(missing("rds"@, region)),
    }
}

/// What an operation per second on general purpose database storage costs
/// according to the entries of the file, or the error that there is none.
pub open spec fn gp3_iops_of(entries: Option<Seq<EntryView>>, region: Seq<char>) -> Result<
    Amount,
    PricingErrorView,
> {
    match entries {
        Some(es) => required(
            with_attributes(
                es,
                seq![("group"@, "RDS-GP3-IOPS"@), ("deploymentOption"@, "Single-AZ"@)],
            ),
            "rds:gp3_iops"@,
            region,
        ),
        None => Err(missing("rds"@, region)),
    }
}

/// What one kind of throughput of tables costs.
pub open spec fn throughput_of(
    entries: Seq<EntryView>,
    label: Seq<char>,
    group: Seq<char>,
    operation: Seq<char>,
    region: Seq<char>,
) -> Result<Amount, PricingErrorView> {
    required(throughput_entries(entries, group, operation), label, region)
}

/// What storage of tables costs.
pub open spec fn table_storage_of(entries: Seq<EntryView>, region: Seq<char>) -> Result<
    Amount,
    PricingErrorView,
> {
    required(
        crate::pricing::bulk_api::selected(entries, |e: EntryView| is_table_storage(e)),
        "dynamodb:storage"@,
        region,
    )
}

/// What `DynamoDB` costs according to the entries of its file.
pub open spec fn dynamodb_of(entries: Seq<EntryView>, region: Seq<char>) -> Result<
    DynamoDbPrice,
    PricingErrorView,
> {
    let write = throughput_of(
        entries,
        "dynamodb:pay_per_request_write"@,
        "DDB-WriteUnits"@,
        "PayPerRequestThroughput"@,
        region,
    );
    let read = throughput_of(
        entries,
        "dynamodb:pay_per_request_read"@,
        "DDB-ReadUnits"@,
        "PayPerRequestThroughput"@,
        region,
    );
    let wcu = throughput_of(
        entries,
        "dynamodb:provisioned_wcu_hour"@,
        "DDB-WriteUnits"@,
        "CommittedThroughput"@,
        region,
    );
    let rcu = throughput_of(
        entries,
        "dynamodb:provisioned_rcu_hour"@,
        "DDB-ReadUnits"@,
        "CommittedThroughput"@,
        region,
    );
    let storage = table_storage_of(entries, region);
    if write is Err {
        Err(write->Err_0)
    } else if read is Err {
        Err(read->Err_0)
    } else if wcu is Err {
        Err(wcu->Err_0)
    } else if rcu is Err {
        Err(rcu->Err_0)
    } else if storage is Err {
        Err(storage->Err_0)
    } else {
        Ok(
            DynamoDbPrice {
                write_request_price: write->Ok_0,
                read_request_price: read->Ok_0,
                wcu_hour_price: wcu->Ok_0,
                rcu_hour_price: rcu->Ok_0,
                storage_price_per_gb: storage->Ok_0,
                free_tier_wru: whole(25_000),
                free_tier_rru: whole(25_000),
                free_tier_storage_gb: whole(25),
            },
        )
    }
}

/// What one part of Kinesis costs.
pub open spec fn kinesis_part(
    entries: Seq<EntryView>,
    label: Seq<char>,
    filters: Seq<(Seq<char>, Seq<char>)>,
    region: Seq<char>,
) -> Result<Amount, PricingErrorView> {
    required(of_family(entries, "Kinesis Streams"@, filters), "kinesis:"@ + label, region)
}

/// What Kinesis costs according to the entries of its file.
pub open spec fn kinesis_of(entries: Seq<EntryView>, region: Seq<char>) -> Result<
    KinesisPrice,
    PricingErrorView,
> {
    let shard = kinesis_part(
        entries,
        "Provisioned shard hour"@,
        seq![("operation"@, "shardHourStorage"@), ("group"@, "Provisioned shard hour"@)],
        region,
    );
    let put = kinesis_part(
        entries,
        "PUT payload units"@,
        seq![("operation"@, "PutRequest"@)],
        region,
    );
    let ingestion = kinesis_part(
        entries,
        "On-Demand data ingestion"@,
        seq![("operation"@, "OnDemandDataIngested"@), ("group"@, "OnDemand"@)],
        region,
    );
    let retrieval = kinesis_part(
        entries,
        "On-Demand GetRecords retrieval"@,
        seq![("operation"@, "OnDemandDataRetrieval"@), ("group"@, "OnDemand"@)],
        region,
    );
    let hour = kinesis_part(
        entries,
        "On-Demand stream hour"@,
        seq![("operation"@, "OnDemandStreamHr"@), ("group"@, "OnDemand"@)],
        region,
    );
    if shard is Err {
        Err(shard->Err_0)
    } else if put is Err {
        Err(put->Err_0)
    } else if ingestion is Err {
        Err(ingestion->Err_0)
    } else if retrieval is Err {
        Err(retrieval->Err_0)
    } else if hour is Err {
        Err(hour->Err_0)
    } else {
        Ok(
            KinesisPrice {
                shard_hour_price: shard->Ok_0,
                put_payload_unit_price: put->Ok_0,
                on_demand_ingestion_price_per_gb: ingestion->Ok_0,
                on_demand_retrieval_price_per_gb: retrieval->Ok_0,
                on_demand_stream_hour_price: hour->Ok_0,
            },
        )
    }
}

// ---------------------------------------------------------------------------
// Lookups
// ---------------------------------------------------------------------------

/// Where the prices of a file come from.
#[derive(Debug, PartialEq, Eq)]
pub struct PricingMetadata {
    /// The key of the service.
    pub service_key: String,
    /// When the file was published.
    pub publication_date: Option<String>,
    /// The version of the file.
    pub version: Option<String>,
    /// The region that the file was loaded for.
    pub region: String,
    /// The currency in which the file gives prices.
    pub currency: String,
}

/// The model of a [`PricingMetadata`].
#[verifier::ext_equal]
pub struct MetadataView {
    pub service_key: Seq<char>,
    pub publication_date: Option<Seq<char>>,
    pub version: Option<Seq<char>>,
    pub region: Seq<char>,
    pub currency: Seq<char>,
}

impl View for PricingMetadata {
    type V = MetadataView;

    open spec fn view(&self) -> MetadataView {
        MetadataView {
            service_key: self.service_key@,
            publication_date: crate::tf::document::opt_view(self.publication_date),
            version: crate::tf::document::opt_view(self.version),
            region: self.region@,
            currency: self.currency@,
        }
    }
}

/// Where the prices of a file come from.
pub open spec fn metadata_of(service: Seq<char>, region: Seq<char>, file: BulkFileView) -> MetadataView {
    MetadataView {
        service_key: service,
        publication_date: file.publication_date,
        version: file.version,
        region,
        currency: crate::pricing::bulk_api::file_currency(file),
    }
}

/// Prices out of files.
pub struct FilePricingRegistry {
    /// The region of the prices.
    pub region: String,
    /// The entries of each loaded service.
    pub services: StrMap<Vec<PricingEntry>>,
    /// Where the entries of each loaded service come from.
    pub metadata: StrMap<PricingMetadata>,
}

/// The name is one of the services whose prices are read from files.
pub open spec fn is_file_service(name: Seq<char>) -> bool {
    name == "lambda"@ || name == "ec2"@ || name == "rds"@ || name == "dynamodb"@ || name
        == "kinesis"@
}

/// The price of the first entry that has one.
fn required_price(
    matches: &Vec<&PricingEntry>,
    service: &str,
    region: &str,
) -> (r: Result<Amount, PricingError>)
    ensures
        crate::pricing::catalog::amount_outcome(r) == required(
            crate::pricing::bulk_api::found_views(matches@),
            service@,
            region@,
        ),
{
    let ghost all = crate::pricing::bulk_api::found_views(matches@);
    let mut i: usize = 0;
    assert(all.subrange(0, all.len() as int) =~= all);
    while i < matches.len()
        invariant
            i <= matches@.len(),
            all == crate::pricing::bulk_api::found_views(matches@),
            first_of(all) == first_of(all.subrange(i as int, all.len() as int)),
        decreases matches@.len() - i,
    {
        proof {
            let rest = all.subrange(i as int, all.len() as int);
            assert(rest[0] == all[i as int]);
            assert(all[i as int] == matches@[i as int]@);
            assert(rest.drop_first() =~= all.subrange(i + 1, all.len() as int));
        }
        if let Some(x) = first_price(matches[i]) {
            return Ok(x);
        }
        i = i + 1;
    }
    Err(PricingError::NotFound { service: service.to_owned(), region: region.to_owned() })
}

/// Whether an entry is about tables of the standard class.
pub fn is_dynamodb_standard_table_class(entry: &PricingEntry) -> (r: bool)
    ensures
        r == is_standard_class(entry@),
{
    if let Some(c) = text_get(&entry.attributes, "tableClass") {
        return text_eq(c.as_str(), "Standard") || text_eq(c.as_str(), "DynamoDB Standard")
            || text_eq(c.as_str(), "DynamoDB Standard table class");
    }
    if let Some(u) = text_get(&entry.attributes, "usagetype") {
        if contains(u.as_str(), "-IA-") {
            return false;
        }
    }
    let ghost dims = entry@.dimensions;
    for i in 0..entry.dimensions.len()
        invariant
            dims == entry@.dimensions,
            is_standard_class(entry@) == !any_infrequent_access(dims),
            forall|j: int| 0 <= j < i ==> !speaks_of_infrequent_access(#[trigger] dims[j]),
    {
        assert(dims[i as int] == entry.dimensions@[i as int]@);
        let d = entry.dimensions[i].description.as_str();
        if contains(d, "Standard-IA") || contains(d, "Standard Infrequent Access") {
            assert(speaks_of_infrequent_access(dims[i as int]));
            return false;
        }
    }
    true
}

/// What one kind of throughput of tables costs.
pub fn dynamodb_required_price(
    entries: &[PricingEntry],
    label: &str,
    group: &str,
    operation: &str,
    region: &str,
) -> (r: Result<Amount, PricingError>)
    ensures
        crate::pricing::catalog::amount_outcome(r) == throughput_of(
            crate::pricing::bulk_api::pricing_views(entries@),
            label@,
            group@,
            operation@,
            region@,
        ),
{
    let ghost all = crate::pricing::bulk_api::pricing_views(entries@);
    let ghost fs = seq![("group"@, group@), ("operation"@, operation@)];
    let ghost p = |e: EntryView|
        crate::pricing::bulk_api::passes(e, seq![("group"@, group@), ("operation"@, operation@)])
            && is_standard_class(e);
    let filters = [("group", group), ("operation", operation)];
    assert(crate::pricing::bulk_api::filter_views(filters@) =~= fs);
    let mut out: Vec<&PricingEntry> = Vec::new();
    assert(crate::pricing::bulk_api::found_views(out@) =~= Seq::empty());
    for i in 0..entries.len()
        invariant
            all == crate::pricing::bulk_api::pricing_views(entries@),
            fs == seq![("group"@, group@), ("operation"@, operation@)],
            crate::pricing::bulk_api::filter_views(filters@) == fs,
            p == (|e: EntryView|
                crate::pricing::bulk_api::passes(
                    e,
                    seq![("group"@, group@), ("operation"@, operation@)],
                ) && is_standard_class(e)),
            crate::pricing::bulk_api::found_views(out@) == crate::pricing::bulk_api::selected(
                all.subrange(0, i as int),
                p,
            ),
    {
        let ghost before = out@;
        proof {
            let now = all.subrange(0, i + 1);
            assert(now.drop_last() =~= all.subrange(0, i as int));
            assert(now.last() == entries@[i as int]@);
        }
        if has_attributes(&entries[i], filters.as_slice()) && is_dynamodb_standard_table_class(
            &entries[i],
        ) {
            out.push(&entries[i]);
            assert(crate::pricing::bulk_api::found_views(out@)
                =~= crate::pricing::bulk_api::found_views(before).push(entries@[i as int]@));
        }
    }
    assert(all.subrange(0, entries@.len() as int) =~= all);
    required_price(&out, label, region)
}

/// Whether an entry is about storage of tables of the standard class.
fn stores_tables(e: &PricingEntry) -> (r: bool)
    ensures
        r == is_table_storage(e@),
{
    if !text_eq(e.product_family.as_str(), "Database Storage")
        || !is_dynamodb_standard_table_class(e) {
        return false;
    }
    match text_get(&e.attributes, "usagetype") {
        Some(u) => ends_with(u.as_str(), "-TimedStorage-ByteHrs"),
        None => false,
    }
}

/// What storage of tables costs.
pub fn dynamodb_storage_price(entries: &[PricingEntry], region: &str) -> (r: Result<
    Amount,
    PricingError,
>)
    ensures
        crate::pricing::catalog::amount_outcome(r) == table_storage_of(
            crate::pricing::bulk_api::pricing_views(entries@),
            region@,
        ),
{
    let ghost all = crate::pricing::bulk_api::pricing_views(entries@);
    let ghost p = |e: EntryView| is_table_storage(e);
    let mut out: Vec<&PricingEntry> = Vec::new();
    assert(crate::pricing::bulk_api::found_views(out@) =~= Seq::empty());
    for i in 0..entries.len()
        invariant
            all == crate::pricing::bulk_api::pricing_views(entries@),
            p == (|e: EntryView| is_table_storage(e)),
            crate::pricing::bulk_api::found_views(out@) == crate::pricing::bulk_api::selected(
                all.subrange(0, i as int),
                p,
            ),
    {
        let ghost before = out@;
        proof {
            let now = all.subrange(0, i + 1);
            assert(now.drop_last() =~= all.subrange(0, i as int));
            assert(now.last() == entries@[i as int]@);
        }
        if stores_tables(&entries[i]) {
            out.push(&entries[i]);
            assert(crate::pricing::bulk_api::found_views(out@)
                =~= crate::pricing::bulk_api::found_views(before).push(entries@[i as int]@));
        }
    }
    assert(all.subrange(0, entries@.len() as int) =~= all);
    required_price(&out, "dynamodb:storage", region)
}

/// What one part of Kinesis costs.
fn kinesis_price_by_attrs(
    entries: &[PricingEntry],
    label: &str,
    filters: &[(&str, &str)],
    region: &str,
) -> (r: Result<Amount, PricingError>)
    ensures
        crate::pricing::catalog::amount_outcome(r) == kinesis_part(
            crate::pricing::bulk_api::pricing_views(entries@),
            label@,
            crate::pricing::bulk_api::filter_views(filters@),
            region@,
        ),
{
    let found = find_entries_by_family(entries, "Kinesis Streams", filters);
    let mut service = "kinesis:".to_owned();
    service.append(label);
    required_price(&found, service.as_str(), region)
}

impl FilePricingRegistry {
    /// The entries that were loaded for a service.
    pub open spec fn loaded(self, service: Seq<char>) -> Option<Seq<EntryView>> {
        match crate::strmap::lookup(self.services@, service) {
            Some(v) => Some(crate::pricing::bulk_api::pricing_views(v@)),
            None => None,
        }
    }

    /// What is known about the file that was loaded for a service.
    pub open spec fn known(self, service: Seq<char>) -> Option<MetadataView> {
        match crate::strmap::lookup(self.metadata@, service) {
            Some(m) => Some(m@),
            None => None,
        }
    }

    /// The registry of the given files, by the key of their service. Files of
    /// services without a lookup are left out.
    pub fn load(region: &str, files: &StrMap<BulkPricingFile>) -> (r: Self)
        ensures
            r.region@ == region@,
            forall|s: Seq<char>|
                (#[trigger] r.loaded(s)) == match crate::strmap::lookup(files@, s) {
                    Some(f) => if is_file_service(s) {
                        Some(crate::pricing::bulk_api::entries_of(f@))
                    } else {
                        None
                    },
                    None => None,
                },
            forall|s: Seq<char>|
                (#[trigger] r.known(s)) == match crate::strmap::lookup(files@, s) {
                    Some(f) => if is_file_service(s) {
                        Some(metadata_of(s, region@, f@))
                    } else {
                        None
                    },
                    None => None,
                },
    {
        let mut services: StrMap<Vec<PricingEntry>> = StrMap::new();
        let mut metadata: StrMap<PricingMetadata> = StrMap::new();
        for i in 0..5usize
            invariant
                forall|s: Seq<char>|
                    loaded_after(services@, s) == (if listed(i as int, s) {
                        file_entries(files@, s)
                    } else {
                        None
                    }),
                forall|s: Seq<char>|
                    known_after(metadata@, s) == (if listed(i as int, s) {
                        file_metadata(files@, s, region@)
                    } else {
                        None
                    }),
        {
            let name = FILE_SERVICES[i];
            let ghost before = services@;
            let ghost held = metadata@;
            match files.get(name) {
                Some(file) => {
                    let (entries, meta) = parse_bulk_pricing_full(file);
                    let known = PricingMetadata {
                        service_key: name.to_owned(),
                        publication_date: meta.publication_date,
                        version: meta.version,
                        region: region.to_owned(),
                        currency: meta.currency,
                    };
                    assert(known@ == metadata_of(name@, region@, file@));
                    proof {
                        assert forall|s: Seq<char>|
                            loaded_after(
                                crate::strmap::inserted(before, name@, entries),
                                s,
                            ) == (if listed(i + 1, s) {
                                file_entries(files@, s)
                            } else {
                                None
                            }) by {
                            crate::strmap::lemma_lookup_inserted(before, name@, entries, s);
                            assert(loaded_after(before, s) == (if listed(i as int, s) {
                                file_entries(files@, s)
                            } else {
                                None
                            }));
                            lemma_listed(i as int, s);
                        }
                        assert forall|s: Seq<char>|
                            known_after(crate::strmap::inserted(held, name@, known), s) == (
                            if listed(i + 1, s) {
                                file_metadata(files@, s, region@)
                            } else {
                                None
                            }) by {
                            crate::strmap::lemma_lookup_inserted(held, name@, known, s);
                            assert(known_after(held, s) == (if listed(i as int, s) {
                                file_metadata(files@, s, region@)
                            } else {
                                None
                            }));
                            lemma_listed(i as int, s);
                        }
                    }
                    services.insert(name.to_owned(), entries);
                    metadata.insert(name.to_owned(), known);
                },
                None => {
                    proof {
                        assert forall|s: Seq<char>|
                            loaded_after(services@, s) == (if listed(i + 1, s) {
                                file_entries(files@, s)
                            } else {
                                None
                            }) by {
                            lemma_listed(i as int, s);
                        }
                        assert forall|s: Seq<char>|
                            known_after(metadata@, s) == (if listed(i + 1, s) {
                                file_metadata(files@, s, region@)
                            } else {
                                None
                            }) by {
                            lemma_listed(i as int, s);
                        }
                    }
                },
            }
        }
        let r = FilePricingRegistry { region: region.to_owned(), services, metadata };
        proof {
            assert forall|s: Seq<char>|
                (#[trigger] r.loaded(s)) == (match crate::strmap::lookup(files@, s) {
                    Some(f) => if is_file_service(s) {
                        Some(crate::pricing::bulk_api::entries_of(f@))
                    } else {
                        None
                    },
                    None => None,
                }) by {
                assert(r.loaded(s) == loaded_after(services@, s));
                lemma_all_listed(s);
            }
            assert forall|s: Seq<char>|
                (#[trigger] r.known(s)) == (match crate::strmap::lookup(files@, s) {
                    Some(f) => if is_file_service(s) {
                        Some(metadata_of(s, region@, f@))
                    } else {
                        None
                    },
                    None => None,
                }) by {
                assert(r.known(s) == known_after(metadata@, s));
                lemma_all_listed(s);
            }
        }
        r
    }

    /// What is known about the file of a service, where it was loaded.
    pub fn metadata(&self, service_key: &str) -> (r: Option<&PricingMetadata>)
        ensures
            match r {
                Some(m) => self.known(service_key@) == Some(m@),
                None => self.known(service_key@) is None,
            },
    {
        self.metadata.get(service_key)
    }

    /// What is known about each loaded file, by the key of its service.
    pub fn all_metadata(&self) -> (r: Vec<&PricingMetadata>)
        ensures
            r@.len() == self.metadata@.len(),
            forall|i: int| 0 <= i < r@.len() ==> *(#[trigger] r@[i]) == self.metadata@[i].1,
    {
        let mut out: Vec<&PricingMetadata> = Vec::new();
        let n: usize = self.metadata.len();
        for i in 0..n
            invariant
                n == self.metadata@.len(),
                out@.len() == i,
                forall|j: int| 0 <= j < i ==> *(#[trigger] out@[j]) == self.metadata@[j].1,
        {
            out.push(self.metadata.value_at(i));
        }
        out
    }

    /// The entries of a service, or the error that names it.
    fn entries_required(&self, service_key: &str) -> (r: Result<&Vec<PricingEntry>, PricingError>)
        ensures
            match r {
                Ok(v) => self.loaded(service_key@) == Some(
                    crate::pricing::bulk_api::pricing_views(v@),
                ),
                Err(e) => self.loaded(service_key@) is None && e@ == missing(
                    service_key@,
                    self.region@,
                ),
            },
    {
        match self.services.get(service_key) {
            Some(v) => Ok(v),
            None => Err(
                PricingError::NotFound {
                    service: service_key.to_owned(),
                    region: self.region.clone(),
                },
            ),
        }
    }

    /// What Lambda costs.
    pub fn lambda_price(&self) -> (r: Result<LambdaPrice, PricingError>)
        ensures
            lambda_outcome(r) == match self.loaded("lambda"@) {
                Some(es) => lambda_of(es, self.region@),
                None => Err(missing("lambda"@, self.region@)),
            },
    {
        let entries = match self.entries_required("lambda") {
            Ok(v) => v.as_slice(),
            Err(e) => {
                return Err(e);
            },
        };
        let requests = [("group", "AWS-Lambda-Requests")];
        let duration = [("group", "AWS-Lambda-Duration")];
        proof {
            assert(crate::pricing::bulk_api::filter_views(requests@)
                =~= seq![("group"@, "AWS-Lambda-Requests"@)]);
            assert(crate::pricing::bulk_api::filter_views(duration@)
                =~= seq![("group"@, "AWS-Lambda-Duration"@)]);
        }
        let request_price = match required_price(
            &find_entries(entries, requests.as_slice()),
            "lambda:AWS-Lambda-Requests",
            self.region.as_str(),
        ) {
            Ok(x) => x,
            Err(e) => {
                return Err(e);
            },
        };
        let gb_second_price = match required_price(
            &find_entries(entries, duration.as_slice()),
            "lambda:AWS-Lambda-Duration",
            self.region.as_str(),
        ) {
            Ok(x) => x,
            Err(e) => {
                return Err(e);
            },
        };
        Ok(
            LambdaPrice {
                request_price,
                gb_second_price,
                free_tier_requests: whole(1_000_000),
                free_tier_gb_seconds: whole(400_000),
            },
        )
    }

    /// What an on-demand Linux instance costs for an hour.
    pub fn ec2_price(&self, instance_type: &str) -> (r: Result<Ec2Price, PricingError>)
        ensures
            ({
                let price = ec2_of(self.loaded("ec2"@), instance_type@, self.region@);
                match r {
                    Ok(p) => price == Ok::<Amount, PricingErrorView>(p.hourly_price)
                        && p.instance_type@ == instance_type@,
                    Err(e) => price == Err::<Amount, PricingErrorView>(e@),
                }
            }),
    {
        let entries = match self.entries_required("ec2") {
            Ok(v) => v.as_slice(),
            Err(e) => {
                return Err(e);
            },
        };
        let filters = [
            ("instanceType", instance_type),
            ("operatingSystem", "Linux"),
            ("tenancy", "Shared"),
            ("preInstalledSw", "NA"),
            ("capacitystatus", "Used"),
        ];
        assert(crate::pricing::bulk_api::filter_views(filters@) =~= ec2_filters(instance_type@));
        let mut service = "ec2:".to_owned();
        service.append(instance_type);
        match required_price(
            &find_entries(entries, filters.as_slice()),
            service.as_str(),
            self.region.as_str(),
        ) {
            Ok(x) => Ok(Ec2Price { instance_type: instance_type.to_owned(), hourly_price: x }),
            Err(e) => Err(e),
        }
    }

    /// What an on-demand database instance costs for an hour.
    pub fn rds_price(&self, instance_type: &str, engine: &str) -> (r: Result<
        RdsPrice,
        PricingError,
    >)
        ensures
            ({
                let price = rds_of(self.loaded("rds"@), instance_type@, engine@, self.region@);
                match r {
                    Ok(p) => price == Ok::<Amount, PricingErrorView>(p.hourly_price)
                        && p.instance_type@ == instance_type@ && p.storage_price_per_gb == decimal(
                        138,
                        3,
                    ),
                    Err(e) => price == Err::<Amount, PricingErrorView>(e@),
                }
            }),
    {
        let entries = match self.entries_required("rds") {
            Ok(v) => v.as_slice(),
            Err(e) => {
                return Err(e);
            },
        };
        let found = if text_eq(engine, "sqlserver-se") || text_eq(engine, "sqlserver") {
            let filters = [
                ("instanceType", instance_type),
                ("databaseEngine", "SQL Server"),
                ("databaseEdition", "Standard"),
            ];
            assert(crate::pricing::bulk_api::filter_views(filters@) =~= rds_filters(
                instance_type@,
                engine@,
            ));
            find_entries(entries, filters.as_slice())
        } else {
            let name = if text_eq(engine, "mysql") || text_eq(engine, "mariadb") {
                "MySQL"
            } else if text_eq(engine, "postgres") {
                "PostgreSQL"
            } else if text_eq(engine, "aurora-mysql") {
                "Aurora MySQL"
            } else if text_eq(engine, "aurora-postgresql") {
                "Aurora PostgreSQL"
            } else {
                engine
            };
            let filters = [("instanceType", instance_type), ("databaseEngine", name)];
            assert(crate::pricing::bulk_api::filter_views(filters@) =~= rds_filters(
                instance_type@,
                engine@,
            ));
            find_entries(entries, filters.as_slice())
        };
        let mut service = "rds:".to_owned();
        service.append(engine);
        service.append(":");
        service.append(instance_type);
        match required_price(&found, service.as_str(), self.region.as_str()) {
            Ok(x) => Ok(
                RdsPrice {
                    instance_type: instance_type.to_owned(),
                    hourly_price: x,
                    storage_price_per_gb: decimal(138, 3),
                },
            ),
            Err(e) => Err(e),
        }
    }

    /// What a GB-month of general purpose database storage costs.
    pub fn rds_gp3_storage_price(&self) -> (r: Result<Amount, PricingError>)
        ensures
            crate::pricing::catalog::amount_outcome(r) == gp3_storage_of(
                self.loaded("rds"@),
                self.region@,
            ),
    {
        let entries = match self.entries_required("rds") {
            Ok(v) => v.as_slice(),
            Err(e) => {
                return Err(e);
            },
        };
        let filters = [("volumeType", "General Purpose-GP3"), ("deploymentOption", "Single-AZ")];
        assert(crate::pricing::bulk_api::filter_views(filters@) =~= seq![
            ("volumeType"@, "General Purpose-GP3"@),
            ("deploymentOption"@, "Single-AZ"@),
        ]);
        required_price(
            &find_entries_by_family(entries, "Database Storage", filters.as_slice()),
            "rds:gp3_storage",
            self.region.as_str(),
        )
    }

    /// What an operation per second above the included ones costs for a month
    /// on general purpose database storage.
    pub fn rds_gp3_iops_price(&self) -> (r: Result<Amount, PricingError>)
        ensures
            crate::pricing::catalog::amount_outcome(r) == gp3_iops_of(
                self.loaded("rds"@),
                self.region@,
            ),
    {
        let entries = match self.entries_required("rds") {
            Ok(v) => v.as_slice(),
            Err(e) => {
                return Err(e);
            },
        };
        let filters = [("group", "RDS-GP3-IOPS"), ("deploymentOption", "Single-AZ")];
        assert(crate::pricing::bulk_api::filter_views(filters@) =~= seq![
            ("group"@, "RDS-GP3-IOPS"@),
            ("deploymentOption"@, "Single-AZ"@),
        ]);
        required_price(
            &find_entries(entries, filters.as_slice()),
            "rds:gp3_iops",
            self.region.as_str(),
        )
    }

    /// What `DynamoDB` costs.
    pub fn dynamodb_price(&self) -> (r: Result<DynamoDbPrice, PricingError>)
        ensures
            dynamodb_outcome(r) == match self.loaded("dynamodb"@) {
                Some(es) => dynamodb_of(es, self.region@),
                None => Err(missing("dynamodb"@, self.region@)),
            },
    {
        let entries = match self.entries_required("dynamodb") {
            Ok(v) => v.as_slice(),
            Err(e) => {
                return Err(e);
            },
        };
        let region = self.region.as_str();
        let write_request_price = match dynamodb_required_price(
            entries,
            "dynamodb:pay_per_request_write",
            "DDB-WriteUnits",
            "PayPerRequestThroughput",
            region,
        ) {
            Ok(x) => x,
            Err(e) => {
                return Err(e);
            },
        };
        let read_request_price = match dynamodb_required_price(
            entries,
            "dynamodb:pay_per_request_read",
            "DDB-ReadUnits",
            "PayPerRequestThroughput",
            region,
        ) {
            Ok(x) => x,
            Err(e) => {
                return Err(e);
            },
        };
        let wcu_hour_price = match dynamodb_required_price(
            entries,
            "dynamodb:provisioned_wcu_hour",
            "DDB-WriteUnits",
            "CommittedThroughput",
            region,
        ) {
            Ok(x) => x,
            Err(e) => {
                return Err(e);
            },
        };
        let rcu_hour_price = match dynamodb_required_price(
            entries,
            "dynamodb:provisioned_rcu_hour",
            "DDB-ReadUnits",
            "CommittedThroughput",
            region,
        ) {
            Ok(x) => x,
            Err(e) => {
                return Err(e);
            },
        };
        let storage_price_per_gb = match dynamodb_storage_price(entries, region) {
            Ok(x) => x,
            Err(e) => {
                return Err(e);
            },
        };
        Ok(
            DynamoDbPrice {
                write_request_price,
                read_request_price,
                wcu_hour_price,
                rcu_hour_price,
                storage_price_per_gb,
                free_tier_wru: whole(25_000),
                free_tier_rru: whole(25_000),
                free_tier_storage_gb: whole(25),
            },
        )
    }

    /// What Kinesis costs.
    pub fn kinesis_price(&self) -> (r: Result<KinesisPrice, PricingError>)
        ensures
            kinesis_outcome(r) == match self.loaded("kinesis"@) {
                Some(es) => kinesis_of(es, self.region@),
                None => Err(missing("kinesis"@, self.region@)),
            },
    {
        let entries = match self.entries_required("kinesis") {
            Ok(v) => v.as_slice(),
            Err(e) => {
                return Err(e);
            },
        };
        let region = self.region.as_str();
        let shard = [("operation", "shardHourStorage"), ("group", "Provisioned shard hour")];
        let put = [("operation", "PutRequest")];
        let ingestion = [("operation", "OnDemandDataIngested"), ("group", "OnDemand")];
        let retrieval = [("operation", "OnDemandDataRetrieval"), ("group", "OnDemand")];
        let hour = [("operation", "OnDemandStreamHr"), ("group", "OnDemand")];
        proof {
            assert(crate::pricing::bulk_api::filter_views(shard@) =~= seq![
                ("operation"@, "shardHourStorage"@),
                ("group"@, "Provisioned shard hour"@),
            ]);
            assert(crate::pricing::bulk_api::filter_views(put@) =~= seq![
                ("operation"@, "PutRequest"@),
            ]);
            assert(crate::pricing::bulk_api::filter_views(ingestion@) =~= seq![
                ("operation"@, "OnDemandDataIngested"@),
                ("group"@, "OnDemand"@),
            ]);
            assert(crate::pricing::bulk_api::filter_views(retrieval@) =~= seq![
                ("operation"@, "OnDemandDataRetrieval"@),
                ("group"@, "OnDemand"@),
            ]);
            assert(crate::pricing::bulk_api::filter_views(hour@) =~= seq![
                ("operation"@, "OnDemandStreamHr"@),
                ("group"@, "OnDemand"@),
            ]);
        }
        let shard_hour_price = match kinesis_price_by_attrs(
            entries,
            "Provisioned shard hour",
            shard.as_slice(),
            region,
        ) {
            Ok(x) => x,
            Err(e) => {
                return Err(e);
            },
        };
        let put_payload_unit_price = match kinesis_price_by_attrs(
            entries,
            "PUT payload units",
            put.as_slice(),
            region,
        ) {
            Ok(x) => x,
            Err(e) => {
                return Err(e);
            },
        };
        let on_demand_ingestion_price_per_gb = match kinesis_price_by_attrs(
            entries,
            "On-Demand data ingestion",
            ingestion.as_slice(),
            region,
        ) {
            Ok(x) => x,
            Err(e) => {
                return Err(e);
            },
        };
        let on_demand_retrieval_price_per_gb = match kinesis_price_by_attrs(
            entries,
            "On-Demand GetRecords retrieval",
            retrieval.as_slice(),
            region,
        ) {
            Ok(x) => x,
            Err(e) => {
                return Err(e);
            },
        };
        let on_demand_stream_hour_price = match kinesis_price_by_attrs(
            entries,
            "On-Demand stream hour",
            hour.as_slice(),
            region,
        ) {
            Ok(x) => x,
            Err(e) => {
                return Err(e);
            },
        };
        Ok(
            KinesisPrice {
                shard_hour_price,
                put_payload_unit_price,
                on_demand_ingestion_price_per_gb,
                on_demand_retrieval_price_per_gb,
                on_demand_stream_hour_price,
            },
        )
    }
}

/// The model of a price of Lambda or an error.
pub open spec fn lambda_outcome(r: Result<LambdaPrice, PricingError>) -> Result<
    LambdaPrice,
    PricingErrorView,
> {
    match r {
        Ok(p) => Ok(p),
        Err(e) => Err(e@),
    }
}

/// The model of a price of `DynamoDB` or an error.
pub open spec fn dynamodb_outcome(r: Result<DynamoDbPrice, PricingError>) -> Result<
    DynamoDbPrice,
    PricingErrorView,
> {
    match r {
        Ok(p) => Ok(p),
        Err(e) => Err(e@),
    }
}

/// The model of a price of Kinesis or an error.
pub open spec fn kinesis_outcome(r: Result<KinesisPrice, PricingError>) -> Result<
    KinesisPrice,
    PricingErrorView,
> {
    match r {
        Ok(p) => Ok(p),
        Err(e) => Err(e@),
    }
}

// ---------------------------------------------------------------------------
// Loading
// ---------------------------------------------------------------------------

/// The name is one of the first `n` services.
spec fn listed(n: int, name: Seq<char>) -> bool {
    exists|i: int| 0 <= i < n && (#[trigger] FILE_SERVICES@[i])@ == name
}

/// The entries of a service's file.
spec fn file_entries(files: Seq<(Seq<char>, BulkPricingFile)>, s: Seq<char>) -> Option<
    Seq<EntryView>,
> {
    match crate::strmap::lookup(files, s) {
        Some(f) => Some(crate::pricing::bulk_api::entries_of(f@)),
        None => None,
    }
}

/// What is known about a service's file.
spec fn file_metadata(
    files: Seq<(Seq<char>, BulkPricingFile)>,
    s: Seq<char>,
    region: Seq<char>,
) -> Option<MetadataView> {
    match crate::strmap::lookup(files, s) {
        Some(f) => Some(metadata_of(s, region, f@)),
        None => None,
    }
}

/// The entries that are loaded for a service.
spec fn loaded_after(services: Seq<(Seq<char>, Vec<PricingEntry>)>, s: Seq<char>) -> Option<
    Seq<EntryView>,
> {
    match crate::strmap::lookup(services, s) {
        Some(v) => Some(crate::pricing::bulk_api::pricing_views(v@)),
        None => None,
    }
}

/// What is known about the file of a service.
spec fn known_after(metadata: Seq<(Seq<char>, PricingMetadata)>, s: Seq<char>) -> Option<
    MetadataView,
> {
    match crate::strmap::lookup(metadata, s) {
        Some(m) => Some(m@),
        None => None,
    }
}

/// One more service is listed.
proof fn lemma_listed(n: int, name: Seq<char>)
    requires
        0 <= n < 5,
    ensures
        listed(n + 1, name) == (listed(n, name) || FILE_SERVICES@[n]@ == name),
{
    if listed(n + 1, name) {
        let i = choose|i: int| 0 <= i < n + 1 && (#[trigger] FILE_SERVICES@[i])@ == name;
        assert(i < n ==> listed(n, name));
    }
    if listed(n, name) {
        let i = choose|i: int| 0 <= i < n && (#[trigger] FILE_SERVICES@[i])@ == name;
        assert(0 <= i < n + 1 && FILE_SERVICES@[i]@ == name);
    }
    if FILE_SERVICES@[n]@ == name {
        assert(listed(n + 1, name));
    }
}

/// The listed services are those whose prices are read from files.
proof fn lemma_all_listed(name: Seq<char>)
    ensures
        listed(5, name) == is_file_service(name),
{
    assert(FILE_SERVICES@[0]@ == "lambda"@);
    assert(FILE_SERVICES@[1]@ == "ec2"@);
    assert(FILE_SERVICES@[2]@ == "rds"@);
    assert(FILE_SERVICES@[3]@ == "dynamodb"@);
    assert(FILE_SERVICES@[4]@ == "kinesis"@);
    if listed(5, name) {
        let i = choose|i: int| 0 <= i < 5 && (#[trigger] FILE_SERVICES@[i])@ == name;
        assert(i == 0 || i == 1 || i == 2 || i == 3 || i == 4);
    }
}

// ---------------------------------------------------------------------------
// Laws
// ---------------------------------------------------------------------------

/// A price out of files is above zero: where no entry has such a price, the
/// lookup fails.
pub proof fn law_required_price_is_positive(
    entries: Seq<EntryView>,
    service: Seq<char>,
    region: Seq<char>,
)
    ensures
        match required(entries, service, region) {
            Ok(x) => x.positive(),
            Err(e) => e == missing(service, region) && forall|i: int|
                0 <= i < entries.len() ==> crate::pricing::bulk_api::positive_price(
                    (#[trigger] entries[i]).dimensions,
                ) is None,
        },
    decreases entries.len(),
{
    if entries.len() > 0 {
        let rest = entries.drop_first();
        crate::pricing::bulk_api::law_found_price_is_positive(entries[0].dimensions);
        law_required_price_is_positive(rest, service, region);
        if first_of(entries) is None {
            assert forall|i: int|
                0 <= i < entries.len() implies crate::pricing::bulk_api::positive_price(
                (#[trigger] entries[i]).dimensions,
            ) is None by {
                if i > 0 {
                    assert(rest[i - 1] == entries[i]);
                }
            }
        }
    }
}

} // verus!
