//! What holds of the prices that files give.

use vstd::prelude::*;

use crate::amount::Amount;
use crate::pricing::bulk_api::DimensionView;
use crate::pricing::bulk_api::EntryView;
use crate::pricing::error::PricingErrorView;
use crate::strmap::lookup;

verus! {

// ---------------------------------------------------------------------------
// First prices
// ---------------------------------------------------------------------------

/// The dimension at `d` is the first with a price above zero.
pub open spec fn first_positive(dims: Seq<DimensionView>, d: int) -> bool {
    0 <= d < dims.len() && dims[d].price_usd.positive() && forall|j: int|
        0 <= j < d ==> !(#[trigger] dims[j]).price_usd.positive()
}

/// No dimension has a price above zero.
pub open spec fn none_positive(dims: Seq<DimensionView>) -> bool {
    forall|j: int| 0 <= j < dims.len() ==> !(#[trigger] dims[j]).price_usd.positive()
}

/// What a lookup gives is the first price above zero of the first entry that is
/// asked for and has one; where none has, the lookup fails with the names of the
/// service and the region.
pub open spec fn is_first_price(
    r: Result<Amount, PricingErrorView>,
    entries: Seq<EntryView>,
    asked: spec_fn(EntryView) -> bool,
    service: Seq<char>,
    region: Seq<char>,
) -> bool {
    match r {
        Ok(x) => exists|i: int, d: int|
            0 <= i < entries.len() && asked(#[trigger] entries[i]) && #[trigger] first_positive(
                entries[i].dimensions,
                d,
            ) && entries[i].dimensions[d].price_usd == x && forall|j: int|
                0 <= j < i && asked(#[trigger] entries[j]) ==> none_positive(entries[j].dimensions),
        Err(e) => e == PricingErrorView::NotFound { service, region } && forall|j: int|
            0 <= j < entries.len() && asked(#[trigger] entries[j]) ==> none_positive(
                entries[j].dimensions,
            ),
    }
}

proof fn lemma_positive_price(dims: Seq<DimensionView>)
    ensures
        match crate::pricing::bulk_api::positive_price(dims) {
            Some(x) => exists|d: int|
                #[trigger] first_positive(dims, d) && dims[d].price_usd == x,
            None => none_positive(dims),
        },
    decreases dims.len(),
{
    if dims.len() > 0 {
        if dims[0].price_usd.positive() {
            assert(first_positive(dims, 0));
        } else {
            let t = dims.drop_first();
            lemma_positive_price(t);
            match crate::pricing::bulk_api::positive_price(t) {
                Some(x) => {
                    let d = choose|d: int|
                        #[trigger] first_positive(t, d) && t[d].price_usd == x;
                    assert(dims[d + 1] == t[d]);
                    assert forall|j: int| 0 <= j < d + 1 implies !(
                    #[trigger] dims[j]).price_usd.positive() by {
                        if j > 0 {
                            assert(!t[j - 1].price_usd.positive());
                        }
                    }
                    assert(first_positive(dims, d + 1));
                },
                None => {
                    assert forall|j: int| 0 <= j < dims.len() implies !(
                    #[trigger] dims[j]).price_usd.positive() by {
                        if j > 0 {
                            assert(!t[j - 1].price_usd.positive());
                        }
                    }
                },
            }
        }
    }
}

/// The first price among entries that end with one more.
proof fn lemma_first_push(s: Seq<EntryView>, e: EntryView)
    ensures
        crate::pricing::file_registry::first_of(s.push(e)) == match crate::pricing::file_registry::first_of(
            s,
        ) {
            Some(x) => Some(x),
            None => crate::pricing::bulk_api::positive_price(e.dimensions),
        },
    decreases s.len(),
{
    reveal_with_fuel(crate::pricing::file_registry::first_of, 2);
    if s.len() > 0 {
        assert(s.push(e).drop_first() =~= s.drop_first().push(e));
        lemma_first_push(s.drop_first(), e);
    } else {
        assert(s.push(e).drop_first() =~= Seq::empty());
    }
}

proof fn lemma_required(
    entries: Seq<EntryView>,
    p: spec_fn(EntryView) -> bool,
    asked: spec_fn(EntryView) -> bool,
    service: Seq<char>,
    region: Seq<char>,
)
    requires
        forall|e: EntryView| #[trigger] p(e) == asked(e),
    ensures
        is_first_price(
            crate::pricing::file_registry::required(
                crate::pricing::bulk_api::selected(entries, p),
                service,
                region,
            ),
            entries,
            asked,
            service,
            region,
        ),
    decreases entries.len(),
{
    if entries.len() > 0 {
        let t = entries.drop_last();
        let last = entries.last();
        let n = entries.len() - 1;
        lemma_required(t, p, asked, service, region);
        let before = crate::pricing::file_registry::required(
            crate::pricing::bulk_api::selected(t, p),
            service,
            region,
        );
        assert(p(last) == asked(last));
        assert(entries[n] == last);
        if p(last) {
            lemma_first_push(crate::pricing::bulk_api::selected(t, p), last);
        }
        match before {
            Ok(x) => {
                let (i, d) = choose|i: int, d: int|
                    0 <= i < t.len() && asked(#[trigger] t[i]) && #[trigger] first_positive(
                        t[i].dimensions,
                        d,
                    ) && t[i].dimensions[d].price_usd == x && forall|j: int|
                        0 <= j < i && asked(#[trigger] t[j]) ==> none_positive(t[j].dimensions);
                assert(entries[i] == t[i]);
                assert forall|j: int| 0 <= j < i && asked(
                    #[trigger] entries[j],
                ) implies none_positive(entries[j].dimensions) by {
                    assert(entries[j] == t[j]);
                }
                assert(first_positive(entries[i].dimensions, d));
            },
            Err(e) => {
                assert forall|j: int| 0 <= j < n && asked(
                    #[trigger] entries[j],
                ) implies none_positive(entries[j].dimensions) by {
                    assert(entries[j] == t[j]);
                }
                if p(last) {
                    lemma_positive_price(last.dimensions);
                    if let Some(x) = crate::pricing::bulk_api::positive_price(last.dimensions) {
                        let d = choose|d: int|
                            #[trigger] first_positive(last.dimensions, d)
                                && last.dimensions[d].price_usd == x;
                        assert(first_positive(entries[n].dimensions, d));
                    }
                }
            },
        }
    }
}

proof fn lemma_two(
    e: EntryView,
    a: (Seq<char>, Seq<char>),
    b: (Seq<char>, Seq<char>),
)
    ensures
        crate::pricing::bulk_api::passes(e, seq![a]) <==> lookup(e.attributes, a.0) == Some(a.1),
        crate::pricing::bulk_api::passes(e, seq![a, b]) <==> lookup(e.attributes, a.0) == Some(a.1)
            && lookup(e.attributes, b.0) == Some(b.1),
{
    let f = seq![a, b];
    let g = seq![a];
    assert(g[0] == a);
    assert(f[0] == a && f[1] == b);
    if crate::pricing::bulk_api::passes(e, f) {
        assert(lookup(e.attributes, f[0].0) == Some(f[0].1));
        assert(lookup(e.attributes, f[1].0) == Some(f[1].1));
    }
    if crate::pricing::bulk_api::passes(e, g) {
        assert(lookup(e.attributes, g[0].0) == Some(g[0].1));
    }
}

// ---------------------------------------------------------------------------
// Instances
// ---------------------------------------------------------------------------

/// The price of an instance is the first price above zero of an entry about
/// that type, on Linux, with shared tenancy, without installed software, in
/// use.
pub proof fn law_ec2_price(entries: Seq<EntryView>, instance_type: Seq<char>, region: Seq<char>)
    ensures
        is_first_price(
            crate::pricing::file_registry::ec2_of(Some(entries), instance_type, region),
            entries,
            |e: EntryView|
                lookup(e.attributes, "instanceType"@) == Some(instance_type) && lookup(
                    e.attributes,
                    "operatingSystem"@,
                ) == Some("Linux"@) && lookup(e.attributes, "tenancy"@) == Some("Shared"@)
                    && lookup(e.attributes, "preInstalledSw"@) == Some("NA"@) && lookup(
                    e.attributes,
                    "capacitystatus"@,
                ) == Some("Used"@),
            "ec2:"@ + instance_type,
            region,
        ),
        crate::pricing::file_registry::ec2_of(None, instance_type, region) == Err::<
            Amount,
            PricingErrorView,
        >(PricingErrorView::NotFound { service: "ec2"@, region }),
{
    let f = crate::pricing::file_registry::ec2_filters(instance_type);
    let p = |e: EntryView| crate::pricing::bulk_api::passes(e, f);
    let asked = |e: EntryView|
        lookup(e.attributes, "instanceType"@) == Some(instance_type) && lookup(
            e.attributes,
            "operatingSystem"@,
        ) == Some("Linux"@) && lookup(e.attributes, "tenancy"@) == Some("Shared"@) && lookup(
            e.attributes,
            "preInstalledSw"@,
        ) == Some("NA"@) && lookup(e.attributes, "capacitystatus"@) == Some("Used"@);
    assert forall|e: EntryView| #[trigger] p(e) == asked(e) by {
        if p(e) {
            assert(lookup(e.attributes, f[0].0) == Some(f[0].1));
            assert(lookup(e.attributes, f[1].0) == Some(f[1].1));
            assert(lookup(e.attributes, f[2].0) == Some(f[2].1));
            assert(lookup(e.attributes, f[3].0) == Some(f[3].1));
            assert(lookup(e.attributes, f[4].0) == Some(f[4].1));
        }
    }
    lemma_required(entries, p, asked, "ec2:"@ + instance_type, region);
}

/// The price of a database instance is the first price above zero of an entry
/// about that type and about its engine, under the name that price files have
/// for it: `MySQL` for `mysql` and `mariadb`, `PostgreSQL` for `postgres`,
/// `Aurora MySQL` for `aurora-mysql`, `Aurora PostgreSQL` for
/// `aurora-postgresql`, and any other engine under its own name.
pub proof fn law_rds_price(
    entries: Seq<EntryView>,
    instance_type: Seq<char>,
    engine: Seq<char>,
    name: Seq<char>,
    region: Seq<char>,
)
    requires
        ({
            ||| (engine == "mysql"@ || engine == "mariadb"@) && name == "MySQL"@
            ||| engine == "postgres"@ && name == "PostgreSQL"@
            ||| engine == "aurora-mysql"@ && name == "Aurora MySQL"@
            ||| engine == "aurora-postgresql"@ && name == "Aurora PostgreSQL"@
            ||| engine != "mysql"@ && engine != "mariadb"@ && engine != "postgres"@ && engine
                != "aurora-mysql"@ && engine != "aurora-postgresql"@ && engine != "sqlserver"@
                && engine != "sqlserver-se"@ && name == engine
        }),
    ensures
        is_first_price(
            crate::pricing::file_registry::rds_of(Some(entries), instance_type, engine, region),
            entries,
            |e: EntryView|
                lookup(e.attributes, "instanceType"@) == Some(instance_type) && lookup(
                    e.attributes,
                    "databaseEngine"@,
                ) == Some(name),
            "rds:"@ + engine + ":"@ + instance_type,
            region,
        ),
        crate::pricing::file_registry::rds_of(None, instance_type, engine, region) == Err::<
            Amount,
            PricingErrorView,
        >(PricingErrorView::NotFound { service: "rds"@, region }),
{
    reveal_strlit("sqlserver-se");
    reveal_strlit("sqlserver");
    reveal_strlit("mysql");
    reveal_strlit("mariadb");
    reveal_strlit("postgres");
    reveal_strlit("aurora-mysql");
    reveal_strlit("aurora-postgresql");
    assert("sqlserver-se"@.len() == 12);
    assert("sqlserver"@.len() == 9);
    assert("mysql"@.len() == 5);
    assert("mariadb"@.len() == 7);
    assert("postgres"@.len() == 8);
    assert("aurora-mysql"@.len() == 12);
    assert("aurora-postgresql"@.len() == 17);
    assert("sqlserver-se"@[0] != "aurora-mysql"@[0]);
    let f = crate::pricing::file_registry::rds_filters(instance_type, engine);
    assert(f =~= seq![("instanceType"@, instance_type), ("databaseEngine"@, name)]);
    let p = |e: EntryView| crate::pricing::bulk_api::passes(e, f);
    let asked = |e: EntryView|
        lookup(e.attributes, "instanceType"@) == Some(instance_type) && lookup(
            e.attributes,
            "databaseEngine"@,
        ) == Some(name);
    assert forall|e: EntryView| #[trigger] p(e) == asked(e) by {
        lemma_two(e, ("instanceType"@, instance_type), ("databaseEngine"@, name));
    }
    lemma_required(entries, p, asked, "rds:"@ + engine + ":"@ + instance_type, region);
}

/// The price of a SQL Server instance is that of its standard edition.
pub proof fn law_sql_server_price(
    entries: Seq<EntryView>,
    instance_type: Seq<char>,
    engine: Seq<char>,
    region: Seq<char>,
)
    requires
        engine == "sqlserver"@ || engine == "sqlserver-se"@,
    ensures
        is_first_price(
            crate::pricing::file_registry::rds_of(Some(entries), instance_type, engine, region),
            entries,
            |e: EntryView|
                lookup(e.attributes, "instanceType"@) == Some(instance_type) && lookup(
                    e.attributes,
                    "databaseEngine"@,
                ) == Some("SQL Server"@) && lookup(e.attributes, "databaseEdition"@) == Some(
                    "Standard"@,
                ),
            "rds:"@ + engine + ":"@ + instance_type,
            region,
        ),
{
    let f = crate::pricing::file_registry::rds_filters(instance_type, engine);
    let p = |e: EntryView| crate::pricing::bulk_api::passes(e, f);
    let asked = |e: EntryView|
        lookup(e.attributes, "instanceType"@) == Some(instance_type) && lookup(
            e.attributes,
            "databaseEngine"@,
        ) == Some("SQL Server"@) && lookup(e.attributes, "databaseEdition"@) == Some("Standard"@);
    assert forall|e: EntryView| #[trigger] p(e) == asked(e) by {
        if p(e) {
            assert(lookup(e.attributes, f[0].0) == Some(f[0].1));
            assert(lookup(e.attributes, f[1].0) == Some(f[1].1));
            assert(lookup(e.attributes, f[2].0) == Some(f[2].1));
        }
    }
    lemma_required(entries, p, asked, "rds:"@ + engine + ":"@ + instance_type, region);
}

/// General purpose database storage and its operations have the first price
/// above zero of an entry about them for a single zone.
pub proof fn law_gp3_prices(entries: Seq<EntryView>, region: Seq<char>)
    ensures
        is_first_price(
            crate::pricing::file_registry::gp3_storage_of(Some(entries), region),
            entries,
            |e: EntryView|
                e.product_family == "Database Storage"@ && lookup(e.attributes, "volumeType"@)
                    == Some("General Purpose-GP3"@) && lookup(e.attributes, "deploymentOption"@)
                    == Some("Single-AZ"@),
            "rds:gp3_storage"@,
            region,
        ),
        is_first_price(
            crate::pricing::file_registry::gp3_iops_of(Some(entries), region),
            entries,
            |e: EntryView|
                lookup(e.attributes, "group"@) == Some("RDS-GP3-IOPS"@) && lookup(
                    e.attributes,
                    "deploymentOption"@,
                ) == Some("Single-AZ"@),
            "rds:gp3_iops"@,
            region,
        ),
        crate::pricing::file_registry::gp3_storage_of(None, region) == Err::<
            Amount,
            PricingErrorView,
        >(PricingErrorView::NotFound { service: "rds"@, region }),
        crate::pricing::file_registry::gp3_iops_of(None, region) == Err::<Amount, PricingErrorView>(
            PricingErrorView::NotFound { service: "rds"@, region },
        ),
{
    let f = seq![
        ("volumeType"@, "General Purpose-GP3"@),
        ("deploymentOption"@, "Single-AZ"@),
    ];
    let p = |e: EntryView|
        e.product_family == "Database Storage"@ && crate::pricing::bulk_api::passes(e, f);
    let asked = |e: EntryView|
        e.product_family == "Database Storage"@ && lookup(e.attributes, "volumeType"@) == Some(
            "General Purpose-GP3"@,
        ) && lookup(e.attributes, "deploymentOption"@) == Some("Single-AZ"@);
    assert forall|e: EntryView| #[trigger] p(e) == asked(e) by {
        lemma_two(e, f[0], f[1]);
    }
    lemma_required(entries, p, asked, "rds:gp3_storage"@, region);
    let g = seq![("group"@, "RDS-GP3-IOPS"@), ("deploymentOption"@, "Single-AZ"@)];
    let q = |e: EntryView| crate::pricing::bulk_api::passes(e, g);
    let wanted = |e: EntryView|
        lookup(e.attributes, "group"@) == Some("RDS-GP3-IOPS"@) && lookup(
            e.attributes,
            "deploymentOption"@,
        ) == Some("Single-AZ"@);
    assert forall|e: EntryView| #[trigger] q(e) == wanted(e) by {
        lemma_two(e, g[0], g[1]);
    }
    lemma_required(entries, q, wanted, "rds:gp3_iops"@, region);
}

// ---------------------------------------------------------------------------
// Functions, tables and streams
// ---------------------------------------------------------------------------

/// Requests and duration of functions have the first price above zero of an
/// entry of their group; a million requests and 400,000 GB-seconds are free.
pub proof fn law_lambda_price(entries: Seq<EntryView>, region: Seq<char>)
    ensures
        match crate::pricing::file_registry::lambda_of(entries, region) {
            Ok(p) => is_first_price(
                Ok(p.request_price),
                entries,
                |e: EntryView| lookup(e.attributes, "group"@) == Some("AWS-Lambda-Requests"@),
                "lambda:AWS-Lambda-Requests"@,
                region,
            ) && is_first_price(
                Ok(p.gb_second_price),
                entries,
                |e: EntryView| lookup(e.attributes, "group"@) == Some("AWS-Lambda-Duration"@),
                "lambda:AWS-Lambda-Duration"@,
                region,
            ) && p.free_tier_requests == (Amount::Decimal { units: 1_000_000, scale: 0, per: 1 })
                && p.free_tier_gb_seconds == (Amount::Decimal { units: 400_000, scale: 0, per: 1 }),
            Err(x) => is_first_price(
                Err(x),
                entries,
                |e: EntryView| lookup(e.attributes, "group"@) == Some("AWS-Lambda-Requests"@),
                "lambda:AWS-Lambda-Requests"@,
                region,
            ) || is_first_price(
                Err(x),
                entries,
                |e: EntryView| lookup(e.attributes, "group"@) == Some("AWS-Lambda-Duration"@),
                "lambda:AWS-Lambda-Duration"@,
                region,
            ),
        },
{
    let f = seq![("group"@, "AWS-Lambda-Requests"@)];
    let g = seq![("group"@, "AWS-Lambda-Duration"@)];
    let p = |e: EntryView| crate::pricing::bulk_api::passes(e, f);
    let q = |e: EntryView| crate::pricing::bulk_api::passes(e, g);
    let a = |e: EntryView| lookup(e.attributes, "group"@) == Some("AWS-Lambda-Requests"@);
    let b = |e: EntryView| lookup(e.attributes, "group"@) == Some("AWS-Lambda-Duration"@);
    assert forall|e: EntryView| #[trigger] p(e) == a(e) by {
        lemma_two(e, f[0], f[0]);
    }
    assert forall|e: EntryView| #[trigger] q(e) == b(e) by {
        lemma_two(e, g[0], g[0]);
    }
    lemma_required(entries, p, a, "lambda:AWS-Lambda-Requests"@, region);
    lemma_required(entries, q, b, "lambda:AWS-Lambda-Duration"@, region);
}

/// An entry is about tables of the standard class: it names that class, or
/// names none, and neither its usage type nor a description speaks of
/// infrequent access.
pub open spec fn standard_tables(e: EntryView) -> bool {
    match lookup(e.attributes, "tableClass"@) {
        Some(c) => c == "Standard"@ || c == "DynamoDB Standard"@ || c
            == "DynamoDB Standard table class"@,
        None => (lookup(e.attributes, "usagetype"@) is None || !crate::text::contains_text(
            lookup(e.attributes, "usagetype"@)->Some_0,
            "-IA-"@,
        )) && forall|i: int|
            0 <= i < e.dimensions.len() ==> !crate::text::contains_text(
                (#[trigger] e.dimensions[i]).description,
                "Standard-IA"@,
            ) && !crate::text::contains_text(
                e.dimensions[i].description,
                "Standard Infrequent Access"@,
            ),
    }
}

proof fn lemma_standard(e: EntryView)
    ensures
        crate::pricing::file_registry::is_standard_class(e) == standard_tables(e),
{
    if crate::pricing::file_registry::any_infrequent_access(e.dimensions) {
        let i = choose|i: int|
            0 <= i < e.dimensions.len()
                && crate::pricing::file_registry::speaks_of_infrequent_access(
                #[trigger] e.dimensions[i],
            );
        assert(crate::text::contains_text(e.dimensions[i].description, "Standard-IA"@)
            || crate::text::contains_text(
            e.dimensions[i].description,
            "Standard Infrequent Access"@,
        ));
    } else {
        assert forall|i: int| 0 <= i < e.dimensions.len() implies !crate::text::contains_text(
            (#[trigger] e.dimensions[i]).description,
            "Standard-IA"@,
        ) && !crate::text::contains_text(
            e.dimensions[i].description,
            "Standard Infrequent Access"@,
        ) by {
            assert(!crate::pricing::file_registry::speaks_of_infrequent_access(e.dimensions[i]));
        }
    }
}

/// Throughput of tables has the first price above zero of an entry of the group
/// and the operation about tables of the standard class, and storage that of an
/// entry about timed storage of such tables.
pub proof fn law_table_prices(
    entries: Seq<EntryView>,
    label: Seq<char>,
    group: Seq<char>,
    operation: Seq<char>,
    region: Seq<char>,
)
    ensures
        is_first_price(
            crate::pricing::file_registry::throughput_of(entries, label, group, operation, region),
            entries,
            |e: EntryView|
                lookup(e.attributes, "group"@) == Some(group) && lookup(e.attributes, "operation"@)
                    == Some(operation) && standard_tables(e),
            label,
            region,
        ),
        is_first_price(
            crate::pricing::file_registry::table_storage_of(entries, region),
            entries,
            |e: EntryView|
                e.product_family == "Database Storage"@ && standard_tables(e) && lookup(
                    e.attributes,
                    "usagetype"@,
                ) is Some && crate::text::has_suffix(
                    lookup(e.attributes, "usagetype"@)->Some_0,
                    "-TimedStorage-ByteHrs"@,
                ),
            "dynamodb:storage"@,
            region,
        ),
{
    let p = |e: EntryView|
        crate::pricing::bulk_api::passes(e, seq![("group"@, group), ("operation"@, operation)])
            && crate::pricing::file_registry::is_standard_class(e);
    let a = |e: EntryView|
        lookup(e.attributes, "group"@) == Some(group) && lookup(e.attributes, "operation"@) == Some(
            operation,
        ) && standard_tables(e);
    assert forall|e: EntryView| #[trigger] p(e) == a(e) by {
        lemma_two(e, ("group"@, group), ("operation"@, operation));
        lemma_standard(e);
    }
    lemma_required(entries, p, a, label, region);
    let q = |e: EntryView| crate::pricing::file_registry::is_table_storage(e);
    let b = |e: EntryView|
        e.product_family == "Database Storage"@ && standard_tables(e) && lookup(
            e.attributes,
            "usagetype"@,
        ) is Some && crate::text::has_suffix(
            lookup(e.attributes, "usagetype"@)->Some_0,
            "-TimedStorage-ByteHrs"@,
        );
    assert forall|e: EntryView| #[trigger] q(e) == b(e) by {
        lemma_standard(e);
    }
    lemma_required(entries, q, b, "dynamodb:storage"@, region);
}

/// The group and the operation that an entry is about.
pub open spec fn is_throughput(e: EntryView, group: Seq<char>, operation: Seq<char>) -> bool {
    lookup(e.attributes, "group"@) == Some(group) && lookup(e.attributes, "operation"@) == Some(
        operation,
    ) && standard_tables(e)
}

/// Writes, reads, write capacity and read capacity of tables have the price of
/// their group and operation, and storage its own; 25,000 writes and reads and
/// 25 GB are free.
pub proof fn law_dynamodb_price(entries: Seq<EntryView>, region: Seq<char>)
    ensures
        crate::pricing::file_registry::dynamodb_of(entries, region) matches Ok(p) ==> ({
            &&& is_first_price(
                Ok(p.write_request_price),
                entries,
                |e: EntryView| is_throughput(e, "DDB-WriteUnits"@, "PayPerRequestThroughput"@),
                "dynamodb:pay_per_request_write"@,
                region,
            )
            &&& is_first_price(
                Ok(p.read_request_price),
                entries,
                |e: EntryView| is_throughput(e, "DDB-ReadUnits"@, "PayPerRequestThroughput"@),
                "dynamodb:pay_per_request_read"@,
                region,
            )
            &&& is_first_price(
                Ok(p.wcu_hour_price),
                entries,
                |e: EntryView| is_throughput(e, "DDB-WriteUnits"@, "CommittedThroughput"@),
                "dynamodb:provisioned_wcu_hour"@,
                region,
            )
            &&& is_first_price(
                Ok(p.rcu_hour_price),
                entries,
                |e: EntryView| is_throughput(e, "DDB-ReadUnits"@, "CommittedThroughput"@),
                "dynamodb:provisioned_rcu_hour"@,
                region,
            )
            &&& crate::pricing::file_registry::table_storage_of(entries, region) == Ok::<
                Amount,
                PricingErrorView,
            >(p.storage_price_per_gb)
            &&& p.free_tier_wru == (Amount::Decimal { units: 25_000, scale: 0, per: 1 })
            &&& p.free_tier_rru == (Amount::Decimal { units: 25_000, scale: 0, per: 1 })
            &&& p.free_tier_storage_gb == (Amount::Decimal { units: 25, scale: 0, per: 1 })
        }),
{
    lemma_throughput(
        entries,
        "dynamodb:pay_per_request_write"@,
        "DDB-WriteUnits"@,
        "PayPerRequestThroughput"@,
        region,
    );
    lemma_throughput(
        entries,
        "dynamodb:pay_per_request_read"@,
        "DDB-ReadUnits"@,
        "PayPerRequestThroughput"@,
        region,
    );
    lemma_throughput(
        entries,
        "dynamodb:provisioned_wcu_hour"@,
        "DDB-WriteUnits"@,
        "CommittedThroughput"@,
        region,
    );
    lemma_throughput(
        entries,
        "dynamodb:provisioned_rcu_hour"@,
        "DDB-ReadUnits"@,
        "CommittedThroughput"@,
        region,
    );
}

proof fn lemma_throughput(
    entries: Seq<EntryView>,
    label: Seq<char>,
    group: Seq<char>,
    operation: Seq<char>,
    region: Seq<char>,
)
    ensures
        is_first_price(
            crate::pricing::file_registry::throughput_of(entries, label, group, operation, region),
            entries,
            |e: EntryView| is_throughput(e, group, operation),
            label,
            region,
        ),
{
    let p = |e: EntryView|
        crate::pricing::bulk_api::passes(e, seq![("group"@, group), ("operation"@, operation)])
            && crate::pricing::file_registry::is_standard_class(e);
    let a = |e: EntryView| is_throughput(e, group, operation);
    assert forall|e: EntryView| #[trigger] p(e) == a(e) by {
        lemma_two(e, ("group"@, group), ("operation"@, operation));
        lemma_standard(e);
    }
    lemma_required(entries, p, a, label, region);
}

/// Something of a stream, by its operation and, where one is given, its group.
pub open spec fn is_stream_part(e: EntryView, operation: Seq<char>, group: Option<Seq<char>>) -> bool {
    e.product_family == "Kinesis Streams"@ && lookup(e.attributes, "operation"@) == Some(operation)
        && (group is Some ==> lookup(e.attributes, "group"@) == group)
}

proof fn lemma_stream_part(
    entries: Seq<EntryView>,
    label: Seq<char>,
    operation: Seq<char>,
    group: Option<Seq<char>>,
    region: Seq<char>,
)
    ensures
        is_first_price(
            crate::pricing::file_registry::kinesis_part(
                entries,
                label,
                match group {
                    Some(g) => seq![("operation"@, operation), ("group"@, g)],
                    None => seq![("operation"@, operation)],
                },
                region,
            ),
            entries,
            |e: EntryView| is_stream_part(e, operation, group),
            "kinesis:"@ + label,
            region,
        ),
{
    let f = match group {
        Some(g) => seq![("operation"@, operation), ("group"@, g)],
        None => seq![("operation"@, operation)],
    };
    let p = |e: EntryView|
        e.product_family == "Kinesis Streams"@ && crate::pricing::bulk_api::passes(e, f);
    let a = |e: EntryView| is_stream_part(e, operation, group);
    assert forall|e: EntryView| #[trigger] p(e) == a(e) by {
        match group {
            Some(g) => {
                lemma_two(e, ("operation"@, operation), ("group"@, g));
            },
            None => {
                lemma_two(e, ("operation"@, operation), ("operation"@, operation));
            },
        }
    }
    lemma_required(entries, p, a, "kinesis:"@ + label, region);
}

/// Shards, payload units, and what a stream on demand takes in, gives out and
/// lasts have each the price of their operation and group.
pub proof fn law_kinesis_price(entries: Seq<EntryView>, region: Seq<char>)
    ensures
        crate::pricing::file_registry::kinesis_of(entries, region) matches Ok(p) ==> ({
            &&& is_first_price(
                Ok(p.shard_hour_price),
                entries,
                |e: EntryView|
                    is_stream_part(e, "shardHourStorage"@, Some("Provisioned shard hour"@)),
                "kinesis:"@ + "Provisioned shard hour"@,
                region,
            )
            &&& is_first_price(
                Ok(p.put_payload_unit_price),
                entries,
                |e: EntryView| is_stream_part(e, "PutRequest"@, None),
                "kinesis:"@ + "PUT payload units"@,
                region,
            )
            &&& is_first_price(
                Ok(p.on_demand_ingestion_price_per_gb),
                entries,
                |e: EntryView| is_stream_part(e, "OnDemandDataIngested"@, Some("OnDemand"@)),
                "kinesis:"@ + "On-Demand data ingestion"@,
                region,
            )
            &&& is_first_price(
                Ok(p.on_demand_retrieval_price_per_gb),
                entries,
                |e: EntryView| is_stream_part(e, "OnDemandDataRetrieval"@, Some("OnDemand"@)),
                "kinesis:"@ + "On-Demand GetRecords retrieval"@,
                region,
            )
            &&& is_first_price(
                Ok(p.on_demand_stream_hour_price),
                entries,
                |e: EntryView| is_stream_part(e, "OnDemandStreamHr"@, Some("OnDemand"@)),
                "kinesis:"@ + "On-Demand stream hour"@,
                region,
            )
        }),
{
    lemma_stream_part(
        entries,
        "Provisioned shard hour"@,
        "shardHourStorage"@,
        Some("Provisioned shard hour"@),
        region,
    );
    lemma_stream_part(entries, "PUT payload units"@, "PutRequest"@, None, region);
    lemma_stream_part(
        entries,
        "On-Demand data ingestion"@,
        "OnDemandDataIngested"@,
        Some("OnDemand"@),
        region,
    );
    lemma_stream_part(
        entries,
        "On-Demand GetRecords retrieval"@,
        "OnDemandDataRetrieval"@,
        Some("OnDemand"@),
        region,
    );
    lemma_stream_part(
        entries,
        "On-Demand stream hour"@,
        "OnDemandStreamHr"@,
        Some("OnDemand"@),
        region,
    );
}

/// Tables and streams are without a price where one of their parts is.
pub proof fn law_no_part_no_price(entries: Seq<EntryView>, region: Seq<char>)
    ensures
        crate::pricing::file_registry::dynamodb_of(entries, region) is Err <==> ({
            ||| crate::pricing::file_registry::throughput_of(
                entries,
                "dynamodb:pay_per_request_write"@,
                "DDB-WriteUnits"@,
                "PayPerRequestThroughput"@,
                region,
            ) is Err
            ||| crate::pricing::file_registry::throughput_of(
                entries,
                "dynamodb:pay_per_request_read"@,
                "DDB-ReadUnits"@,
                "PayPerRequestThroughput"@,
                region,
            ) is Err
            ||| crate::pricing::file_registry::throughput_of(
                entries,
                "dynamodb:provisioned_wcu_hour"@,
                "DDB-WriteUnits"@,
                "CommittedThroughput"@,
                region,
            ) is Err
            ||| crate::pricing::file_registry::throughput_of(
                entries,
                "dynamodb:provisioned_rcu_hour"@,
                "DDB-ReadUnits"@,
                "CommittedThroughput"@,
                region,
            ) is Err
            ||| crate::pricing::file_registry::table_storage_of(entries, region) is Err
        }),
{
}

/// Where a stream or a table has no price, the error names a part of which no entry
/// has one.
pub proof fn law_missing_part_is_named(entries: Seq<EntryView>, region: Seq<char>)
    ensures
        crate::pricing::file_registry::kinesis_of(entries, region) matches Err(x) ==> {
            ||| is_first_price(
                Err(x),
                entries,
                |e: EntryView| is_stream_part(e, "shardHourStorage"@, Some("Provisioned shard hour"@)),
                "kinesis:"@ + "Provisioned shard hour"@,
                region,
            )
            ||| is_first_price(
                Err(x),
                entries,
                |e: EntryView| is_stream_part(e, "PutRequest"@, None),
                "kinesis:"@ + "PUT payload units"@,
                region,
            )
            ||| is_first_price(
                Err(x),
                entries,
                |e: EntryView| is_stream_part(e, "OnDemandDataIngested"@, Some("OnDemand"@)),
                "kinesis:"@ + "On-Demand data ingestion"@,
                region,
            )
            ||| is_first_price(
                Err(x),
                entries,
                |e: EntryView| is_stream_part(e, "OnDemandDataRetrieval"@, Some("OnDemand"@)),
                "kinesis:"@ + "On-Demand GetRecords retrieval"@,
                region,
            )
            ||| is_first_price(
                Err(x),
                entries,
                |e: EntryView| is_stream_part(e, "OnDemandStreamHr"@, Some("OnDemand"@)),
                "kinesis:"@ + "On-Demand stream hour"@,
                region,
            )
        },
        crate::pricing::file_registry::dynamodb_of(entries, region) matches Err(x) ==> {
            ||| is_first_price(
                Err(x),
                entries,
                |e: EntryView| is_throughput(e, "DDB-WriteUnits"@, "PayPerRequestThroughput"@),
                "dynamodb:pay_per_request_write"@,
                region,
            )
            ||| is_first_price(
                Err(x),
                entries,
                |e: EntryView| is_throughput(e, "DDB-ReadUnits"@, "PayPerRequestThroughput"@),
                "dynamodb:pay_per_request_read"@,
                region,
            )
            ||| is_first_price(
                Err(x),
                entries,
                |e: EntryView| is_throughput(e, "DDB-WriteUnits"@, "CommittedThroughput"@),
                "dynamodb:provisioned_wcu_hour"@,
                region,
            )
            ||| is_first_price(
                Err(x),
                entries,
                |e: EntryView| is_throughput(e, "DDB-ReadUnits"@, "CommittedThroughput"@),
                "dynamodb:provisioned_rcu_hour"@,
                region,
            )
            ||| x == (PricingErrorView::NotFound { service: "dynamodb:storage"@, region })
        },
{
    lemma_stream_part(entries, "Provisioned shard hour"@, "shardHourStorage"@, Some("Provisioned shard hour"@), region);
    lemma_stream_part(entries, "PUT payload units"@, "PutRequest"@, None, region);
    lemma_stream_part(entries, "On-Demand data ingestion"@, "OnDemandDataIngested"@, Some("OnDemand"@), region);
    lemma_stream_part(entries, "On-Demand GetRecords retrieval"@, "OnDemandDataRetrieval"@, Some("OnDemand"@), region);
    lemma_stream_part(entries, "On-Demand stream hour"@, "OnDemandStreamHr"@, Some("OnDemand"@), region);
    lemma_throughput(entries, "dynamodb:pay_per_request_write"@, "DDB-WriteUnits"@, "PayPerRequestThroughput"@, region);
    lemma_throughput(entries, "dynamodb:pay_per_request_read"@, "DDB-ReadUnits"@, "PayPerRequestThroughput"@, region);
    lemma_throughput(entries, "dynamodb:provisioned_wcu_hour"@, "DDB-WriteUnits"@, "CommittedThroughput"@, region);
    lemma_throughput(entries, "dynamodb:provisioned_rcu_hour"@, "DDB-ReadUnits"@, "CommittedThroughput"@, region);
    law_table_prices(entries, "dynamodb:storage"@, Seq::empty(), Seq::empty(), region);
}

/// What is known about a file is what the file says of itself, under the key of the
/// service and the region that it was loaded for. The files that are loaded are those
/// of five services.
pub proof fn law_what_is_known_of_a_file(
    service: Seq<char>,
    region: Seq<char>,
    file: crate::pricing::bulk_api::BulkFileView,
)
    ensures
        ({
            let m = crate::pricing::file_registry::metadata_of(service, region, file);
            &&& m.service_key == service
            &&& m.region == region
            &&& m.publication_date == file.publication_date
            &&& m.version == file.version
            &&& m.currency == crate::pricing::bulk_api::file_currency(file)
        }),
        crate::pricing::file_registry::is_file_service(service) <==> {
            ||| service == "ec2"@
            ||| service == "lambda"@
            ||| service == "rds"@
            ||| service == "dynamodb"@
            ||| service == "kinesis"@
        },
{
}

// ---------------------------------------------------------------------------
// Entries of files
// ---------------------------------------------------------------------------

/// The entry of a product carries its key, its family and its attributes, and
/// the price of each dimension of its terms is the one in dollars: nothing where
/// there is none.
pub proof fn law_entries_carry_the_product(
    file: crate::pricing::bulk_api::BulkFileView,
    i: int,
    d: crate::pricing::bulk_api::BulkDimensionView,
)
    requires
        0 <= i < file.products.len(),
    ensures
        ({
            let e = crate::pricing::bulk_api::entries_of(file)[i];
            &&& e.sku == file.products[i].0
            &&& e.product_family == file.products[i].1.product_family
            &&& e.attributes == file.products[i].1.attributes
        }),
        crate::pricing::bulk_api::dimension_of(d).description == d.description,
        crate::pricing::bulk_api::dimension_of(d).unit == d.unit,
        crate::pricing::bulk_api::dimension_of(d).price_usd == match lookup(
            d.price_per_unit,
            "USD"@,
        ) {
            Some(n) => match n.bits {
                Some(b) => Amount::Bits(b),
                None => Amount::Decimal { units: 0, scale: 0, per: 1 },
            },
            None => Amount::Decimal { units: 0, scale: 0, per: 1 },
        },
        crate::pricing::bulk_api::dimension_of(d).begin_range == match d.begin_range.bits {
            Some(b) => Amount::Bits(b),
            None => Amount::Decimal { units: 0, scale: 0, per: 1 },
        },
        d.end_range.text == "Inf"@ ==> crate::pricing::bulk_api::dimension_of(d).end_range is None,
        d.end_range.text != "Inf"@ ==> crate::pricing::bulk_api::dimension_of(d).end_range
            == match d.end_range.bits {
            Some(b) => Some(Amount::Bits(b)),
            None => None,
        },
{
}

} // verus!
