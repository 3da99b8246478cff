//! What holds of the built-in price tables.

use vstd::prelude::*;

use crate::amount::Amount;
use crate::pricing::gcp_registry::storage_price;
use crate::pricing::registry::pair_rate_in;
use crate::pricing::registry::RDS_RATES;

verus! {

proof fn lemma_row(
    s: Seq<(&'static str, &'static str, u64, u32)>,
    i: int,
    first: Seq<char>,
    second: Seq<char>,
)
    requires
        0 <= i < s.len(),
    ensures
        pair_rate_in(s.subrange(i, s.len() as int), first, second) == (if s[i].0@ == first
            && s[i].1@ == second {
            Some(Amount::Decimal { units: s[i].2, scale: s[i].3, per: 1 })
        } else {
            pair_rate_in(s.subrange(i + 1, s.len() as int), first, second)
        }),
{
    let t = s.subrange(i, s.len() as int);
    assert(t[0] == s[i]);
    assert(t.drop_first() =~= s.subrange(i + 1, s.len() as int));
}

/// A database of MySQL, MariaDB and PostgreSQL costs the same on every instance class,
/// and so do the two kinds of Aurora.
pub proof fn law_engines_of_a_kind_cost_the_same(class: Seq<char>)
    ensures
        pair_rate_in(RDS_RATES@, "mysql"@, class) == pair_rate_in(RDS_RATES@, "mariadb"@, class),
        pair_rate_in(RDS_RATES@, "mysql"@, class) == pair_rate_in(RDS_RATES@, "postgres"@, class),
        pair_rate_in(RDS_RATES@, "aurora-mysql"@, class) == pair_rate_in(
            RDS_RATES@,
            "aurora-postgresql"@,
            class,
        ),
{
    lemma_rds("mysql"@, class);
    lemma_rds("mariadb"@, class);
    lemma_rds("postgres"@, class);
    lemma_rds("aurora-mysql"@, class);
    lemma_rds("aurora-postgresql"@, class);
    reveal_strlit("mysql");
    reveal_strlit("mariadb");
    reveal_strlit("postgres");
    reveal_strlit("aurora-mysql");
    reveal_strlit("aurora-postgresql");
    reveal_strlit("sqlserver-se");
    assert("mysql"@.len() == 5);
    assert("mariadb"@.len() == 7);
    assert("postgres"@.len() == 8);
    assert("aurora-mysql"@.len() == 12);
    assert("aurora-postgresql"@.len() == 17);
    assert("sqlserver-se"@.len() == 12);
    assert("aurora-mysql"@[0] != "sqlserver-se"@[0]);
}

/// The rate of the first row that has the class, among rows of one engine.
spec fn rate_of(engine: Seq<char>, class: Seq<char>) -> Option<Amount> {
    if engine == "mysql"@ {
        if class == "db.t3.micro"@ {
            Some(Amount::Decimal { units: 26, scale: 3, per: 1 })
        } else         if class == "db.t3.small"@ {
            Some(Amount::Decimal { units: 52, scale: 3, per: 1 })
        } else         if class == "db.t3.medium"@ {
            Some(Amount::Decimal { units: 104, scale: 3, per: 1 })
        } else         if class == "db.m6i.large"@ {
            Some(Amount::Decimal { units: 235, scale: 3, per: 1 })
        } else         if class == "db.r5.large"@ {
            Some(Amount::Decimal { units: 29, scale: 2, per: 1 })
        } else         if class == "db.r5.xlarge"@ {
            Some(Amount::Decimal { units: 58, scale: 2, per: 1 })
        } else {
            None
        }
    } else if engine == "mariadb"@ {
        if class == "db.t3.micro"@ {
            Some(Amount::Decimal { units: 26, scale: 3, per: 1 })
        } else         if class == "db.t3.small"@ {
            Some(Amount::Decimal { units: 52, scale: 3, per: 1 })
        } else         if class == "db.t3.medium"@ {
            Some(Amount::Decimal { units: 104, scale: 3, per: 1 })
        } else         if class == "db.m6i.large"@ {
            Some(Amount::Decimal { units: 235, scale: 3, per: 1 })
        } else         if class == "db.r5.large"@ {
            Some(Amount::Decimal { units: 29, scale: 2, per: 1 })
        } else         if class == "db.r5.xlarge"@ {
            Some(Amount::Decimal { units: 58, scale: 2, per: 1 })
        } else {
            None
        }
    } else if engine == "postgres"@ {
        if class == "db.t3.micro"@ {
            Some(Amount::Decimal { units: 26, scale: 3, per: 1 })
        } else         if class == "db.t3.small"@ {
            Some(Amount::Decimal { units: 52, scale: 3, per: 1 })
        } else         if class == "db.t3.medium"@ {
            Some(Amount::Decimal { units: 104, scale: 3, per: 1 })
        } else         if class == "db.m6i.large"@ {
            Some(Amount::Decimal { units: 235, scale: 3, per: 1 })
        } else         if class == "db.r5.large"@ {
            Some(Amount::Decimal { units: 29, scale: 2, per: 1 })
        } else         if class == "db.r5.xlarge"@ {
            Some(Amount::Decimal { units: 58, scale: 2, per: 1 })
        } else {
            None
        }
    } else if engine == "aurora-mysql"@ {
        if class == "db.r5.large"@ {
            Some(Amount::Decimal { units: 35, scale: 2, per: 1 })
        } else         if class == "db.r5.xlarge"@ {
            Some(Amount::Decimal { units: 7, scale: 1, per: 1 })
        } else {
            None
        }
    } else if engine == "aurora-postgresql"@ {
        if class == "db.r5.large"@ {
            Some(Amount::Decimal { units: 35, scale: 2, per: 1 })
        } else         if class == "db.r5.xlarge"@ {
            Some(Amount::Decimal { units: 7, scale: 1, per: 1 })
        } else {
            None
        }
    } else if engine == "sqlserver-se"@ {
        if class == "db.r5.large"@ {
            Some(Amount::Decimal { units: 105, scale: 2, per: 1 })
        } else         if class == "db.r5.xlarge"@ {
            Some(Amount::Decimal { units: 21, scale: 1, per: 1 })
        } else         if class == "db.t3.medium"@ {
            Some(Amount::Decimal { units: 342, scale: 3, per: 1 })
        } else {
            None
        }
    } else {
        None
    }
}

proof fn lemma_rds(engine: Seq<char>, class: Seq<char>)
    ensures
        pair_rate_in(RDS_RATES@, engine, class) == rate_of(engine, class),
{
    let s = RDS_RATES@;
    assert(s.len() == 25);
    assert(s.subrange(0, 25) =~= s);
    assert(s[0].0@ == "mysql"@ && s[0].1@ == "db.t3.micro"@ && s[0].2 == 26 && s[0].3 == 3);
    assert(s[1].0@ == "mariadb"@ && s[1].1@ == "db.t3.micro"@ && s[1].2 == 26 && s[1].3 == 3);
    assert(s[2].0@ == "mysql"@ && s[2].1@ == "db.t3.small"@ && s[2].2 == 52 && s[2].3 == 3);
    assert(s[3].0@ == "mariadb"@ && s[3].1@ == "db.t3.small"@ && s[3].2 == 52 && s[3].3 == 3);
    assert(s[4].0@ == "mysql"@ && s[4].1@ == "db.t3.medium"@ && s[4].2 == 104 && s[4].3 == 3);
    assert(s[5].0@ == "mariadb"@ && s[5].1@ == "db.t3.medium"@ && s[5].2 == 104 && s[5].3 == 3);
    assert(s[6].0@ == "mysql"@ && s[6].1@ == "db.m6i.large"@ && s[6].2 == 235 && s[6].3 == 3);
    assert(s[7].0@ == "mariadb"@ && s[7].1@ == "db.m6i.large"@ && s[7].2 == 235 && s[7].3 == 3);
    assert(s[8].0@ == "mysql"@ && s[8].1@ == "db.r5.large"@ && s[8].2 == 29 && s[8].3 == 2);
    assert(s[9].0@ == "mariadb"@ && s[9].1@ == "db.r5.large"@ && s[9].2 == 29 && s[9].3 == 2);
    assert(s[10].0@ == "mysql"@ && s[10].1@ == "db.r5.xlarge"@ && s[10].2 == 58 && s[10].3 == 2);
    assert(s[11].0@ == "mariadb"@ && s[11].1@ == "db.r5.xlarge"@ && s[11].2 == 58 && s[11].3 == 2);
    assert(s[12].0@ == "postgres"@ && s[12].1@ == "db.t3.micro"@ && s[12].2 == 26 && s[12].3 == 3);
    assert(s[13].0@ == "postgres"@ && s[13].1@ == "db.t3.small"@ && s[13].2 == 52 && s[13].3 == 3);
    assert(s[14].0@ == "postgres"@ && s[14].1@ == "db.t3.medium"@ && s[14].2 == 104 && s[14].3 == 3);
    assert(s[15].0@ == "postgres"@ && s[15].1@ == "db.m6i.large"@ && s[15].2 == 235 && s[15].3 == 3);
    assert(s[16].0@ == "postgres"@ && s[16].1@ == "db.r5.large"@ && s[16].2 == 29 && s[16].3 == 2);
    assert(s[17].0@ == "postgres"@ && s[17].1@ == "db.r5.xlarge"@ && s[17].2 == 58 && s[17].3 == 2);
    assert(s[18].0@ == "aurora-mysql"@ && s[18].1@ == "db.r5.large"@ && s[18].2 == 35 && s[18].3 == 2);
    assert(s[19].0@ == "aurora-postgresql"@ && s[19].1@ == "db.r5.large"@ && s[19].2 == 35 && s[19].3 == 2);
    assert(s[20].0@ == "aurora-mysql"@ && s[20].1@ == "db.r5.xlarge"@ && s[20].2 == 7 && s[20].3 == 1);
    assert(s[21].0@ == "aurora-postgresql"@ && s[21].1@ == "db.r5.xlarge"@ && s[21].2 == 7 && s[21].3 == 1);
    assert(s[22].0@ == "sqlserver-se"@ && s[22].1@ == "db.r5.large"@ && s[22].2 == 105 && s[22].3 == 2);
    assert(s[23].0@ == "sqlserver-se"@ && s[23].1@ == "db.r5.xlarge"@ && s[23].2 == 21 && s[23].3 == 1);
    assert(s[24].0@ == "sqlserver-se"@ && s[24].1@ == "db.t3.medium"@ && s[24].2 == 342 && s[24].3 == 3);
    lemma_row(s, 0, engine, class);
    lemma_row(s, 1, engine, class);
    lemma_row(s, 2, engine, class);
    lemma_row(s, 3, engine, class);
    lemma_row(s, 4, engine, class);
    lemma_row(s, 5, engine, class);
    lemma_row(s, 6, engine, class);
    lemma_row(s, 7, engine, class);
    lemma_row(s, 8, engine, class);
    lemma_row(s, 9, engine, class);
    lemma_row(s, 10, engine, class);
    lemma_row(s, 11, engine, class);
    lemma_row(s, 12, engine, class);
    lemma_row(s, 13, engine, class);
    lemma_row(s, 14, engine, class);
    lemma_row(s, 15, engine, class);
    lemma_row(s, 16, engine, class);
    lemma_row(s, 17, engine, class);
    lemma_row(s, 18, engine, class);
    lemma_row(s, 19, engine, class);
    lemma_row(s, 20, engine, class);
    lemma_row(s, 21, engine, class);
    lemma_row(s, 22, engine, class);
    lemma_row(s, 23, engine, class);
    lemma_row(s, 24, engine, class);
    assert(s.subrange(25, 25) =~= Seq::empty());
    assert(pair_rate_in(s.subrange(25, 25), engine, class) is None);
    reveal_strlit("mysql");
    reveal_strlit("mariadb");
    reveal_strlit("postgres");
    reveal_strlit("aurora-mysql");
    reveal_strlit("aurora-postgresql");
    reveal_strlit("sqlserver-se");
    assert("mysql"@.len() == 5);
    assert("mariadb"@.len() == 7);
    assert("postgres"@.len() == 8);
    assert("aurora-mysql"@.len() == 12);
    assert("aurora-postgresql"@.len() == 17);
    assert("sqlserver-se"@.len() == 12);
    assert("aurora-mysql"@[0] != "sqlserver-se"@[0]);
}

// ---------------------------------------------------------------------------
// Documents
// ---------------------------------------------------------------------------

/// The address of a price document leads to the service, and behind it to the region.
pub proof fn law_price_documents(service: Seq<char>, region: Seq<char>)
    ensures
        ({
            let url = crate::pricing::download::url_of(service, region);
            &&& crate::text::has_prefix(
                url,
                "https://pricing.us-east-1.amazonaws.com/offers/v1.0/aws/"@ + service
                    + "/current/"@,
            )
            &&& crate::text::has_suffix(url, region + "/index.json"@)
        }),
{
    let url = crate::pricing::download::url_of(service, region);
    let front = "https://pricing.us-east-1.amazonaws.com/offers/v1.0/aws/"@ + service
        + "/current/"@;
    let back = region + "/index.json"@;
    assert(url =~= front + back);
    assert(url.subrange(0, front.len() as int) =~= front);
    assert(url.subrange(url.len() - back.len(), url.len() as int) =~= back);
}

// ---------------------------------------------------------------------------
// Google Cloud
// ---------------------------------------------------------------------------

/// How many ten-thousandths an amount is, of one with two to four decimals.
pub open spec fn ten_thousandths(a: Amount) -> int {
    match a {
        Amount::Decimal { units, scale, .. } => if scale == 4 {
            units as int
        } else if scale == 3 {
            10 * units
        } else if scale == 2 {
            100 * units
        } else {
            0
        },
        Amount::Bits(_) => 0,
    }
}

/// In every region colder storage costs less, and storage of BigQuery costs what
/// standard storage does.
pub proof fn law_colder_storage_costs_less(region: Seq<char>)
    ensures
        ({
            let p = storage_price(region);
            &&& ten_thousandths(p.archive_gb_month) < ten_thousandths(p.coldline_gb_month)
            &&& ten_thousandths(p.coldline_gb_month) < ten_thousandths(p.nearline_gb_month)
            &&& ten_thousandths(p.nearline_gb_month) < ten_thousandths(p.standard_gb_month)
            &&& p.bigquery_active_gb_month == p.standard_gb_month
        }),
{
}

} // verus!
