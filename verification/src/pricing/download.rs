//! Where bulk price data is published.

use vstd::prelude::*;

verus! {

/// The most bytes that a downloaded document may have.
pub const MAX_PRICING_BODY_BYTES: u64 = 268_435_456;

/// The seconds after which a download is given up.
pub const DOWNLOAD_TIMEOUT_SECONDS: u64 = 300;

/// The services whose prices are downloaded: the code of each, and the stem of
/// the file that it is stored in.
pub const PRICING_SERVICES: [(&'static str, &'static str); 10] = [
    ("AmazonEC2", "ec2"),
    ("AWSLambda", "lambda"),
    ("AmazonRDS", "rds"),
    ("AmazonS3", "s3"),
    ("AmazonDynamoDB", "dynamodb"),
    ("AmazonECS", "ecs"),
    ("AmazonES", "opensearch"),
    ("AmazonKinesis", "kinesis"),
    ("AWSQueueService", "sqs"),
    ("AmazonCloudWatch", "cloudwatch"),
];

/// Where the price document of a service in a region is published.
pub open spec fn url_of(service_code: Seq<char>, region_code: Seq<char>) -> Seq<char> {
    "https://pricing.us-east-1.amazonaws.com/offers/v1.0/aws/"@ + service_code + "/current/"@
        + region_code + "/index.json"@
}

/// Where the price document of a service in a region is published.
pub fn pricing_url(service_code: &str, region_code: &str) -> (r: String)
    ensures
        r@ == url_of(service_code@, region_code@),
{
    let mut url = "https://pricing.us-east-1.amazonaws.com/offers/v1.0/aws/".to_owned();
    url.append(service_code);
    url.append("/current/");
    url.append(region_code);
    url.append("/index.json");
    url
}

/// No two services are stored in the same file.
pub proof fn law_file_stems_are_unique()
    ensures
        forall|i: int, j: int|
            0 <= i < j < PRICING_SERVICES@.len() ==> (#[trigger] PRICING_SERVICES@[i]).1@ != (
            #[trigger] PRICING_SERVICES@[j]).1@,
{
    reveal_strlit("ec2");
    reveal_strlit("lambda");
    reveal_strlit("rds");
    reveal_strlit("s3");
    reveal_strlit("dynamodb");
    reveal_strlit("ecs");
    reveal_strlit("opensearch");
    reveal_strlit("kinesis");
    reveal_strlit("sqs");
    reveal_strlit("cloudwatch");
    assert("ec2"@[2] == '2' && "rds"@[2] == 's' && "ecs"@[2] == 's' && "sqs"@[2] == 's');
    assert("rds"@[0] == 'r' && "ecs"@[0] == 'e' && "sqs"@[0] == 's');
    assert("opensearch"@[0] == 'o' && "cloudwatch"@[0] == 'c');
    let s = PRICING_SERVICES@;
    assert(s.len() == 10);
    assert(s[0].1@ == "ec2"@);
    assert(s[1].1@ == "lambda"@);
    assert(s[2].1@ == "rds"@);
    assert(s[3].1@ == "s3"@);
    assert(s[4].1@ == "dynamodb"@);
    assert(s[5].1@ == "ecs"@);
    assert(s[6].1@ == "opensearch"@);
    assert(s[7].1@ == "kinesis"@);
    assert(s[8].1@ == "sqs"@);
    assert(s[9].1@ == "cloudwatch"@);
    assert forall|i: int, j: int| 0 <= i < j < 10 implies s[i].1@ != s[j].1@ by {
        assert(i == 0 || i == 1 || i == 2 || i == 3 || i == 4 || i == 5 || i == 6 || i == 7 || i
            == 8);
        assert(j == 1 || j == 2 || j == 3 || j == 4 || j == 5 || j == 6 || j == 7 || j == 8 || j
            == 9);
    }
}

} // verus!
