use vstd::prelude::*;
use vstd::string::*;

use crate::condition::{PK, SK};
use crate::resource::Resource;
use crate::text::{i64_to_text, int_text};

verus! {

/// The throughput a table is provisioned with.
#[derive(Clone, Copy, Debug, PartialEq, Eq)]
pub struct CreateTableOptions {
    pub read_capacity: i64,
    pub write_capacity: i64,
}

impl Default for CreateTableOptions {
    fn default() -> (r: Self)
        ensures
            r.read_capacity == 5,
            r.write_capacity == 5,
    {
        CreateTableOptions { read_capacity: 5, write_capacity: 5 }
    }
}

/// The options a provisioning request uses: the given ones, else the defaults.
pub open spec fn effective_options(maybe_options: Option<CreateTableOptions>) -> CreateTableOptions {
    match maybe_options {
        Some(o) => o,
        None => CreateTableOptions { read_capacity: 5, write_capacity: 5 },
    }
}

/// The infrastructure template for the table of a resource: string partition and sort
/// keys, and the provisioned throughput.
pub open spec fn sam_template(table: Seq<char>, options: CreateTableOptions) -> Seq<char> {
    table + "DynamoDBTable:\n  Type: AWS::DynamoDB::Table\n  Properties:\n    TableName: "@ + table
        + "\n    AttributeDefinitions:\n      - AttributeName: "@ + PK@
        + "\n        AttributeType: S\n      - AttributeName: "@ + SK@
        + "\n        AttributeType: S\n    KeySchema:\n      - AttributeName: "@ + PK@
        + "\n        KeyType: HASH\n      - AttributeName: "@ + SK@
        + "\n        KeyType: RANGE\n    ProvisionedThroughput:\n      ReadCapacityUnits: "@
        + int_text(options.read_capacity as int) + "\n      WriteCapacityUnits: "@ + int_text(
        options.write_capacity as int,
    ) + "\n"@
}

/// The infrastructure template for a table named `table`.
pub fn sam_resource_template(table: &str, options: CreateTableOptions) -> (r: String)
    ensures
        r@ == sam_template(table@, options),
{
    let r = String::from_str(table).concat(
        "DynamoDBTable:\n  Type: AWS::DynamoDB::Table\n  Properties:\n    TableName: ",
    ).concat(table).concat("\n    AttributeDefinitions:\n      - AttributeName: ").concat(PK).concat(
        "\n        AttributeType: S\n      - AttributeName: ",
    ).concat(SK).concat("\n        AttributeType: S\n    KeySchema:\n      - AttributeName: ").concat(
        PK,
    ).concat("\n        KeyType: HASH\n      - AttributeName: ").concat(SK).concat(
        "\n        KeyType: RANGE\n    ProvisionedThroughput:\n      ReadCapacityUnits: ",
    ).concat(i64_to_text(options.read_capacity).as_str()).concat(
        "\n      WriteCapacityUnits: ",
    ).concat(i64_to_text(options.write_capacity).as_str()).concat("\n");
    r
}

/// The infrastructure template for the table of resource type `T`, with the given
/// options or the defaults.
pub fn create_sam_resource<T: Resource>(maybe_options: Option<CreateTableOptions>) -> (r: String)
    ensures
        exists|table: Seq<char>| r@ == sam_template(table, effective_options(maybe_options)),
{
    let options = match maybe_options {
        Some(o) => o,
        None => CreateTableOptions::default(),
    };
    let table = T::table();
    let r = sam_resource_template(table.as_str(), options);
    proof {
        assert(options == effective_options(maybe_options));
        assert(r@ == sam_template(table@, effective_options(maybe_options)));
    }
    r
}

} // verus!
