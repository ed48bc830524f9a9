use dynarust::errors::{create_table_error, create_table_outcome, store_error};
use dynarust::{create_sam_resource, CreateTableOptions, DynarustError, Resource};

fn s(x: &str) -> String {
    x.to_string()
}

struct Event {
    id: String,
    timestamp: i64,
}

impl Resource for Event {
    fn table() -> String {
        s("Events")
    }

    fn pk_sk(&self) -> (String, String) {
        (self.id.clone(), self.timestamp.to_string())
    }
}

#[test]
fn unreachable_store_is_a_connection_error() {
    let err = store_error(true, Some(s("ignored")));
    assert_eq!(err, DynarustError::ConnectionError(s("")));
    assert_eq!(err.message(), "Connection error: could not connect to dynamo");
    let err = create_table_error(true, true, None);
    assert_eq!(err.message(), "Connection error: could not connect to dynamo");
}

#[test]
fn store_failures_keep_the_store_message() {
    let err = store_error(false, Some(s("The conditional request failed")));
    assert_eq!(err.message(), "The conditional request failed");
    let cancelled = "Transaction cancelled, please refer cancellation reasons for specific reasons [None, ConditionalCheckFailed]";
    assert_eq!(store_error(false, Some(s(cancelled))).message(), cancelled);
    assert_eq!(store_error(false, None), DynarustError::DynamoError(s("unknown error")));
}

#[test]
fn existing_table_counts_as_provisioned() {
    let err = create_table_error(false, true, Some(s("in use")));
    assert_eq!(err, DynarustError::TableAlreadyExistsError(s("in use")));
    assert_eq!(err.message(), "Table already exists error: in use");
    assert_eq!(create_table_outcome(err), Ok(()));
    let other = create_table_error(false, false, Some(s("bad")));
    assert_eq!(create_table_outcome(other), Err(DynarustError::DynamoError(s("bad"))));
}

#[test]
fn error_messages() {
    assert_eq!(DynarustError::UnexpectedError(s("x")).message(), "Unexpected error: x");
    assert_eq!(
        DynarustError::AttributeSerializeError(s("x")).message(),
        "Attribute serialize error: x"
    );
    assert_eq!(
        DynarustError::ResourceDeserializeError(s("x")).message(),
        "Error while deserializing resource: x"
    );
}

#[test]
fn sam_template_for_resource_table() {
    let event = Event { id: s("client-events"), timestamp: 16794003059 };
    assert_eq!(event.pk_sk().1, "16794003059");
    let expected = "EventsDynamoDBTable:
  Type: AWS::DynamoDB::Table
  Properties:
    TableName: Events
    AttributeDefinitions:
      - AttributeName: PrimaryKey
        AttributeType: S
      - AttributeName: SecondaryKey
        AttributeType: S
    KeySchema:
      - AttributeName: PrimaryKey
        KeyType: HASH
      - AttributeName: SecondaryKey
        KeyType: RANGE
    ProvisionedThroughput:
      ReadCapacityUnits: 5
      WriteCapacityUnits: 5
";
    assert_eq!(create_sam_resource::<Event>(None), expected);
    let custom = create_sam_resource::<Event>(Some(CreateTableOptions {
        read_capacity: 10,
        write_capacity: 20,
    }));
    assert!(custom.ends_with("ReadCapacityUnits: 10\n      WriteCapacityUnits: 20\n"));
    assert_eq!(CreateTableOptions::default(), CreateTableOptions { read_capacity: 5, write_capacity: 5 });
}
