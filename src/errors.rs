use vstd::prelude::*;
use vstd::string::*;

verus! {

/// Every failure the library reports.
#[derive(Debug, PartialEq, Eq)]
pub enum DynarustError {
    /// The transport could not reach the store.
    ConnectionError(String),
    /// Provisioning found the table already in place.
    TableAlreadyExistsError(String),
    /// The store answered in a shape that breaks an invariant of the protocol.
    UnexpectedError(String),
    /// The caller asked for something the library refuses.
    InvalidRequestError(String),
    /// A wire attribute did not match a supported shape, or a number did not parse.
    AttributeParseError(String),
    /// A resource could not be turned into a document.
    AttributeSerializeError(String),
    /// A document could not be turned back into a resource.
    ResourceDeserializeError(String),
    /// A message of the store, passed through unchanged.
    DynamoError(String),
}

/// The text of an error of the store, or a stand-in where the store gave none.
pub open spec fn store_message(message: Option<String>) -> Seq<char> {
    match message {
        Some(m) => m@,
        None => "unknown error"@,
    }
}

fn message_or_unknown(message: Option<String>) -> (r: String)
    ensures
        r@ == store_message(message),
{
    match message {
        Some(m) => m,
        None => String::from_str("unknown error"),
    }
}

/// Classifies a failed call to the store: a call that never reached it is a connection
/// error; any other failure carries the store's own message, which for a cancelled
/// transaction names the reason of each item.
pub fn store_error(dispatch_failure: bool, message: Option<String>) -> (r: DynarustError)
    ensures
        dispatch_failure ==> r is ConnectionError && r->ConnectionError_0@.len() == 0,
        !dispatch_failure ==> r is DynamoError && r->DynamoError_0@ == store_message(message),
{
    if dispatch_failure {
        DynarustError::ConnectionError(String::new())
    } else {
        DynarustError::DynamoError(message_or_unknown(message))
    }
}

/// Classifies a failed request to create a table: as `store_error` does, except that a
/// table already in use is reported as such.
pub fn create_table_error(dispatch_failure: bool, resource_in_use: bool, message: Option<String>) -> (r:
    DynarustError)
    ensures
        dispatch_failure ==> r is ConnectionError && r->ConnectionError_0@.len() == 0,
        !dispatch_failure && resource_in_use ==> r is TableAlreadyExistsError
            && r->TableAlreadyExistsError_0@ == store_message(message),
        !dispatch_failure && !resource_in_use ==> r is DynamoError && r->DynamoError_0@
            == store_message(message),
{
    if dispatch_failure {
        DynarustError::ConnectionError(String::new())
    } else if resource_in_use {
        DynarustError::TableAlreadyExistsError(message_or_unknown(message))
    } else {
        DynarustError::DynamoError(message_or_unknown(message))
    }
}

/// What a failed table creation means to its caller: a table that exists already is
/// success, since provisioning is idempotent; anything else is passed on.
pub fn create_table_outcome(error: DynarustError) -> (r: Result<(), DynarustError>)
    ensures
        error is TableAlreadyExistsError ==> r is Ok,
        !(error is TableAlreadyExistsError) ==> r == Err::<(), DynarustError>(error),
{
    match error {
        DynarustError::TableAlreadyExistsError(_) => Ok(()),
        other => Err(other),
    }
}

/// The text that describes an error.
pub open spec fn error_message(e: DynarustError) -> Seq<char> {
    match e {
        DynarustError::ConnectionError(_) => "Connection error: could not connect to dynamo"@,
        DynarustError::TableAlreadyExistsError(m) => "Table already exists error: "@ + m@,
        DynarustError::UnexpectedError(m) => "Unexpected error: "@ + m@,
        DynarustError::InvalidRequestError(m) => "Invalid request: "@ + m@,
        DynarustError::AttributeParseError(m) => "Attribute parse error: "@ + m@,
        DynarustError::AttributeSerializeError(m) => "Attribute serialize error: "@ + m@,
        DynarustError::ResourceDeserializeError(m) => "Error while deserializing resource: "@ + m@,
        DynarustError::DynamoError(m) => m@,
    }
}

impl DynarustError {
    /// The text that describes this error.
    pub fn message(&self) -> (r: String)
        ensures
            r@ == error_message(*self),
    {
        match self {
            DynarustError::ConnectionError(_) => String::from_str(
                "Connection error: could not connect to dynamo",
            ),
            DynarustError::TableAlreadyExistsError(m) => String::from_str(
                "Table already exists error: ",
            ).concat(m.as_str()),
            DynarustError::UnexpectedError(m) => String::from_str("Unexpected error: ").concat(
                m.as_str(),
            ),
            DynarustError::InvalidRequestError(m) => String::from_str("Invalid request: ").concat(
                m.as_str(),
            ),
            DynarustError::AttributeParseError(m) => String::from_str(
                "Attribute parse error: ",
            ).concat(m.as_str()),
            DynarustError::AttributeSerializeError(m) => String::from_str(
                "Attribute serialize error: ",
            ).concat(m.as_str()),
            DynarustError::ResourceDeserializeError(m) => String::from_str(
                "Error while deserializing resource: ",
            ).concat(m.as_str()),
            DynarustError::DynamoError(m) => m.clone(),
        }
    }
}

} // verus!
