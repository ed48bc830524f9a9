pub mod condition;
pub mod errors;
pub mod get;
pub mod list;
pub mod patch;
pub mod resource;
pub mod table;
pub mod text;
pub mod value;
pub mod write;

pub use condition::{
    condition_check_exists, condition_check_not_exists, condition_check_number,
    condition_check_number_with_seed, condition_check_string, condition_check_string_with_seed,
    ConditionCheckInfo, DynamoOperator, PK, SK,
};
pub use errors::DynarustError;
pub use list::{ListOptions, QueryRequest};
pub use resource::Resource;
pub use table::{create_sam_resource, CreateTableOptions};
pub use value::{Attribute, Document, Item, Value};
pub use write::{
    begin_transaction, transact_condition_check, transact_create, transact_create_with_checks,
    transact_delete, transact_delete_with_checks, transact_update, transact_update_with_checks,
    WriteOperation,
};
