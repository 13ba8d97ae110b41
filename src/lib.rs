//! A record-keeping service core: dated incident reports kept in an embedded
//! key-value store, with an admin gate in front of every mutation.
pub mod auth;
pub mod entry;
pub mod keys;
pub mod response;
pub mod store;
pub mod text;

pub use auth::{check_admin_permissions, AdminKey};
pub use entry::{EntryDate, HallEntry, RecordSubmission};
pub use keys::{is_record_key, key_for, record_key_prefix};
pub use response::{generate_response, handle_errors, HallError, OperationResponse, Status};
pub use store::{
    add_record, decode_records, list_records, new_entry, next_id, remove_outcome, remove_record,
    store_new_record, update_outcome, update_record,
};
