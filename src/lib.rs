//! Named status presets, the credential that authorises status changes, and
//! the decisions around the two remote profile operations.

pub mod client;
pub mod credential;
pub mod document;
pub mod error;
pub mod paths;
pub mod store;

pub use client::{
    expiration_for, get_status_outcome, plan_clear, plan_set, set_status_outcome, ProfileFields,
    RemoteReply, StatusUpdate,
};
pub use credential::{check_token, load_token};
pub use error::SlatusError;
pub use paths::{statuses_path, token_path};
pub use store::{load_statuses, remove_status, save_statuses, upsert_status, SavedStatus, StatusMap};
