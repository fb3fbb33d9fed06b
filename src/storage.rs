//! The records that the configuration and sample stores hold.

use vstd::prelude::*;

verus! {

/// Why a store operation failed.
#[derive(Debug, Clone)]
pub enum DataServiceError {
    DatabaseError(String),
    NotFound,
    Other(String),
}

/// A stored code sample that a question may cite.
#[derive(Debug, Clone)]
pub struct CodeSample {
    pub id: String,
    pub name: String,
    pub content: String,
}

/// A stored database connection whose table schemas a question may cite.
#[derive(Debug, Clone)]
pub struct DataSource {
    pub id: String,
    pub name: String,
    pub db_type: String,
    pub host: String,
    pub port: i32,
    pub username: String,
    pub password: String,
    pub database: String,
    pub extra_params: Option<String>,
}

/// One key/value pair of the configuration store.
#[derive(Debug, Clone)]
pub struct SysConfig {
    pub key: String,
    pub value: String,
}

} // verus!
