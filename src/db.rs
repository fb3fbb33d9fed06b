//! The database engines whose table schemas a question may cite.

use vstd::prelude::*;

verus! {

#[derive(Debug, Clone, Copy, PartialEq, Eq, Structural)]
pub enum DatabaseType {
    MySQL,
    PostgreSQL,
    SQLite,
    SQLServer,
    ClickHouse,
}

pub open spec fn database_type_named(t: Seq<char>) -> Option<DatabaseType> {
    if t == "clickhouse"@ {
        Some(DatabaseType::ClickHouse)
    } else if t == "mysql"@ {
        Some(DatabaseType::MySQL)
    } else if t == "postgres"@ {
        Some(DatabaseType::PostgreSQL)
    } else if t == "sqlite"@ {
        Some(DatabaseType::SQLite)
    } else if t == "sqlserver"@ {
        Some(DatabaseType::SQLServer)
    } else {
        None
    }
}

/// The engine that a data source's type names, or the message for a type
/// that names none.
pub fn get_database_ops(db_type: &str) -> (r: Result<DatabaseType, String>)
    ensures
        match database_type_named(db_type@) {
            Some(t) => r == Ok::<DatabaseType, String>(t),
            None => r is Err && r->Err_0@ == "Unsupported database type: "@ + db_type@,
        },
{
    let t = db_type.to_string();
    if t == String::from_str("clickhouse") {
        Ok(DatabaseType::ClickHouse)
    } else if t == String::from_str("mysql") {
        Ok(DatabaseType::MySQL)
    } else if t == String::from_str("postgres") {
        Ok(DatabaseType::PostgreSQL)
    } else if t == String::from_str("sqlite") {
        Ok(DatabaseType::SQLite)
    } else if t == String::from_str("sqlserver") {
        Ok(DatabaseType::SQLServer)
    } else {
        let mut m = String::from_str("Unsupported database type: ");
        m.append(db_type);
        Err(m)
    }
}

} // verus!
