//! Academic records: typed entities and filters, a uniform query and command
//! dispatcher over an in-process record store, the consistency rules that keep
//! derived fields in step with the records they depend on, and the session
//! layer that decides what each role may do.

pub mod error;
pub mod text;
pub mod statement;
pub mod table_models;
pub mod filter;
pub mod model;
pub mod lemmas;
mod tables;
pub mod consistency;
pub mod db_driver;
pub mod laws;
pub mod query;
pub mod rows;
pub mod join;
pub mod password;
pub mod validation;
pub mod server_connection_impl;
pub mod rest_api;
