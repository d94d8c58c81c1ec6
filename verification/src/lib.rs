//! Gathers knowledge sources into one searchable corpus: every source is
//! collected into a nested record, flattened into documents and handed to a
//! full-text index.

pub mod bucket;
pub mod collector;
pub mod config;
pub mod docx_reader;
pub mod engine;
pub mod git_collector;
pub mod index_server;
pub mod jira_client;
pub mod jira_collector;
pub mod pdf_reader;
pub mod text;
pub mod trello_client;
pub mod trello_collector;
