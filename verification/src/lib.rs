//! Data pipeline of a terminal dashboard for a DNS filtering server.
//!
//! The crate holds the snapshot model, the classifier of query rows, the
//! preparation of chart series, the view models of the dashboard's panels and
//! the decisions of the collector and of the renderer loop. Every function is
//! stated with a contract and verified.

pub mod text;
pub mod numeral;
pub mod model;
pub mod classify;
pub mod collector;
pub mod mailbox;
pub mod chart;
pub mod elapsed;
pub mod table;
pub mod panels;
pub mod render;
pub mod request;
pub mod version;
pub mod config;
