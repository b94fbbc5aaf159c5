//! Monthly page-view attribution for curated groups of media files.
//!
//! Given a group of files (a category tree or an uploader on the central
//! media repository) and a calendar month, the library builds the relational
//! snapshot that records, for every page embedding one of those files, the
//! page's monthly view count, and aggregates per-site and per-group totals.
//! Database and HTTP traffic stay outside; the logic that decides what is
//! asked, what is stored and what the totals are is verified here.

pub mod control;
pub mod group_date;
pub mod group_id;
pub mod month_views;
pub mod pageviews;
pub mod records;
pub mod server_db;
pub mod site;
pub mod snapshot;
pub mod sql;
pub mod subcat;
pub mod text;
pub mod year_month;
