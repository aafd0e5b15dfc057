//! Grouped change reports for tracked accounts.
//!
//! Rows of a change log (screen-name changes or suspensions) are parsed into
//! typed records, grouped by the UTC day on which the change was detected,
//! ranked within each day by follower count, and written out as a Markdown
//! document with one table per day.
//!
//! Two things are taken from other crates and believed as named: what chrono
//! writes for an instant under a date pattern (`calendar`), and what the
//! regex crate captures when a pattern meets a text (`thumbnail`). Everything
//! else is proved. The library reads no file and prints nothing: rows come
//! in as fields, the thumbnail paths found on disk come in as a list, and
//! the report goes out as a string.
pub mod anchor;
pub mod calendar;
pub mod cutoff;
pub mod decimal;
pub mod grouping;
pub mod ranking;
pub mod record;
pub mod report;
pub mod thumbnail;
