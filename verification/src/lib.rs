//! The logic of a command-line tool for Portland local tech events: it
//! reads the events of the Calagator home page (HTML) and the events and
//! venues feeds (JSON) into tables, and decides what each menu entry does.
//!
//! - `text`: splitting into words, trimming and quote stripping on characters.
//! - `html`: pages parsed by `select`, and what the library asks of them.
//! - `json`: values parsed by `serde_json`, and what the library asks of them.
//! - `records`: the three tables' rows, columns and database fields.
//! - `calendar`, `events`, `venues`: the tables read from each source.
//! - `feed`: reading a JSON feed into rows.
//! - `csvtext`: CSV text read and written with the `csv` crate.
//! - `menu`: the menus, their commands and what follows each command.
pub mod calendar;
pub mod csvtext;
pub mod events;
pub mod feed;
pub mod html;
pub mod json;
pub mod menu;
pub mod records;
pub mod text;
pub mod venues;
