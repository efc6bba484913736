//! Printable SVG asset-tag stickers for a maker-space inventory, built from
//! the equipment records of a wiki.
//!
//! A sticker is made in four steps. The record of a page is extracted from
//! the page's markup tree (`infobox`); the fields that the sticker shows are
//! derived from it (`derive`); a layout is selected and its placeholders are
//! expanded (`render`, `template`, `escape`); and the outcome is recorded in
//! the batch (`batch`). `sticker` strings the steps together for one page.
//!
//! The library sends nothing and fetches nothing. `batch::Batch` and
//! `listing::Listing` are state machines: they say what to ask the wiki
//! (`wiki`) and take what came back.
//!
//! What other crates compute is called through a few functions whose
//! contracts are taken on trust: `codec` (lower case, percent-encoding,
//! base64, QR codes), `markup` (XML), `json` (JSON) and `archive` (ZIP).

pub mod archive;
pub mod batch;
pub mod codec;
pub mod config;
pub mod derive;
pub mod error;
pub mod escape;
pub mod fields;
pub mod infobox;
pub mod json;
pub mod listing;
pub mod markup;
pub mod render;
pub mod sticker;
pub mod template;
pub mod text;
pub mod wiki;
