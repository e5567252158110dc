//! Verified core of the Zoro desktop application: text and HTML processing, Zotero
//! import planning, library bookkeeping, settings updates, chat and translation logic.
use vstd::prelude::*;

pub mod text;
pub mod clock;
pub mod html;
pub mod annotate;
pub mod zotero;
pub mod zotero_items;
pub mod collections_import;
pub mod ai_settings;
pub mod chat;
pub mod paper_context;
pub mod paths;
pub mod translation;
pub mod library;
pub mod feeds;
pub mod html_translation;
pub mod services;
pub mod citation;
pub mod html_export;
pub mod pdf_export;
pub mod plugins;
pub mod records;
pub mod json;

verus! {
} // verus!
