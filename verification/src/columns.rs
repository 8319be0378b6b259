//! How values are kept in the text columns of the storage engine: each as
//! a JSON document on one line, read back with a fallback for a column
//! that is empty or holds something else.

use crate::account::empty_object;
use crate::codec::{compact_document, parse_document, parsed_document, render_compact};
use crate::error::StoreError;
use crate::format::{decode_tabs, decoded_tabs, encode_tabs, encode_texts, encoded_tab, texts_document};
use crate::json::{Json, JsonView};
use crate::model::{PlaylistTab, TabView};
use crate::text::views;
use vstd::prelude::*;

verus! {

/// The list of texts that a column holds: the strings of the array that
/// it holds, and none where it holds anything else.
pub open spec fn column_texts(text: Seq<char>) -> Seq<Seq<char>> {
    match parsed_document(text) {
        Some(doc) => match doc.all_strings() {
            Some(v) => v,
            None => Seq::empty(),
        },
        None => Seq::empty(),
    }
}

/// The document that a column holds, and `{}` where it holds none.
pub open spec fn column_document(text: Seq<char>) -> JsonView {
    match parsed_document(text) {
        Some(doc) => doc,
        None => empty_object(),
    }
}

/// The tabs that a column holds, and none where it holds anything but a
/// list of tabs.
pub open spec fn column_tabs(text: Seq<char>) -> Seq<TabView> {
    match parsed_document(text) {
        Some(doc) => match decoded_tabs(doc) {
            Some(tabs) => tabs,
            None => Seq::empty(),
        },
        None => Seq::empty(),
    }
}

/// Reads a list of texts from a column.
pub fn texts_from_column(text: &str) -> (r: Vec<String>)
    ensures
        views(r@) == column_texts(text@),
{
    let read = match parse_document(text) {
        Some(doc) => doc.all_strings(),
        None => None,
    };
    match read {
        Some(v) => v,
        None => {
            let none: Vec<String> = Vec::new();
            none
        },
    }
}

/// Reads a document from a column.
pub fn document_from_column(text: &str) -> (r: Json)
    ensures
        r@ == column_document(text@),
{
    match parse_document(text) {
        Some(doc) => doc,
        None => Json::empty_object(),
    }
}

/// Reads a list of tabs from a column.
pub fn tabs_from_column(text: &str) -> (r: Vec<PlaylistTab>)
    ensures
        views(r@) == column_tabs(text@),
{
    let read = match parse_document(text) {
        Some(doc) => decode_tabs(&doc),
        None => None,
    };
    match read {
        Some(tabs) => tabs,
        None => {
            let none: Vec<PlaylistTab> = Vec::new();
            none
        },
    }
}

/// The text that a document is kept as in a column.
pub open spec fn column_of(doc: JsonView) -> Result<Seq<char>, StoreError> {
    match compact_document(doc) {
        Some(text) => Ok(text),
        None => Err(StoreError::NotRendered),
    }
}

/// Writes a document for a column.
pub fn document_to_column(doc: &Json) -> (r: Result<String, StoreError>)
    ensures
        match r {
            Ok(text) => column_of(doc@) == Ok::<Seq<char>, StoreError>(text@),
            Err(e) => column_of(doc@) == Err::<Seq<char>, StoreError>(e),
        },
{
    match render_compact(doc) {
        Some(text) => Ok(text),
        None => Err(StoreError::NotRendered),
    }
}

/// Writes a list of texts for a column.
pub fn texts_to_column(texts: &Vec<String>) -> (r: Result<String, StoreError>)
    ensures
        match r {
            Ok(text) => column_of(texts_document(views(texts@))) == Ok::<Seq<char>, StoreError>(
                text@,
            ),
            Err(e) => column_of(texts_document(views(texts@))) == Err::<Seq<char>, StoreError>(e),
        },
{
    document_to_column(&encode_texts(texts))
}

/// Writes a list of tabs for a column.
pub fn tabs_to_column(tabs: &Vec<PlaylistTab>) -> (r: Result<String, StoreError>)
    ensures
        match r {
            Ok(text) => column_of(
                JsonView::Array(views(tabs@).map_values(|t: TabView| encoded_tab(t))),
            ) == Ok::<Seq<char>, StoreError>(text@),
            Err(e) => column_of(
                JsonView::Array(views(tabs@).map_values(|t: TabView| encoded_tab(t))),
            ) == Err::<Seq<char>, StoreError>(e),
        },
{
    document_to_column(&encode_tabs(tabs))
}

} // verus!
