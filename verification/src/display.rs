//! What asking for a display item does to the two lines of the screen.

use crate::error::ParserError;
use crate::zxformat::{overwrite, paged};
use vstd::prelude::*;
use vstd::utf8::encode_utf8;

verus! {

/// The outcome of asking for a display item: what is returned, and what the two
/// lines hold afterwards.
pub struct Shown {
    pub result: Result<u8, ParserError>,
    pub key: Seq<u8>,
    pub value: Seq<u8>,
}

/// A display item: its label, and its text or the reason why it has none.
pub struct Item {
    pub label: Seq<char>,
    pub text: Result<Seq<u8>, ParserError>,
}

/// Nothing is shown, and the lines stay as they were.
pub open spec fn refused(e: ParserError, key: Seq<u8>, value: Seq<u8>) -> Shown {
    Shown { result: Err(e), key, value }
}

/// The label goes over the front of the key line. Then page `page` of the text
/// fills the value line, and the number of pages is returned. The first step that
/// fails ends it, and what was written by then stays.
pub open spec fn shown(item: Item, key: Seq<u8>, value: Seq<u8>, page: u8) -> Shown {
    let label = encode_utf8(item.label);
    if key.len() < label.len() {
        refused(ParserError::parser_unexpected_buffer_end, key, value)
    } else {
        let key = overwrite(key, label);
        match item.text {
            Err(e) => refused(e, key, value),
            Ok(text) => match paged(text, value.len(), page) {
                Err(e) => refused(e, key, value),
                Ok((count, line)) => Shown { result: Ok(count), key, value: line },
            },
        }
    }
}

} // verus!
