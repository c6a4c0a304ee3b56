//! Display-ready transfer values: what the event sink shows the user for each
//! kind of application message, including file-transfer metadata.

use vstd::prelude::*;

use crate::codec::TransferType;

verus! {

/// What a received file-transfer announcement shows: the path offered and an
/// optional accompanying text.
#[derive(Clone)]
pub struct DisplayFileTransfer {
    pub file_path: String,
    pub assoc_text: Option<String>,
}

/// The display form of one received message.
#[derive(Clone)]
pub enum DisplayContent {
    Text(String),
    DisplayFileTransfer(DisplayFileTransfer),
}

/// One received application message, tagged with its wire type, ready for the
/// event sink.
#[derive(Clone)]
pub struct Transfer {
    pub ttype: TransferType,
    pub display_content: DisplayContent,
}

} // verus!
