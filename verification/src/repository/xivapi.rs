//! The shapes of the remote emote records, as plain data. The caller side
//! that actually fetches pages deserializes into copies of these and hands
//! the plain values over.

use vstd::prelude::*;

verus! {

/// One page of results.
#[derive(Debug)]
pub struct Response {
    pub pagination: Pagination,
    pub results: Vec<EmoteData>,
}

/// Paging state of a response.
#[derive(Debug)]
pub struct Pagination {
    pub page_next: Option<u32>,
}

/// One raw emote record; every field may be missing.
#[derive(Debug)]
pub struct EmoteData {
    pub log_message_targeted: Option<LogMessageData>,
    pub log_message_untargeted: Option<LogMessageData>,
    pub text_command: Option<TextCommand>,
    pub name: Option<String>,
    pub id: Option<u32>,
}

/// The two language texts of one message.
#[derive(Debug)]
pub struct LogMessageData {
    pub text_en: String,
    pub text_ja: String,
}

/// The command aliases an emote can be invoked by.
#[derive(Debug)]
pub struct TextCommand {
    pub alias_en: Option<String>,
    pub alias_ja: Option<String>,
    pub command_en: Option<String>,
    pub command_ja: Option<String>,
}

} // verus!
