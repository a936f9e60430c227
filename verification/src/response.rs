//! Plain data of the submission layer: the processing flags with their wire
//! values, the preview switch, and the response a submission yields.

use vstd::prelude::*;

verus! {

/// What a submission run is asked to do.
#[derive(Debug, PartialEq, Eq, Clone, Copy)]
pub enum ProcessingFlag {
    Validate,
    Send,
    Print,
    SendAndPrint,
    CheckHints,
}

impl ProcessingFlag {
    /// The flag's wire value: validation is 2, sending 4, printing 32,
    /// sending with printing their combination 36, hint checking 128.
    pub fn flag_value(&self) -> (r: u32)
        ensures
            *self == ProcessingFlag::Validate ==> r == 2,
            *self == ProcessingFlag::Send ==> r == 4,
            *self == ProcessingFlag::Print ==> r == 32,
            *self == ProcessingFlag::SendAndPrint ==> r == 36,
            *self == ProcessingFlag::CheckHints ==> r == 128,
    {
        match self {
            ProcessingFlag::Validate => 2,
            ProcessingFlag::Send => 4,
            ProcessingFlag::Print => 32,
            ProcessingFlag::SendAndPrint => 36,
            ProcessingFlag::CheckHints => 128,
        }
    }
}

/// Whether a print run only previews.
#[derive(Debug, PartialEq, Eq, Clone, Copy)]
pub enum Preview {
    Yes,
    No,
}

impl Preview {
    /// The switch's wire value: previewing is 1, printing for real 0.
    pub fn flag_value(&self) -> (r: u32)
        ensures
            *self == Preview::Yes ==> r == 1,
            *self == Preview::No ==> r == 0,
    {
        match self {
            Preview::Yes => 1,
            Preview::No => 0,
        }
    }
}

/// What a submission run returned: its error code and the two response
/// documents.
#[derive(Debug, PartialEq, Eq)]
pub struct EricResponse {
    pub error_code: i32,
    pub validation_response: String,
    pub server_response: String,
}

impl EricResponse {
    /// Build a response from its parts.
    pub fn new(error_code: i32, validation_response: String, server_response: String) -> (r: Self)
        ensures
            r.error_code == error_code,
            r.validation_response == validation_response,
            r.server_response == server_response,
    {
        Self { error_code, validation_response, server_response }
    }
}

} // verus!
