//! Values handed to clients: the per-origin limits the configuration route
//! reports.

use vstd::prelude::*;

verus! {

/// The limits reported to a client, resolved for its origin.
#[derive(Clone, Debug, PartialEq)]
pub struct AppConfigDto {
    pub message_max_length: u16,
    pub file_upload_enabled: bool,
    pub file_max_size: u64,
}

} // verus!
