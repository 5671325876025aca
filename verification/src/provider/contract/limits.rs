//! Byte limits of the provider contract.
use vstd::prelude::*;

verus! {

pub const MAX_USER_MESSAGE_BYTES: usize = 16 * 1024;

pub const MAX_MODEL_ID_BYTES: usize = 256;

pub const MAX_DISPLAY_NAME_BYTES: usize = 200;

pub const MAX_CONVERSATION_ID_BYTES: usize = 128;

pub const MAX_STREAM_EVENT_BYTES: usize = 64 * 1024;

pub const MAX_RESPONSE_BYTES: usize = 2 * 1024 * 1024;

} // verus!
