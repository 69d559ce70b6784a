//! Playing music in voice channels.

use vstd::prelude::*;

use crate::text::push_str;

verus! {

broadcast use vstd::string::group_string_axioms;

/// Why the bot cannot play in a voice channel.
#[derive(Debug, Clone, Copy, PartialEq, Eq, Structural)]
pub enum VoiceError {
    FailedToAcquireLock,
    FailedToAcquireManager,
    UserNotInVoiceChannel,
}

impl VoiceError {
    /// The message shown for the error.
    pub fn message(&self) -> (r: String)
        ensures
            r@ == match self {
                VoiceError::FailedToAcquireLock => "Failed to acquire lock"@,
                VoiceError::FailedToAcquireManager => "Failed to acquire manager"@,
                VoiceError::UserNotInVoiceChannel => "User not in voice channel"@,
            },
    {
        let mut s = String::new();
        match self {
            VoiceError::FailedToAcquireLock => push_str(&mut s, "Failed to acquire lock"),
            VoiceError::FailedToAcquireManager => push_str(&mut s, "Failed to acquire manager"),
            VoiceError::UserNotInVoiceChannel => push_str(&mut s, "User not in voice channel"),
        }
        s
    }
}

} // verus!
