//! The gateway to the host session's plugin channels: what goes out is an
//! addressed envelope around an encoded message, what comes in is sorted by
//! the channel it arrived on.

use vstd::prelude::*;
use vstd::string::StringExecFns;
use crate::resource_location::{
    same_identifier, MINECRAFT_BRAND_CHANNEL, MINECRAFT_REGISTER_CHANNEL,
};
use crate::secret::{SecretRequest, VOICECHAT_SECRET_CHANNEL};

verus! {

/// A message for the host session to send: a channel and an opaque payload.
#[derive(Clone, Debug)]
pub struct PluginMessage {
    /// The channel that the message is addressed to.
    pub identifier: String,
    /// The encoded message.
    pub data: Vec<u8>,
}

/// The channels on which this crate listens.
#[derive(Clone, Copy, Debug, PartialEq, Eq, Structural)]
pub enum Channel {
    /// The host's brand announcement.
    Brand,
    /// The host's channel advertisement.
    Register,
    /// The voice extension's answer to a secret request.
    Secret,
}

/// The channel that an identifier names, if this crate listens on it.
pub open spec fn channel_of(identifier: Seq<char>) -> Option<Channel> {
    if identifier == MINECRAFT_BRAND_CHANNEL@ {
        Some(Channel::Brand)
    } else if identifier == MINECRAFT_REGISTER_CHANNEL@ {
        Some(Channel::Register)
    } else if identifier == VOICECHAT_SECRET_CHANNEL@ {
        Some(Channel::Secret)
    } else {
        None
    }
}

/// Wraps a secret request for sending: the envelope is addressed to
/// `identifier` and carries the request's wire form.
pub fn write_plugin_message(identifier: &str, request: &SecretRequest) -> (message: PluginMessage)
    ensures
        message.identifier@ == identifier@,
        message.data@ == request.wire(),
{
    PluginMessage { identifier: String::from_str(identifier), data: request.encode() }
}

/// Sorts an inbound envelope: the channel it arrived on and its payload,
/// untouched, or `None` where this crate does not listen on that channel.
pub fn receive_dispatch<'a>(identifier: &str, data: &'a [u8]) -> (r: Option<(Channel, &'a [u8])>)
    ensures
        match r {
            Some((channel, payload)) => channel_of(identifier@) == Some(channel) && payload@
                == data@,
            None => channel_of(identifier@).is_none(),
        },
{
    if same_identifier(identifier, MINECRAFT_BRAND_CHANNEL) {
        Some((Channel::Brand, data))
    } else if same_identifier(identifier, MINECRAFT_REGISTER_CHANNEL) {
        Some((Channel::Register, data))
    } else if same_identifier(identifier, VOICECHAT_SECRET_CHANNEL) {
        Some((Channel::Secret, data))
    } else {
        None
    }
}

} // verus!
