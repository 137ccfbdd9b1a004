//! The secret handshake: a state machine that answers the host's brand
//! announcement with a secret request and turns the server's answer into the
//! settings of the voice tunnel.
//!
//! The machine does no I/O. It is handed each inbound plugin message and says
//! what to do; the caller sends what is to be sent and reports back whether
//! the request went out.

use vstd::prelude::*;
use crate::event::Event;
use crate::plugin_message::{
    channel_of, receive_dispatch, write_plugin_message, Channel, PluginMessage,
};
use crate::resource_location::{MINECRAFT_BRAND_CHANNEL, MINECRAFT_REGISTER_CHANNEL};
use crate::secret::{
    parse_response, SecretRequest, SecretResponse, SecretResponseView,
    VOICECHAT_REQUEST_SECRET_CHANNEL, VOICECHAT_SECRET_CHANNEL,
};
use crate::wire::DecodeError;

verus! {

/// Version of the voice protocol that this client speaks.
pub const VOICECHAT_COMPAT_VERSION: i32 = 15;

/// What the voice tunnel keeps of a [`SecretResponse`].
#[derive(Clone, Debug)]
pub struct VoiceSettings {
    /// The secret, as its sixteen bytes on the wire: the seed of the voice
    /// tunnel's key.
    pub secret: [u8; 16],
    /// The identity of the player.
    pub player: [u8; 16],
    /// Host name of the voice server.
    pub host: String,
    /// UDP port of the voice server.
    pub port: i32,
    /// Whether the server allows voice groups.
    pub groups_enabled: bool,
}

/// What a [`VoiceSettings`] holds, as mathematical values.
pub struct VoiceSettingsView {
    pub secret: Seq<u8>,
    pub player: Seq<u8>,
    pub host: Seq<char>,
    pub port: i32,
    pub groups_enabled: bool,
}

impl View for VoiceSettings {
    type V = VoiceSettingsView;

    open spec fn view(&self) -> VoiceSettingsView {
        VoiceSettingsView {
            secret: self.secret@,
            player: self.player@,
            host: self.host@,
            port: self.port,
            groups_enabled: self.groups_enabled,
        }
    }
}

/// The settings that a response gives.
pub open spec fn settings_of(resp: SecretResponseView) -> VoiceSettingsView {
    VoiceSettingsView {
        secret: resp.secret,
        player: resp.player,
        host: resp.voice_host,
        port: resp.port,
        groups_enabled: resp.groups_enabled,
    }
}

impl From<SecretResponse> for VoiceSettings {
    /// Keeps the secret, the player, the host, the port and the group flag.
    fn from(resp: SecretResponse) -> (settings: VoiceSettings)
        ensures
            settings@ == settings_of(resp@),
    {
        VoiceSettings {
            secret: resp.secret,
            player: resp.player,
            host: resp.voice_host,
            port: resp.port,
            groups_enabled: resp.groups_enabled,
        }
    }
}

impl vstd::std_specs::convert::FromSpecImpl<SecretResponse> for VoiceSettings {
    open spec fn obeys_from_spec() -> bool {
        true
    }

    open spec fn from_spec(resp: SecretResponse) -> VoiceSettings {
        VoiceSettings {
            secret: resp.secret,
            player: resp.player,
            host: resp.voice_host,
            port: resp.port,
            groups_enabled: resp.groups_enabled,
        }
    }
}

/// How far the handshake has come.
#[derive(Clone, Copy, Debug, PartialEq, Eq, Structural)]
pub enum Phase {
    /// No request has gone out.
    Idle,
    /// A request has gone out and no answer has been accepted.
    RequestSent,
    /// An answer has been accepted and the settings are installed.
    Established,
}

/// What the caller is to do after handing in a plugin message.
#[derive(Clone, Debug)]
pub enum Action {
    /// Nothing: the message was for nobody here.
    Ignore,
    /// Send this message over the host session, then report with
    /// [`State::request_sent`] whether it went out.
    SendRequest(PluginMessage),
    /// Nothing to send: the settings of the voice tunnel are installed.
    SettingsInstalled,
    /// Report that the server's answer could not be decoded.
    ReportDecodeError(DecodeError),
}

/// The handshake's state: its phase and the settings, once there are any.
#[derive(Clone, Debug)]
pub struct State {
    phase: Phase,
    voice_settings: Option<VoiceSettings>,
}

/// What a [`State`] holds, as mathematical values.
pub struct StateView {
    pub phase: Phase,
    pub voice_settings: Option<VoiceSettingsView>,
}

impl View for State {
    type V = StateView;

    closed spec fn view(&self) -> StateView {
        StateView {
            phase: self.phase,
            voice_settings: match self.voice_settings {
                Some(settings) => Some(settings@),
                None => None,
            },
        }
    }
}

impl StateView {
    /// Settings are installed exactly in the phase `Established`.
    pub open spec fn wf(self) -> bool {
        (self.phase == Phase::Established) == self.voice_settings.is_some()
    }

    /// The state after the caller reports on a request: a request that went
    /// out moves an idle handshake on, and nothing else changes anything.
    pub open spec fn after_request(self, delivered: bool) -> StateView {
        if delivered && self.phase == Phase::Idle {
            StateView { phase: Phase::RequestSent, voice_settings: self.voice_settings }
        } else {
            self
        }
    }

    /// The state after a plugin message. Only a secret answer that decodes
    /// changes it: its settings replace what was installed, in any phase.
    pub open spec fn after_packet(self, identifier: Seq<char>, data: Seq<u8>) -> StateView {
        match (channel_of(identifier), parse_response(data)) {
            (Some(Channel::Secret), Ok(resp)) => StateView {
                phase: Phase::Established,
                voice_settings: Some(settings_of(resp)),
            },
            _ => self,
        }
    }
}

/// What is to be done about a plugin message, as mathematical values.
pub enum ActionView {
    Ignore,
    SendRequest { identifier: Seq<char>, data: Seq<u8> },
    SettingsInstalled,
    ReportDecodeError(DecodeError),
}

impl View for Action {
    type V = ActionView;

    open spec fn view(&self) -> ActionView {
        match *self {
            Action::Ignore => ActionView::Ignore,
            Action::SendRequest(message) => ActionView::SendRequest {
                identifier: message.identifier@,
                data: message.data@,
            },
            Action::SettingsInstalled => ActionView::SettingsInstalled,
            Action::ReportDecodeError(e) => ActionView::ReportDecodeError(e),
        }
    }
}

/// The request that answers a brand announcement.
pub open spec fn secret_request() -> SecretRequest {
    SecretRequest { compat_version: VOICECHAT_COMPAT_VERSION }
}

/// What is to be done about the plugin message `data` on `identifier`: a
/// brand announcement asks for one secret request with the fixed version, a
/// secret answer is installed or reported, anything else is ignored.
pub open spec fn action_for(identifier: Seq<char>, data: Seq<u8>) -> ActionView {
    match channel_of(identifier) {
        Some(Channel::Brand) => ActionView::SendRequest {
            identifier: VOICECHAT_REQUEST_SECRET_CHANNEL@,
            data: secret_request().wire(),
        },
        Some(Channel::Secret) => match parse_response(data) {
            Ok(_) => ActionView::SettingsInstalled,
            Err(e) => ActionView::ReportDecodeError(e),
        },
        _ => ActionView::Ignore,
    }
}

impl State {
    /// A handshake that has not begun.
    pub fn new() -> (state: State)
        ensures
            state@ == (StateView { phase: Phase::Idle, voice_settings: None }),
            state@.wf(),
    {
        State { phase: Phase::Idle, voice_settings: None }
    }

    /// How far the handshake has come.
    pub fn phase(&self) -> (phase: Phase)
        ensures
            phase == self@.phase,
    {
        self.phase
    }

    /// The installed settings, if any.
    pub fn voice_settings(&self) -> (settings: Option<&VoiceSettings>)
        ensures
            match settings {
                Some(s) => self@.voice_settings == Some(s@),
                None => self@.voice_settings.is_none(),
            },
    {
        self.voice_settings.as_ref()
    }

    /// Takes the caller's report on a request that [`handle_packet`] asked
    /// for: `delivered` says whether the host session took it.
    pub fn request_sent(&mut self, delivered: bool)
        ensures
            final(self)@ == old(self)@.after_request(delivered),
            old(self)@.wf() ==> final(self)@.wf(),
    {
        if delivered {
            match self.phase {
                Phase::Idle => {
                    self.phase = Phase::RequestSent;
                },
                _ => {},
            }
        }
    }
}

/// Reacts to one inbound plugin message.
///
/// The state changes only when a secret answer decodes; an answer that does
/// not decode leaves phase and settings as they were.
pub fn handle_packet(state: &mut State, identifier: &str, data: &[u8]) -> (action: Action)
    ensures
        action@ == action_for(identifier@, data@),
        final(state)@ == old(state)@.after_packet(identifier@, data@),
        old(state)@.wf() ==> final(state)@.wf(),
{
    match receive_dispatch(identifier, data) {
        Some((Channel::Brand, _)) => {
            let request = SecretRequest { compat_version: VOICECHAT_COMPAT_VERSION };
            Action::SendRequest(write_plugin_message(VOICECHAT_REQUEST_SECRET_CHANNEL, &request))
        },
        Some((Channel::Secret, payload)) => match SecretResponse::decode(payload) {
            Ok(resp) => {
                state.voice_settings = Some(VoiceSettings::from(resp));
                state.phase = Phase::Established;
                Action::SettingsInstalled
            },
            Err(e) => Action::ReportDecodeError(e),
        },
        _ => Action::Ignore,
    }
}

/// Reacts to one event of the host session: a plugin message is handed to
/// [`handle_packet`], anything else is ignored and changes nothing.
pub fn handle(state: &mut State, event: &Event) -> (action: Action)
    ensures
        match *event {
            Event::CustomPayload { identifier, data } => {
                &&& action@ == action_for(identifier@, data@)
                &&& final(state)@ == old(state)@.after_packet(identifier@, data@)
            },
            _ => action@ == ActionView::Ignore && final(state)@ == old(state)@,
        },
        old(state)@.wf() ==> final(state)@.wf(),
{
    match event {
        Event::CustomPayload { identifier, data } => handle_packet(
            state,
            identifier.as_str(),
            data.as_slice(),
        ),
        _ => Action::Ignore,
    }
}

/// Every step keeps the settings installed exactly in the phase
/// `Established`.
pub proof fn lemma_steps_keep_wf(
    state: StateView,
    identifier: Seq<char>,
    data: Seq<u8>,
    delivered: bool,
)
    requires
        state.wf(),
    ensures
        state.after_packet(identifier, data).wf(),
        state.after_request(delivered).wf(),
{
}

/// A brand announcement asks for exactly one request, addressed to the
/// request channel and carrying the fixed version as four bytes, and
/// changes nothing yet. Once the request has gone out, an idle handshake is
/// in the phase `RequestSent`; a request that did not go out leaves it idle.
pub proof fn lemma_brand_requests_secret(state: StateView, data: Seq<u8>)
    ensures
        action_for(MINECRAFT_BRAND_CHANNEL@, data) == (ActionView::SendRequest {
            identifier: VOICECHAT_REQUEST_SECRET_CHANNEL@,
            data: seq![0u8, 0u8, 0u8, 15u8],
        }),
        state.after_packet(MINECRAFT_BRAND_CHANNEL@, data) == state,
        state.phase == Phase::Idle ==> state.after_request(true).phase == Phase::RequestSent,
        state.after_request(false) == state,
        state.after_request(true).voice_settings == state.voice_settings,
{
    lemma_channels_differ();
    assert(secret_request().wire() =~= seq![0u8, 0u8, 0u8, 15u8]);
}

/// An answer that decodes establishes the handshake from any phase, and the
/// installed settings are those of the answer, in place of any installed
/// before.
pub proof fn lemma_answer_establishes(state: StateView, data: Seq<u8>)
    requires
        parse_response(data).is_ok(),
    ensures
        state.after_packet(VOICECHAT_SECRET_CHANNEL@, data).phase == Phase::Established,
        state.after_packet(VOICECHAT_SECRET_CHANNEL@, data).voice_settings == Some(
            settings_of(parse_response(data).unwrap()),
        ),
        action_for(VOICECHAT_SECRET_CHANNEL@, data) == ActionView::SettingsInstalled,
{
    lemma_channels_differ();
}

/// An answer that does not decode is reported and changes neither the phase
/// nor the settings.
pub proof fn lemma_bad_answer_changes_nothing(state: StateView, data: Seq<u8>)
    requires
        parse_response(data).is_err(),
    ensures
        state.after_packet(VOICECHAT_SECRET_CHANNEL@, data) == state,
        action_for(VOICECHAT_SECRET_CHANNEL@, data) == ActionView::ReportDecodeError(
            parse_response(data)->Err_0,
        ),
{
    lemma_channels_differ();
}

/// The channels that this crate listens on are three different channels.
pub proof fn lemma_channels_differ()
    ensures
        channel_of(MINECRAFT_BRAND_CHANNEL@) == Some(Channel::Brand),
        channel_of(MINECRAFT_REGISTER_CHANNEL@) == Some(Channel::Register),
        channel_of(VOICECHAT_SECRET_CHANNEL@) == Some(Channel::Secret),
        channel_of(VOICECHAT_REQUEST_SECRET_CHANNEL@).is_none(),
{
    reveal_strlit("minecraft:brand");
    reveal_strlit("minecraft:register");
    reveal_strlit("voicechat:secret");
    reveal_strlit("voicechat:request_secret");
    assert(MINECRAFT_BRAND_CHANNEL@.len() == 15);
    assert(MINECRAFT_REGISTER_CHANNEL@.len() == 18);
    assert(VOICECHAT_SECRET_CHANNEL@.len() == 16);
    assert(VOICECHAT_REQUEST_SECRET_CHANNEL@.len() == 24);
}

} // verus!
