//! The two handshake messages and their wire forms.

use vstd::prelude::*;
use vstd::utf8::encode_utf8;
use crate::resource_location::resource_location_text;
use crate::wire::{
    be_bytes_i32, be_bytes_u64, be_i32, be_u64, bool_byte, lemma_be_i32_round_trip,
    lemma_be_u64_round_trip, lemma_string_prefix, lemma_string_round_trip, string_bytes,
    string_field, write_bytes, write_i32, write_string, write_u64, DecodeError, Reader,
};

verus! {

/// Namespace of the voice extension's plugin channels.
pub const VOICECHAT_NAMESPACE: &'static str = "voicechat";

/// Channel on which the client asks for a voice secret.
pub const VOICECHAT_REQUEST_SECRET_CHANNEL: &'static str = "voicechat:request_secret";

/// Channel on which the server answers with the secret and the voice settings.
pub const VOICECHAT_SECRET_CHANNEL: &'static str = "voicechat:secret";

/// The client's request for a voice secret.
#[derive(Clone, Copy, Debug, PartialEq, Eq)]
pub struct SecretRequest {
    /// Version of the voice protocol that the client speaks.
    pub compat_version: i32,
}

impl SecretRequest {
    /// The bytes of the request on the wire.
    pub open spec fn wire(self) -> Seq<u8> {
        be_bytes_i32(self.compat_version)
    }

    /// Encodes the request: the compatibility version as four big-endian
    /// bytes, with no framing.
    pub fn encode(&self) -> (out: Vec<u8>)
        ensures
            out@ == self.wire(),
            out@.len() == 4,
    {
        let mut out: Vec<u8> = Vec::new();
        write_i32(&mut out, self.compat_version);
        assert(out@ =~= self.wire());
        out
    }
}

/// Requests with different versions have different wire forms, and every
/// wire form is four bytes long.
pub proof fn lemma_request_wire_injective(a: SecretRequest, b: SecretRequest)
    ensures
        a.wire().len() == 4,
        (a.wire() == b.wire()) == (a == b),
{
    lemma_be_i32_round_trip(a.compat_version);
    lemma_be_i32_round_trip(b.compat_version);
}

/// The two channels of the voice extension lie in its namespace, under the
/// paths `request_secret` and `secret`.
pub proof fn lemma_voicechat_channels()
    ensures
        VOICECHAT_REQUEST_SECRET_CHANNEL@ == resource_location_text(
            VOICECHAT_NAMESPACE@,
            "request_secret"@,
        ),
        VOICECHAT_SECRET_CHANNEL@ == resource_location_text(VOICECHAT_NAMESPACE@, "secret"@),
{
    reveal_strlit("voicechat");
    reveal_strlit("request_secret");
    reveal_strlit("secret");
    reveal_strlit("voicechat:request_secret");
    reveal_strlit("voicechat:secret");
    assert(VOICECHAT_REQUEST_SECRET_CHANNEL@ =~= resource_location_text(
        VOICECHAT_NAMESPACE@,
        "request_secret"@,
    ));
    assert(VOICECHAT_SECRET_CHANNEL@ =~= resource_location_text(VOICECHAT_NAMESPACE@, "secret"@));
}

/// The server's answer: the voice secret and the settings of the voice
/// server.
#[derive(Clone, Debug)]
pub struct SecretResponse {
    /// The 128-bit secret, as its sixteen bytes on the wire.
    pub secret: [u8; 16],
    /// The 128-bit identity of the player, as its sixteen bytes on the wire.
    pub player: [u8; 16],
    /// UDP port of the voice server.
    pub port: i32,
    /// Host name of the voice server; may be empty.
    pub voice_host: String,
    /// Tag of the audio codec.
    pub codec: u8,
    /// Largest voice packet, in bytes.
    pub mtu_size: i32,
    /// Hearing distance: the bit pattern of an IEEE-754 binary64 number.
    pub voice_chat_distance_bits: u64,
    /// Milliseconds between keep-alive packets.
    pub keep_alive: i32,
    /// Whether the server allows voice groups.
    pub groups_enabled: bool,
    /// Whether the server allows recording.
    pub allow_recording: bool,
}

/// What a [`SecretResponse`] holds, as mathematical values.
pub struct SecretResponseView {
    pub secret: Seq<u8>,
    pub player: Seq<u8>,
    pub port: i32,
    pub voice_host: Seq<char>,
    pub codec: u8,
    pub mtu_size: i32,
    pub voice_chat_distance_bits: u64,
    pub keep_alive: i32,
    pub groups_enabled: bool,
    pub allow_recording: bool,
}

impl View for SecretResponse {
    type V = SecretResponseView;

    open spec fn view(&self) -> SecretResponseView {
        SecretResponseView {
            secret: self.secret@,
            player: self.player@,
            port: self.port,
            voice_host: self.voice_host@,
            codec: self.codec,
            mtu_size: self.mtu_size,
            voice_chat_distance_bits: self.voice_chat_distance_bits,
            keep_alive: self.keep_alive,
            groups_enabled: self.groups_enabled,
            allow_recording: self.allow_recording,
        }
    }
}

/// Bytes of a response before its host name: secret, player and port.
pub open spec fn response_head() -> nat {
    36
}

/// Bytes of a response after its host name: codec, packet size, distance,
/// keep-alive interval and the two flags.
pub open spec fn response_tail() -> nat {
    19
}

/// The response that a payload holds, or the reason why it holds none.
///
/// The fields stand in this order: secret and player (sixteen raw bytes
/// each), port (four bytes), host name (string field), codec (one byte),
/// packet size (four bytes), distance (eight bytes), keep-alive interval
/// (four bytes), and the two flags (one byte each). Integers are big-endian.
/// Bytes after the last field are not looked at.
pub open spec fn parse_response(b: Seq<u8>) -> Result<SecretResponseView, DecodeError> {
    if b.len() < response_head() {
        Err(DecodeError::TruncatedInput)
    } else {
        match string_field(b.skip(response_head() as int)) {
            Err(e) => Err(e),
            Ok((host, w)) => {
                let t = b.skip((response_head() + w) as int);
                if t.len() < response_tail() {
                    Err(DecodeError::TruncatedInput)
                } else {
                    Ok(
                        SecretResponseView {
                            secret: b.subrange(0, 16),
                            player: b.subrange(16, 32),
                            port: be_i32(b.subrange(32, 36)) as i32,
                            voice_host: host,
                            codec: t[0],
                            mtu_size: be_i32(t.subrange(1, 5)) as i32,
                            voice_chat_distance_bits: be_u64(t.subrange(5, 13)) as u64,
                            keep_alive: be_i32(t.subrange(13, 17)) as i32,
                            groups_enabled: t[17] != 0,
                            allow_recording: t[18] != 0,
                        },
                    )
                }
            },
        }
    }
}

/// The number of bytes that the response in `b` takes, where `b` holds one.
pub open spec fn response_width(b: Seq<u8>) -> nat {
    match string_field(b.skip(response_head() as int)) {
        Ok((_, w)) => response_head() + w + response_tail(),
        Err(_) => 0,
    }
}

impl SecretResponseView {
    /// The secret and the player take sixteen bytes each, and the host name
    /// is short enough for a length prefix.
    pub open spec fn wf(self) -> bool {
        &&& self.secret.len() == 16
        &&& self.player.len() == 16
        &&& encode_utf8(self.voice_host).len() < 0x1_0000_0000
    }

    /// The fields before the host name, on the wire.
    pub open spec fn wire_head(self) -> Seq<u8> {
        self.secret + self.player + be_bytes_i32(self.port)
    }

    /// The fields after the host name, on the wire.
    pub open spec fn wire_tail(self) -> Seq<u8> {
        seq![self.codec] + be_bytes_i32(self.mtu_size) + be_bytes_u64(
            self.voice_chat_distance_bits,
        ) + be_bytes_i32(self.keep_alive) + seq![
            bool_byte(self.groups_enabled),
            bool_byte(self.allow_recording),
        ]
    }

    /// The canonical wire form: every field in order, the host name with the
    /// shortest length prefix, the flags as `1` and `0`.
    pub open spec fn wire(self) -> Seq<u8> {
        self.wire_head() + string_bytes(self.voice_host) + self.wire_tail()
    }
}

/// Decoding the canonical form of a response gives the response back, field
/// for field, whatever bytes follow it.
pub proof fn lemma_response_round_trip(v: SecretResponseView, rest: Seq<u8>)
    requires
        v.wf(),
    ensures
        parse_response(v.wire() + rest) == Ok::<_, DecodeError>(v),
        response_width(v.wire() + rest) == v.wire().len(),
{
    let head = v.wire_head();
    let text = string_bytes(v.voice_host);
    let tail = v.wire_tail();
    let b = v.wire() + rest;
    lemma_be_i32_round_trip(v.port);
    lemma_be_i32_round_trip(v.mtu_size);
    lemma_be_i32_round_trip(v.keep_alive);
    lemma_be_u64_round_trip(v.voice_chat_distance_bits);
    assert(head.len() == 36);
    assert(tail.len() == 19);
    assert(b =~= head + (text + (tail + rest)));
    assert(b.skip(36) =~= text + (tail + rest));
    lemma_string_round_trip(v.voice_host, tail + rest);
    let w = text.len();
    let t = b.skip((36 + w) as int);
    assert(t =~= tail + rest);
    assert(b.subrange(0, 16) =~= v.secret);
    assert(b.subrange(16, 32) =~= v.player);
    assert(b.subrange(32, 36) =~= be_bytes_i32(v.port));
    assert(t.subrange(1, 5) =~= be_bytes_i32(v.mtu_size));
    assert(t.subrange(5, 13) =~= be_bytes_u64(v.voice_chat_distance_bits));
    assert(t.subrange(13, 17) =~= be_bytes_i32(v.keep_alive));
    assert(t[0] == v.codec);
    assert(t[17] == bool_byte(v.groups_enabled));
    assert(t[18] == bool_byte(v.allow_recording));
}

/// A payload fails to decode for one of two reasons only: it is truncated,
/// or its host name is not UTF-8. No byte is an invalid boolean.
pub proof fn lemma_response_errors(b: Seq<u8>)
    ensures
        parse_response(b) matches Err(e) ==> e == DecodeError::TruncatedInput || e
            == DecodeError::InvalidUtf8,
{
}

/// A payload that holds a response holds all of its bytes.
pub proof fn lemma_response_width(b: Seq<u8>)
    requires
        parse_response(b).is_ok(),
    ensures
        response_head() + response_tail() <= response_width(b) <= b.len(),
{
}

/// Cutting a payload that holds a response anywhere inside the response
/// leaves truncated input: never another error, never a response.
pub proof fn lemma_response_truncated(b: Seq<u8>, k: int)
    requires
        parse_response(b).is_ok(),
        0 <= k < response_width(b),
    ensures
        parse_response(b.take(k)) == Err::<SecretResponseView, _>(DecodeError::TruncatedInput),
{
    if k >= 36 {
        let s = b.skip(36);
        assert(b.take(k).skip(36) =~= s.take(k - 36));
        lemma_string_prefix(s, k - 36);
        let w = string_field(s).unwrap().1;
        if k - 36 >= w {
            assert(b.take(k).skip((36 + w) as int).len() == k - 36 - w);
        }
    }
}

/// The bytes after a response change nothing: a payload cut at the end of
/// its response, or anywhere later, decodes to the same response.
pub proof fn lemma_response_ignores_rest(b: Seq<u8>, k: int)
    requires
        parse_response(b).is_ok(),
        response_width(b) <= k <= b.len(),
    ensures
        parse_response(b.take(k)) == parse_response(b),
{
    let s = b.skip(36);
    assert(b.take(k).skip(36) =~= s.take(k - 36));
    lemma_string_prefix(s, k - 36);
    let w = string_field(s).unwrap().1;
    let t = b.skip((36 + w) as int);
    let tk = b.take(k).skip((36 + w) as int);
    assert(tk =~= t.take(k - 36 - w));
    assert(b.take(k).subrange(0, 16) =~= b.subrange(0, 16));
    assert(b.take(k).subrange(16, 32) =~= b.subrange(16, 32));
    assert(b.take(k).subrange(32, 36) =~= b.subrange(32, 36));
    assert(tk.subrange(1, 5) =~= t.subrange(1, 5));
    assert(tk.subrange(5, 13) =~= t.subrange(5, 13));
    assert(tk.subrange(13, 17) =~= t.subrange(13, 17));
}

impl SecretResponse {
    /// Encodes the response in its canonical form. Gives `None` where the
    /// host name is too long for a length prefix.
    pub fn encode(&self) -> (r: Option<Vec<u8>>)
        ensures
            r.is_some() == (encode_utf8(self@.voice_host).len() < 0x1_0000_0000),
            r matches Some(out) ==> out@ == self@.wire(),
    {
        let mut out: Vec<u8> = Vec::new();
        write_bytes(&mut out, self.secret.as_slice());
        write_bytes(&mut out, self.player.as_slice());
        write_i32(&mut out, self.port);
        assert(out@ =~= self@.wire_head());
        if !write_string(&mut out, self.voice_host.as_str()) {
            return None;
        }
        let ghost front = out@;
        out.push(self.codec);
        write_i32(&mut out, self.mtu_size);
        write_u64(&mut out, self.voice_chat_distance_bits);
        write_i32(&mut out, self.keep_alive);
        out.push(if self.groups_enabled { 1u8 } else { 0u8 });
        out.push(if self.allow_recording { 1u8 } else { 0u8 });
        assert(out@ =~= front + self@.wire_tail());
        Some(out)
    }

    /// Decodes a response from the front of `bytes`.
    ///
    /// Gives the response exactly when the payload holds one, and otherwise
    /// the error of the first field that cannot be read: `TruncatedInput`
    /// where the payload ends inside or before it, `InvalidUtf8` where the
    /// host name is not UTF-8.
    pub fn decode(bytes: &[u8]) -> (r: Result<SecretResponse, DecodeError>)
        ensures
            match r {
                Ok(resp) => parse_response(bytes@) == Ok::<_, DecodeError>(resp@),
                Err(e) => parse_response(bytes@) == Err::<SecretResponseView, _>(e),
            },
    {
        let mut reader = Reader::new(bytes);
        let ghost b = bytes@;
        let (secret, player, port) = read_head(&mut reader)?;
        let voice_host = reader.read_string()?;
        let ghost w = string_field(b.skip(36))->Ok_0.1;
        assert(reader.remaining() =~= b.skip((36 + w) as int));
        let (codec, mtu_size, voice_chat_distance_bits, keep_alive, flags) = read_tail(
            &mut reader,
        )?;
        Ok(
            SecretResponse {
                secret,
                player,
                port,
                voice_host,
                codec,
                mtu_size,
                voice_chat_distance_bits,
                keep_alive,
                groups_enabled: flags.0,
                allow_recording: flags.1,
            },
        )
    }
}

/// Takes the fields before the host name: secret, player and port.
fn read_head(reader: &mut Reader) -> (r: Result<([u8; 16], [u8; 16], i32), DecodeError>)
    ensures
        match r {
            Ok((secret, player, port)) => {
                let b = old(reader).remaining();
                &&& b.len() >= 36
                &&& secret@ == b.subrange(0, 16)
                &&& player@ == b.subrange(16, 32)
                &&& port == be_i32(b.subrange(32, 36))
                &&& final(reader).advanced(*old(reader), 36)
            },
            Err(e) => e == DecodeError::TruncatedInput && old(reader).remaining().len() < 36,
        },
{
    let ghost b = reader.remaining();
    let secret = reader.read_block()?;
    let player = reader.read_block()?;
    let port = reader.read_i32()?;
    proof {
        assert(b.take(16) =~= b.subrange(0, 16));
        assert(b.skip(16).take(16) =~= b.subrange(16, 32));
        assert(b.skip(16).skip(16).take(4) =~= b.subrange(32, 36));
        assert(b.skip(16).skip(16).skip(4) =~= b.skip(36));
    }
    Ok((secret, player, port))
}

/// Takes the fields after the host name: codec, packet size, distance,
/// keep-alive interval and the two flags.
fn read_tail(reader: &mut Reader) -> (r: Result<(u8, i32, u64, i32, (bool, bool)), DecodeError>)
    ensures
        match r {
            Ok((codec, mtu_size, distance, keep_alive, flags)) => {
                let t = old(reader).remaining();
                &&& t.len() >= 19
                &&& codec == t[0]
                &&& mtu_size == be_i32(t.subrange(1, 5))
                &&& distance == be_u64(t.subrange(5, 13))
                &&& keep_alive == be_i32(t.subrange(13, 17))
                &&& flags.0 == (t[17] != 0)
                &&& flags.1 == (t[18] != 0)
                &&& final(reader).advanced(*old(reader), 19)
            },
            Err(e) => e == DecodeError::TruncatedInput && old(reader).remaining().len() < 19,
        },
{
    let ghost t = reader.remaining();
    let codec = reader.read_u8()?;
    let mtu_size = reader.read_i32()?;
    let distance = reader.read_u64()?;
    let keep_alive = reader.read_i32()?;
    let groups = reader.read_bool()?;
    let recording = reader.read_bool()?;
    proof {
        assert(t.skip(1).take(4) =~= t.subrange(1, 5));
        assert(t.skip(1).skip(4).take(8) =~= t.subrange(5, 13));
        assert(t.skip(1).skip(4).skip(8).take(4) =~= t.subrange(13, 17));
        assert(t.skip(1).skip(4).skip(8).skip(4) =~= t.skip(17));
        assert(t.skip(17).skip(1) =~= t.skip(18));
        assert(t.skip(18).skip(1) =~= t.skip(19));
    }
    Ok((codec, mtu_size, distance, keep_alive, (groups, recording)))
}

} // verus!
