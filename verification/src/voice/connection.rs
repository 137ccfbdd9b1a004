//! The encrypted datagram transport: which bytes go on the socket for a voice
//! packet, and which packet a received datagram holds.
//!
//! A datagram is the initialization vector, sixteen bytes, followed by the
//! packet encrypted under that vector and the installed key. The socket
//! itself belongs to the caller.

use vstd::prelude::*;
use vstd::string::StringExecFns;
use crate::handshake::VoiceSettings;
use crate::wire::write_bytes;
use crate::voice::cipher::{
    aes128_cbc_decrypted, aes128_cbc_encrypted, decrypt, encrypt, fresh_iv, padded_len,
};

verus! {

/// `std::io::Error`, the error of a socket operation. It is carried through
/// as it is: nothing in this crate looks inside.
#[verifier::external_type_specification]
#[verifier::external_body]
pub struct ExIoError(std::io::Error);

/// What can go wrong on the voice tunnel.
#[derive(Debug)]
pub enum ConnectionError {
    /// The socket failed.
    Io(std::io::Error),
    /// A packet was to be written before a key was installed.
    WriteWithoutKey,
    /// A datagram was to be read before a key was installed.
    ReadWithoutKey,
    /// A received datagram is too short, or does not decrypt.
    MalformedDatagram,
    /// The voice server's port is no UDP port.
    InvalidPort(i32),
    /// A packet is too long for its datagram to be held in memory.
    PacketTooLarge,
}

/// The text of a socket error.
///
/// Calls `ToString::to_string` on a `std::io::Error`. Nothing is claimed of
/// the text: it comes from the operating system.
#[verifier::external_body]
fn io_error_text(e: &std::io::Error) -> String {
    e.to_string()
}

impl From<std::io::Error> for ConnectionError {
    /// A socket error, as an error of the tunnel.
    fn from(e: std::io::Error) -> (r: ConnectionError)
        ensures
            r == ConnectionError::Io(e),
    {
        ConnectionError::Io(e)
    }
}

impl vstd::std_specs::convert::FromSpecImpl<std::io::Error> for ConnectionError {
    open spec fn obeys_from_spec() -> bool {
        true
    }

    open spec fn from_spec(e: std::io::Error) -> ConnectionError {
        ConnectionError::Io(e)
    }
}

impl ConnectionError {
    /// The error in words. A socket error speaks for itself.
    pub fn message(&self) -> (text: String)
        ensures
            *self is WriteWithoutKey ==> text@ == "Write without configured key"@,
            *self is ReadWithoutKey ==> text@ == "Read without configured key"@,
            *self is MalformedDatagram ==> text@ == "Malformed datagram"@,
            *self is InvalidPort ==> text@ == "Voice server port is not a UDP port"@,
            *self is PacketTooLarge ==> text@ == "Packet too large"@,
    {
        match self {
            ConnectionError::Io(e) => io_error_text(e),
            ConnectionError::WriteWithoutKey => String::from_str("Write without configured key"),
            ConnectionError::ReadWithoutKey => String::from_str("Read without configured key"),
            ConnectionError::MalformedDatagram => String::from_str("Malformed datagram"),
            ConnectionError::InvalidPort(_) => String::from_str(
                "Voice server port is not a UDP port",
            ),
            ConnectionError::PacketTooLarge => String::from_str("Packet too large"),
        }
    }
}

/// The datagram for `payload` under `key` and `iv`.
pub open spec fn sealed(key: Seq<u8>, iv: Seq<u8>, payload: Seq<u8>) -> Seq<u8> {
    iv + aes128_cbc_encrypted(key, iv, payload)
}

/// The packet that `datagram` holds under `key`, if it holds one.
pub open spec fn opened(key: Seq<u8>, datagram: Seq<u8>) -> Option<Seq<u8>> {
    if datagram.len() < 16 {
        None
    } else {
        aes128_cbc_decrypted(key, datagram.take(16), datagram.skip(16))
    }
}

/// Whether the datagram for a packet of `len` bytes can be held in memory.
/// Every packet that a socket takes is far below this bound.
pub open spec fn sealable(len: nat) -> bool {
    len + 32 <= usize::MAX
}

/// The length of the datagram for a packet of `len` bytes: the vector, and
/// the packet padded to whole blocks.
pub open spec fn sealed_len(len: nat) -> nat {
    16 + padded_len(len)
}

/// A datagram is longer than its packet by the vector and the padding:
/// between seventeen and thirty-two bytes, and it is made of whole blocks.
pub proof fn lemma_sealed_overhead(len: nat)
    ensures
        sealed_len(len) == len + 16 + (16 - len % 16),
        len + 17 <= sealed_len(len) <= len + 32,
        sealed_len(len) % 16 == 0,
{
}

/// Datagrams sealed under different vectors differ, whatever the key and the
/// packets: the vector stands at the front of the datagram.
pub proof fn lemma_distinct_vectors(
    key: Seq<u8>,
    iv1: Seq<u8>,
    iv2: Seq<u8>,
    packet1: Seq<u8>,
    packet2: Seq<u8>,
)
    requires
        iv1.len() == 16,
        iv2.len() == 16,
        iv1 != iv2,
    ensures
        sealed(key, iv1, packet1) != sealed(key, iv2, packet2),
{
    assert(sealed(key, iv1, packet1).take(16) =~= iv1);
    assert(sealed(key, iv2, packet2).take(16) =~= iv2);
}

/// The state of the transport: the key, once one is installed.
#[derive(Clone, Copy, Debug)]
pub struct Connection {
    key: Option<[u8; 16]>,
}

impl Connection {
    /// The installed key.
    pub closed spec fn key(self) -> Option<Seq<u8>> {
        match self.key {
            Some(k) => Some(k@),
            None => None,
        }
    }

    /// A transport without a key.
    pub fn new() -> (conn: Connection)
        ensures
            conn.key().is_none(),
    {
        Connection { key: None }
    }

    /// Installs `key`, in place of any key installed before.
    pub fn set_encryption_key(&mut self, key: [u8; 16])
        ensures
            final(self).key() == Some(key@),
    {
        self.key = Some(key);
    }

    /// Whether a key is installed.
    pub fn has_key(&self) -> (r: bool)
        ensures
            r == self.key().is_some(),
    {
        self.key.is_some()
    }

    /// Seals `packet` under the installed key and the vector `iv`: the
    /// datagram to write on the socket. Without a key nothing is sealed,
    /// whatever the packet.
    pub fn write_with_iv(&self, iv: &[u8; 16], packet: &[u8]) -> (r: Result<
        Vec<u8>,
        ConnectionError,
    >)
        ensures
            match r {
                Ok(datagram) => {
                    &&& self.key() matches Some(key) && datagram@ == sealed(key, iv@, packet@)
                        && opened(key, datagram@) == Some(packet@)
                    &&& sealable(packet@.len())
                    &&& datagram@.len() == sealed_len(packet@.len())
                },
                Err(e) => match self.key() {
                    None => e is WriteWithoutKey,
                    Some(_) => e is PacketTooLarge && !sealable(packet@.len()),
                },
            },
    {
        match &self.key {
            None => Err(ConnectionError::WriteWithoutKey),
            Some(key) => {
                if packet.len() > usize::MAX - 32 {
                    return Err(ConnectionError::PacketTooLarge);
                }
                let body = encrypt(key, iv, packet);
                let mut datagram: Vec<u8> = Vec::new();
                write_bytes(&mut datagram, iv.as_slice());
                write_bytes(&mut datagram, body.as_slice());
                assert(datagram@ =~= sealed(key@, iv@, packet@));
                assert(datagram@.take(16) =~= iv@);
                assert(datagram@.skip(16) =~= body@);
                Ok(datagram)
            },
        }
    }

    /// Seals `packet` under the installed key and a vector drawn for this
    /// packet: the one datagram to write on the socket. Without a key the
    /// result is `WriteWithoutKey`, whatever the packet: nothing is sealed,
    /// nothing is drawn, and there is nothing to write. With a key the only
    /// failures are a packet that is too long and a random source that gives
    /// no vector.
    pub fn write(&self, packet: &[u8]) -> (r: Result<Vec<u8>, ConnectionError>)
        ensures
            match r {
                Ok(datagram) => {
                    &&& self.key() matches Some(key) && datagram@ == sealed(
                        key,
                        datagram@.take(16),
                        packet@,
                    ) && opened(key, datagram@) == Some(packet@)
                    &&& sealable(packet@.len())
                    &&& datagram@.len() == sealed_len(packet@.len())
                },
                Err(e) => match self.key() {
                    None => e is WriteWithoutKey,
                    Some(_) => if sealable(packet@.len()) {
                        e is Io
                    } else {
                        e is PacketTooLarge
                    },
                },
            },
    {
        if self.key.is_none() {
            return Err(ConnectionError::WriteWithoutKey);
        }
        if packet.len() > usize::MAX - 32 {
            return Err(ConnectionError::PacketTooLarge);
        }
        match fresh_iv() {
            Err(e) => Err(ConnectionError::Io(e)),
            Ok(iv) => match self.write_with_iv(&iv, packet) {
                Ok(datagram) => {
                    assert(datagram@.take(16) =~= iv@);
                    Ok(datagram)
                },
                Err(e) => Err(e),
            },
        }
    }

    /// Opens a received datagram: the packet that it holds.
    pub fn read(&self, datagram: &[u8]) -> (r: Result<Vec<u8>, ConnectionError>)
        ensures
            match r {
                Ok(packet) => self.key() matches Some(key) && opened(key, datagram@) == Some(
                    packet@,
                ),
                Err(e) => match self.key() {
                    None => e is ReadWithoutKey,
                    Some(key) => e is MalformedDatagram && opened(key, datagram@).is_none(),
                },
            },
    {
        match &self.key {
            None => Err(ConnectionError::ReadWithoutKey),
            Some(key) => {
                if datagram.len() < 16 {
                    return Err(ConnectionError::MalformedDatagram);
                }
                let mut iv: [u8; 16] = [0u8; 16];
                let mut i: usize = 0;
                while i < 16
                    invariant
                        i <= 16,
                        datagram@.len() >= 16,
                        forall|k: int| 0 <= k < i ==> iv@[k] == datagram@[k],
                    decreases 16 - i,
                {
                    iv[i] = datagram[i];
                    i += 1;
                }
                assert(iv@ =~= datagram@.take(16));
                let body = vstd::slice::slice_subrange(datagram, 16, datagram.len());
                assert(body@ =~= datagram@.skip(16));
                match decrypt(key, &iv, body) {
                    Some(packet) => Ok(packet),
                    None => Err(ConnectionError::MalformedDatagram),
                }
            },
        }
    }
}

/// The largest UDP port.
pub const MAX_PORT: i32 = 65535;

/// The client's end of the voice tunnel: where the voice server is, and the
/// transport that seals and opens its datagrams.
#[derive(Clone, Debug)]
pub struct Client {
    host: String,
    port: u16,
    connection: Connection,
}

impl Client {
    /// Host name of the voice server.
    pub closed spec fn host(self) -> Seq<char> {
        self.host@
    }

    /// UDP port of the voice server.
    pub closed spec fn port(self) -> u16 {
        self.port
    }

    /// The key of the tunnel.
    pub closed spec fn key(self) -> Option<Seq<u8>> {
        self.connection.key()
    }

    /// Sets up the tunnel that `settings` describe: the voice server is at
    /// the settings' host and port. No key is installed yet: the caller
    /// derives one from the secret and installs it with
    /// [`Client::set_encryption_key`], before or after the socket is
    /// opened. Fails where the port is no UDP port.
    pub fn connect(settings: &VoiceSettings) -> (r: Result<Client, ConnectionError>)
        ensures
            match r {
                Ok(client) => {
                    &&& 0 <= settings.port <= MAX_PORT
                    &&& client.host() == settings@.host
                    &&& client.port() == settings.port
                    &&& client.key().is_none()
                },
                Err(e) => e == ConnectionError::InvalidPort(settings.port) && !(0
                    <= settings.port <= MAX_PORT),
            },
    {
        if settings.port < 0 || settings.port > MAX_PORT {
            return Err(ConnectionError::InvalidPort(settings.port));
        }
        Ok(
            Client {
                host: settings.host.clone(),
                port: settings.port as u16,
                connection: Connection::new(),
            },
        )
    }

    /// Host name of the voice server.
    pub fn remote_host(&self) -> (host: &str)
        ensures
            host@ == self.host(),
    {
        self.host.as_str()
    }

    /// UDP port of the voice server.
    pub fn remote_port(&self) -> (port: u16)
        ensures
            port == self.port(),
    {
        self.port
    }

    /// Installs `key`, in place of any key installed before.
    pub fn set_encryption_key(&mut self, key: [u8; 16])
        ensures
            final(self).key() == Some(key@),
            final(self).host() == old(self).host(),
            final(self).port() == old(self).port(),
    {
        self.connection.set_encryption_key(key);
    }

    /// Whether a key is installed.
    pub fn has_key(&self) -> (r: bool)
        ensures
            r == self.key().is_some(),
    {
        self.connection.has_key()
    }

    /// Seals one voice packet: the one datagram to write on the socket.
    /// Without a key the result is `WriteWithoutKey`, whatever the packet.
    pub fn send_packet(&self, packet: &[u8]) -> (r: Result<Vec<u8>, ConnectionError>)
        ensures
            match r {
                Ok(datagram) => {
                    &&& self.key() matches Some(key) && datagram@ == sealed(
                        key,
                        datagram@.take(16),
                        packet@,
                    ) && opened(key, datagram@) == Some(packet@)
                    &&& sealable(packet@.len())
                    &&& datagram@.len() == sealed_len(packet@.len())
                },
                Err(e) => match self.key() {
                    None => e is WriteWithoutKey,
                    Some(_) => if sealable(packet@.len()) {
                        e is Io
                    } else {
                        e is PacketTooLarge
                    },
                },
            },
    {
        self.connection.write(packet)
    }

    /// Opens one received datagram: the voice packet that it holds.
    pub fn receive_packet(&self, datagram: &[u8]) -> (r: Result<Vec<u8>, ConnectionError>)
        ensures
            match r {
                Ok(packet) => self.key() matches Some(key) && opened(key, datagram@) == Some(
                    packet@,
                ),
                Err(e) => match self.key() {
                    None => e is ReadWithoutKey,
                    Some(key) => e is MalformedDatagram && opened(key, datagram@).is_none(),
                },
            },
    {
        self.connection.read(datagram)
    }
}

} // verus!
