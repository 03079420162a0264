//! Frames in their three phases: encrypted as received, decrypted, and
//! decoded into a structured message.

use crate::data::{Data, DataView, PortNum, PORT_TEXT_MESSAGE};
use crate::header::Header;
use crate::key::{transformed, ChannelKey, KeyError};
use crate::wire::copy_range;
use vstd::prelude::*;

verus! {

/// Largest frame that the radio carries, in bytes.
pub const MAX_FRAME_LEN: usize = 256;

/// Largest payload of a frame, in bytes.
pub const MAX_PAYLOAD_LEN: usize = 240;

/// A frame as it was received: header parsed, payload still encrypted.
#[derive(Clone, Debug)]
pub struct EncryptedPacket {
    header: Header,
    rssi: i8,
    snr: i8,
    ciphertext: Vec<u8>,
}

/// A frame whose payload has been decrypted but not decoded.
#[derive(Clone, Debug)]
pub struct DecryptedPacket {
    header: Header,
    rssi: i8,
    snr: i8,
    plaintext: Vec<u8>,
}

/// What a packet with a raw payload holds, as a mathematical value.
pub struct RawPacketView {
    pub header: Header,
    pub rssi: i8,
    pub snr: i8,
    pub payload: Seq<u8>,
}

/// Why a received frame gave no decoded packet.
#[derive(Clone, Copy, Debug, PartialEq, Eq, Structural)]
pub enum FrameError {
    /// The frame is shorter than a header, or its hop limit exceeds its hop
    /// start.
    Header,
    /// The channel key cannot be used.
    Key,
    /// The decrypted payload is not a well-formed message.
    Payload,
}

impl View for EncryptedPacket {
    type V = RawPacketView;

    closed spec fn view(&self) -> RawPacketView {
        RawPacketView {
            header: self.header,
            rssi: self.rssi,
            snr: self.snr,
            payload: self.ciphertext@,
        }
    }
}

impl View for DecryptedPacket {
    type V = RawPacketView;

    closed spec fn view(&self) -> RawPacketView {
        RawPacketView {
            header: self.header,
            rssi: self.rssi,
            snr: self.snr,
            payload: self.plaintext@,
        }
    }
}

impl RawPacketView {
    /// The frame as it stands on the wire: header, then payload.
    pub open spec fn wire(self) -> Seq<u8> {
        self.header.wire() + self.payload
    }

    /// The packet with its payload transformed under the key material and
    /// the nonce of its header.
    pub open spec fn transformed(self, material: Seq<u8>) -> RawPacketView {
        RawPacketView {
            payload: transformed(material, self.payload, self.header.nonce()),
            ..self
        }
    }
}

/// The decoded packet that a received frame gives under the key
/// material: the frame is parsed, decrypted and decoded, and the first of
/// these that fails says why there is none.
pub open spec fn decoded_frame(frame: Seq<u8>, rssi: i8, snr: i8, material: Seq<u8>) -> Result<
    DecodedPacketView,
    FrameError,
> {
    if Header::parse(frame) is None {
        Err(FrameError::Header)
    } else if !crate::key::supported_key_len(material.len() as int) {
        Err(FrameError::Key)
    } else {
        match DataView::decode(
            transformed(
                material,
                frame.subrange(16, frame.len() as int),
                Header::parse(frame)->0.nonce(),
            ),
        ) {
            None => Err(FrameError::Payload),
            Some(data) => Ok(
                DecodedPacketView { header: Header::parse(frame)->0, rssi, snr, data },
            ),
        }
    }
}

/// The frame that carries `data` under `header`, encrypted under the key
/// material.
pub open spec fn encoded_frame(header: Header, data: DataView, material: Seq<u8>) -> Seq<u8> {
    header.wire() + transformed(material, data.encode(), header.nonce())
}

/// The message that a text message is sent as: on the text port, with the
/// text as payload and empty capability bits.
pub open spec fn text_message(text: Seq<u8>) -> DataView {
    DataView {
        portnum: PORT_TEXT_MESSAGE,
        payload: text,
        bitfield: Some(0u32),
        ..DataView::empty()
    }
}

impl EncryptedPacket {
    /// Takes a received frame apart into header and ciphertext. Fails if
    /// the frame is shorter than a header or the header does not parse.
    pub fn from_bytes(buf: &[u8], rssi: i8, snr: i8) -> (r: Option<EncryptedPacket>)
        ensures
            r is Some <==> Header::parse(buf@) is Some,
            r matches Some(p) ==> p@ == (RawPacketView {
                header: Header::parse(buf@)->0,
                rssi,
                snr,
                payload: buf@.subrange(16, buf@.len() as int),
            }),
    {
        let header = match Header::from_bytes(buf) {
            Some(header) => header,
            None => {
                return None;
            },
        };
        let ciphertext = copy_range(buf, 16, buf.len());
        Some(EncryptedPacket { header, rssi, snr, ciphertext })
    }

    /// The frame header.
    pub fn header(&self) -> (h: &Header)
        ensures
            *h == self@.header,
    {
        &self.header
    }

    /// The encrypted payload.
    pub fn ciphertext(&self) -> (c: &Vec<u8>)
        ensures
            c@ == self@.payload,
    {
        &self.ciphertext
    }

    /// Decrypts the payload under the key and the nonce of the header.
    /// Fails only if the key cannot be used.
    pub fn decrypt(self, key: &ChannelKey) -> (r: Result<DecryptedPacket, KeyError>)
        ensures
            r is Ok <==> key.usable(),
            r matches Ok(p) ==> p@ == self@.transformed(key.material@),
    {
        let iv = self.header.create_iv();
        let mut payload = self.ciphertext;
        match key.transform(&mut payload, &iv) {
            Ok(_) => Ok(
                DecryptedPacket {
                    header: self.header,
                    rssi: self.rssi,
                    snr: self.snr,
                    plaintext: payload,
                },
            ),
            Err(e) => Err(e),
        }
    }

    /// The frame as it goes on the wire.
    pub fn to_bytes(&self) -> (out: Vec<u8>)
        ensures
            out@ == self@.wire(),
    {
        let head = self.header.to_bytes();
        let mut out: Vec<u8> = Vec::new();
        let mut i: usize = 0;
        while i < 16
            invariant
                i <= 16,
                head@ == self.header.wire(),
                out@ == head@.subrange(0, i as int),
            decreases 16 - i,
        {
            out.push(head[i]);
            i = i + 1;
            assert(out@ =~= head@.subrange(0, i as int));
        }
        let mut j: usize = 0;
        while j < self.ciphertext.len()
            invariant
                j <= self.ciphertext@.len(),
                head@ == self.header.wire(),
                head@.len() == 16,
                out@ == head@ + self.ciphertext@.subrange(0, j as int),
            decreases self.ciphertext.len() - j,
        {
            out.push(self.ciphertext[j]);
            j = j + 1;
            assert(out@ =~= head@ + self.ciphertext@.subrange(0, j as int));
        }
        assert(self.ciphertext@.subrange(0, self.ciphertext@.len() as int) =~= self.ciphertext@);
        out
    }
}

impl DecryptedPacket {
    /// A packet with a payload that was never encrypted, such as one that
    /// this node is about to send.
    pub fn new(header: Header, rssi: i8, snr: i8, payload: Vec<u8>) -> (p: DecryptedPacket)
        ensures
            p@ == (RawPacketView { header, rssi, snr, payload: payload@ }),
    {
        DecryptedPacket { header, rssi, snr, plaintext: payload }
    }

    /// The frame header.
    pub fn header(&self) -> (h: &Header)
        ensures
            *h == self@.header,
    {
        &self.header
    }

    /// The decrypted payload.
    pub fn plaintext(&self) -> (c: &Vec<u8>)
        ensures
            c@ == self@.payload,
    {
        &self.plaintext
    }

    /// Decodes the payload into a message. Fails if the payload is not a
    /// well-formed message.
    pub fn decode(self) -> (r: Result<DecodedPacket, FrameError>)
        ensures
            r is Ok <==> DataView::decode(self@.payload) is Some,
            r matches Ok(p) ==> p@ == (DecodedPacketView {
                header: self@.header,
                rssi: self@.rssi,
                snr: self@.snr,
                data: DataView::decode(self@.payload)->0,
            }),
            r is Err ==> r->Err_0 == FrameError::Payload,
    {
        match Data::decode(self.plaintext.as_slice()) {
            Some(data) => Ok(
                DecodedPacket { header: self.header, rssi: self.rssi, snr: self.snr, data },
            ),
            None => Err(FrameError::Payload),
        }
    }

    /// Encrypts the payload under the key and the nonce of the header.
    /// Fails only if the key cannot be used.
    pub fn encrypt(self, key: &ChannelKey) -> (r: Result<EncryptedPacket, KeyError>)
        ensures
            r is Ok <==> key.usable(),
            r matches Ok(p) ==> p@ == self@.transformed(key.material@),
    {
        let iv = self.header.create_iv();
        let mut payload = self.plaintext;
        match key.transform(&mut payload, &iv) {
            Ok(_) => Ok(
                EncryptedPacket {
                    header: self.header,
                    rssi: self.rssi,
                    snr: self.snr,
                    ciphertext: payload,
                },
            ),
            Err(e) => Err(e),
        }
    }
}

/// Takes a received frame through the three phases: parse, decrypt, decode.
pub fn handle_received_packet(frame: &[u8], rssi: i8, snr: i8, key: &ChannelKey) -> (r: Result<
    DecodedPacket,
    FrameError,
>)
    ensures
        r is Ok <==> decoded_frame(frame@, rssi, snr, key.material@) is Ok,
        r matches Ok(p) ==> (decoded_frame(frame@, rssi, snr, key.material@) matches Ok(v) && v
            == p@),
        r matches Err(e) ==> (decoded_frame(frame@, rssi, snr, key.material@) matches Err(why)
            && why == e),
{
    let encrypted = match EncryptedPacket::from_bytes(frame, rssi, snr) {
        Some(p) => p,
        None => {
            return Err(FrameError::Header);
        },
    };
    let decrypted = match encrypted.decrypt(key) {
        Ok(p) => p,
        Err(_) => {
            return Err(FrameError::Key);
        },
    };
    decrypted.decode()
}

/// Builds the frame that carries `data` under `header`, encrypted under
/// the key. Fails only if the key cannot be used.
pub fn encode_frame(header: &Header, data: &Data, key: &ChannelKey) -> (r: Result<
    Vec<u8>,
    KeyError,
>)
    ensures
        r is Ok <==> key.usable(),
        r matches Ok(frame) ==> frame@ == encoded_frame(*header, data@, key.material@),
{
    let plain = DecryptedPacket::new(*header, 0, 0, data.encode());
    match plain.encrypt(key) {
        Ok(encrypted) => Ok(encrypted.to_bytes()),
        Err(e) => Err(e),
    }
}

/// Builds the frame of a text message. There is none if the key material
/// cannot be used or the message does not fit the largest payload.
pub fn create_text_message_packet(header: &Header, message: &[u8], key: &[u8], key_len: usize) -> (r:
    Option<Vec<u8>>)
    ensures
        r is Some <==> crate::key::supported_key_len(key_len as int) && key_len <= key@.len()
            && text_message(message@).encode().len() <= MAX_PAYLOAD_LEN,
        r matches Some(frame) ==> frame@ == encoded_frame(
            *header,
            text_message(message@),
            key@.subrange(0, key_len as int),
        ) && frame@.len() <= MAX_FRAME_LEN,
{
    let data = Data {
        portnum: PORT_TEXT_MESSAGE,
        payload: copy_range(message, 0, message.len()),
        want_response: false,
        dest: 0,
        source: 0,
        request_id: 0,
        reply_id: 0,
        emoji: 0,
        bitfield: Some(0),
    };
    assert(message@.subrange(0, message@.len() as int) =~= message@);
    assert(data@ == text_message(message@));
    let payload = data.encode();
    if payload.len() > MAX_PAYLOAD_LEN {
        return None;
    }
    let channel_key = match ChannelKey::from_bytes(key, key_len) {
        Some(k) => k,
        None => {
            return None;
        },
    };
    let plain = DecryptedPacket::new(*header, 0, 0, payload);
    match plain.encrypt(&channel_key) {
        Ok(encrypted) => Some(encrypted.to_bytes()),
        Err(_) => None,
    }
}

/// A frame whose payload has been decrypted and decoded.
#[derive(Clone, Debug)]
pub struct DecodedPacket {
    /// The frame header.
    pub header: Header,
    /// Received signal strength, dBm.
    pub rssi: i8,
    /// Signal-to-noise ratio, dB.
    pub snr: i8,
    /// The structured payload.
    pub data: Data,
}

/// What a `DecodedPacket` holds, as a mathematical value.
pub struct DecodedPacketView {
    pub header: Header,
    pub rssi: i8,
    pub snr: i8,
    pub data: DataView,
}

impl View for DecodedPacket {
    type V = DecodedPacketView;

    open spec fn view(&self) -> DecodedPacketView {
        DecodedPacketView { header: self.header, rssi: self.rssi, snr: self.snr, data: self.data@ }
    }
}

impl DecodedPacketView {
    /// The application protocol of the payload.
    pub open spec fn port(self) -> PortNum {
        self.data.port()
    }
}

impl DecodedPacket {
    /// The packet with its payload encoded again, as it was before decoding.
    pub fn encode(&self) -> (p: DecryptedPacket)
        ensures
            p@ == (RawPacketView {
                header: self@.header,
                rssi: self@.rssi,
                snr: self@.snr,
                payload: self@.data.encode(),
            }),
    {
        DecryptedPacket::new(self.header, self.rssi, self.snr, self.data.encode())
    }

    /// The application protocol of the payload.
    pub fn port_num(&self) -> (p: PortNum)
        ensures
            p == self@.port(),
    {
        self.data.port_num()
    }

    /// A copy with the same contents.
    pub fn duplicate(&self) -> (p: DecodedPacket)
        ensures
            p@ == self@,
    {
        DecodedPacket {
            header: self.header,
            rssi: self.rssi,
            snr: self.snr,
            data: self.data.duplicate(),
        }
    }
}

} // verus!
