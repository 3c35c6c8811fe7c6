//! The ICB wire format: one frame is a length byte, a packet-type tag, the
//! fields joined by `0x01`, and a closing NUL.

use crate::text::{str_eq, str_from_utf8};
use vstd::prelude::*;
use vstd::slice::slice_subrange;
use vstd::utf8::*;

verus! {

/// Not a type of the protocol: the tag this library gives to "no packet".
pub const T_INVALID: u8 = 0x30;

/// `a`: login.
pub const T_LOGIN: u8 = 0x61;

/// `b`: open (public) message.
pub const T_OPEN: u8 = 0x62;

/// `c`: personal message.
pub const T_PERSONAL: u8 = 0x63;

/// `d`: status message.
pub const T_STATUS: u8 = 0x64;

/// `e`: error message.
pub const T_ERROR: u8 = 0x65;

/// `h`: command.
pub const T_COMMAND: u8 = 0x68;

/// `j`: protocol announcement.
pub const T_PROTOCOL: u8 = 0x6a;

/// `k`: beep.
pub const T_BEEP: u8 = 0x6b;

/// The byte that separates two fields of a frame.
pub const SEPARATOR: u8 = 0x01;

/// The largest value the length byte of a frame can hold.
pub const MAX_LENGTH: usize = 255;

/// Why a frame could not be built.
#[derive(Clone, Copy, Debug, PartialEq, Eq, Structural)]
pub enum EncodeError {
    /// Tag, fields and closing NUL together need more than 255 bytes.
    TooLarge,
    /// The protocol does not let a client send this kind of packet.
    NotSendable,
    /// The first field of a command packet is not a command word this
    /// library sends.
    UnknownCommand,
}

/// The fields joined by the separator byte.
pub open spec fn join_fields(fields: Seq<Seq<u8>>) -> Seq<u8>
    decreases fields.len(),
{
    if fields.len() == 0 {
        Seq::empty()
    } else if fields.len() == 1 {
        fields[0]
    } else {
        join_fields(fields.drop_last()) + seq![SEPARATOR] + fields.last()
    }
}

/// The UTF-8 bytes of each field.
pub open spec fn field_bytes(fields: Seq<Seq<char>>) -> Seq<Seq<u8>> {
    fields.map_values(|f: Seq<char>| encode_utf8(f))
}

/// The payload of a frame: the UTF-8 bytes of the fields, joined.
pub open spec fn payload_of(fields: Seq<Seq<char>>) -> Seq<u8> {
    join_fields(field_bytes(fields))
}

/// The frame that carries `payload` under `tag`, where it fits.
pub open spec fn frame_of(tag: u8, payload: Seq<u8>) -> Seq<u8>
    recommends
        payload.len() + 2 <= MAX_LENGTH,
{
    seq![(payload.len() + 2) as u8, tag] + payload + seq![0u8]
}

/// What `packet_create` returns.
pub open spec fn encode_spec(tag: u8, fields: Seq<Seq<char>>) -> Result<Seq<u8>, EncodeError> {
    let payload = payload_of(fields);
    if payload.len() + 2 <= MAX_LENGTH {
        Ok(frame_of(tag, payload))
    } else {
        Err(EncodeError::TooLarge)
    }
}

/// The view of an encoding result: the bytes of the frame, or the error.
pub open spec fn frame_result_view(r: Result<Vec<u8>, EncodeError>) -> Result<
    Seq<u8>,
    EncodeError,
> {
    match r {
        Ok(v) => Ok(v@),
        Err(e) => Err(e),
    }
}

/// Builds the frame for a packet of type `packet_type` with the given
/// fields. Fails, and never truncates, where the frame would need a length
/// above 255.
pub fn packet_create(packet_type: u8, fields: Vec<&str>) -> (r: Result<Vec<u8>, EncodeError>)
    ensures
        frame_result_view(r) == encode_spec(packet_type, fields.deep_view()),
        r is Err <==> payload_of(fields.deep_view()).len() + 2 > MAX_LENGTH,
        r matches Ok(frame) ==> frame@.len() == payload_of(fields.deep_view()).len() + 3
            && frame@.subrange(2, frame@.len() - 1) == payload_of(fields.deep_view()),
{
    let mut payload: Vec<u8> = Vec::new();
    let mut i: usize = 0;
    while i < fields.len()
        invariant
            i <= fields.len(),
            payload@ == payload_of(fields.deep_view().take(i as int)),
            payload@.len() + 2 <= MAX_LENGTH,
        decreases fields.len() - i,
    {
        let bytes = fields[i].as_bytes();
        let sep: usize = if i == 0 {
            0
        } else {
            1
        };
        let room = MAX_LENGTH - 2 - payload.len();
        if bytes.len() > room || sep > room - bytes.len() {
            proof {
                lemma_payload_grows(fields.deep_view(), i as int + 1);
                lemma_payload_take_step(fields.deep_view(), i as int);
            }
            return Err(EncodeError::TooLarge);
        }
        if i > 0 {
            payload.push(SEPARATOR);
        }
        payload.extend_from_slice(bytes);
        proof {
            lemma_payload_take_step(fields.deep_view(), i as int);
        }
        i += 1;
    }
    assert(fields.deep_view().take(fields.len() as int) =~= fields.deep_view());
    let mut frame: Vec<u8> = Vec::with_capacity(payload.len() + 3);
    frame.push((payload.len() + 2) as u8);
    frame.push(packet_type);
    frame.extend_from_slice(payload.as_slice());
    frame.push(0u8);
    assert(frame@ =~= frame_of(packet_type, payload@));
    assert(frame@.subrange(2, frame@.len() - 1) =~= payload@);
    Ok(frame)
}

/// The payload of the first `n + 1` fields is that of the first `n`, then a
/// separator unless `n` is 0, then field `n`.
pub proof fn lemma_payload_take_step(fields: Seq<Seq<char>>, n: int)
    requires
        0 <= n < fields.len(),
    ensures
        payload_of(fields.take(n + 1)) == if n == 0 {
            encode_utf8(fields[0])
        } else {
            payload_of(fields.take(n)) + seq![SEPARATOR] + encode_utf8(fields[n])
        },
{
    let t = field_bytes(fields.take(n + 1));
    assert(t.last() == encode_utf8(fields[n]));
    if n > 0 {
        assert(t.drop_last() =~= field_bytes(fields.take(n)));
    }
}

/// A payload never gets shorter when more fields are joined.
pub proof fn lemma_payload_grows(fields: Seq<Seq<char>>, n: int)
    requires
        0 <= n <= fields.len(),
    ensures
        payload_of(fields.take(n)).len() <= payload_of(fields).len(),
    decreases fields.len() - n,
{
    if n < fields.len() {
        lemma_payload_take_step(fields, n);
        lemma_payload_grows(fields, n + 1);
    } else {
        assert(fields.take(n) =~= fields);
    }
}

/// Why a frame could not be turned into a packet.
#[derive(Clone, Copy, Debug, PartialEq, Eq, Structural)]
pub enum FrameDecodeError {
    /// The bytes hold no frame: they are all zero, or there are none.
    NoData,
    /// The frame is cut short, lacks its closing NUL, holds text that is not
    /// UTF-8, or has not the fields its kind asks for.
    Malformed,
    /// The tag is not one a server sends to a client, or the length byte is
    /// 255, whose meaning the protocol leaves open.
    Unsupported,
}

/// The payload split at every separator byte. There is always at least one
/// field; a payload that ends in a separator has an empty last field.
pub open spec fn split_fields(payload: Seq<u8>) -> Seq<Seq<u8>>
    decreases payload.len(),
{
    if payload.len() == 0 {
        seq![Seq::empty()]
    } else {
        let head = split_fields(payload.drop_last());
        if payload.last() == SEPARATOR {
            head.push(Seq::empty())
        } else {
            head.drop_last().push(head.last().push(payload.last()))
        }
    }
}

/// Whether the first `len` bytes of `buffer` are there and have the shape of
/// a frame body: a tag, a payload and the closing NUL.
pub open spec fn body_is_framed(buffer: Seq<u8>, len: int) -> bool {
    2 <= len <= buffer.len() && buffer[len - 1] == 0
}

/// The raw fields of the frame body that the first `len` bytes of `buffer`
/// hold.
pub open spec fn raw_fields(buffer: Seq<u8>, len: int) -> Result<Seq<Seq<u8>>, FrameDecodeError> {
    if body_is_framed(buffer, len) {
        Ok(split_fields(buffer.subrange(1, len - 1)))
    } else {
        Err(FrameDecodeError::Malformed)
    }
}

/// The bytes of each raw field.
pub open spec fn raw_view(fields: Seq<Vec<u8>>) -> Seq<Seq<u8>> {
    fields.map_values(|f: Vec<u8>| f@)
}

/// The view of a list of raw fields, or the error.
pub open spec fn raw_result_view(r: Result<Vec<Vec<u8>>, FrameDecodeError>) -> Result<
    Seq<Seq<u8>>,
    FrameDecodeError,
> {
    match r {
        Ok(v) => Ok(raw_view(v@)),
        Err(e) => Err(e),
    }
}

/// Splits the body of a frame into its raw fields. `buffer` starts at the
/// tag; `len` is the value of the length byte, so the body is the first
/// `len` bytes of `buffer`. The tag and the closing NUL belong to no field.
pub fn packet_buffer_iter(buffer: &[u8], len: usize) -> (r: Result<Vec<Vec<u8>>, FrameDecodeError>)
    ensures
        raw_result_view(r) == raw_fields(buffer@, len as int),
{
    if len < 2 || buffer.len() < len || buffer[len - 1] != 0 {
        return Err(FrameDecodeError::Malformed);
    }
    let ghost payload = buffer@.subrange(1, len - 1);
    let mut fields: Vec<Vec<u8>> = Vec::new();
    let mut current: Vec<u8> = Vec::new();
    let mut i: usize = 1;
    while i < len - 1
        invariant
            1 <= i <= len - 1,
            len <= buffer.len(),
            payload == buffer@.subrange(1, len - 1),
            raw_view(fields@).push(current@) == split_fields(payload.take(i - 1)),
        decreases len - i,
    {
        let b = buffer[i];
        proof {
            let before = payload.take(i - 1);
            let after = payload.take(i as int);
            assert(after.drop_last() =~= before);
            assert(after.last() == b);
            let head = raw_view(fields@).push(current@);
            assert(head.drop_last() =~= raw_view(fields@));
            assert(head.last() == current@);
        }
        if b == SEPARATOR {
            let ghost old_fields = raw_view(fields@);
            fields.push(current);
            current = Vec::new();
            assert(raw_view(fields@) =~= old_fields.push(fields@.last()@));
        } else {
            current.push(b);
        }
        i += 1;
    }
    assert(payload.take(len - 2) =~= payload);
    let ghost old_fields = raw_view(fields@);
    fields.push(current);
    assert(raw_view(fields@) =~= old_fields.push(fields@.last()@));
    Ok(fields)
}

/// The kinds of packet this library knows.
#[derive(Clone, Copy, Debug, PartialEq, Eq, Structural)]
pub enum PacketKind {
    Login,
    Protocol,
    Status,
    Open,
    Personal,
    Command,
    Beep,
}

/// A packet as the server sent it, with the fields of its kind.
#[derive(Clone, Debug, PartialEq, Eq)]
pub enum ParsedPacket {
    /// The server's answer to a login: it carries nothing.
    Login,
    Protocol { hostid: String, clientid: String },
    Status { category: String, message: String },
    Open { nickname: String, message: String },
    Personal { nickname: String, message: String },
    Beep { nickname: String },
}

/// What a `ParsedPacket` holds, as plain text.
pub enum PacketView {
    Login,
    Protocol { hostid: Seq<char>, clientid: Seq<char> },
    Status { category: Seq<char>, message: Seq<char> },
    Open { nickname: Seq<char>, message: Seq<char> },
    Personal { nickname: Seq<char>, message: Seq<char> },
    Beep { nickname: Seq<char> },
}

impl View for ParsedPacket {
    type V = PacketView;

    open spec fn view(&self) -> PacketView {
        match *self {
            ParsedPacket::Login => PacketView::Login,
            ParsedPacket::Protocol { hostid, clientid } => PacketView::Protocol {
                hostid: hostid@,
                clientid: clientid@,
            },
            ParsedPacket::Status { category, message } => PacketView::Status {
                category: category@,
                message: message@,
            },
            ParsedPacket::Open { nickname, message } => PacketView::Open {
                nickname: nickname@,
                message: message@,
            },
            ParsedPacket::Personal { nickname, message } => PacketView::Personal {
                nickname: nickname@,
                message: message@,
            },
            ParsedPacket::Beep { nickname } => PacketView::Beep { nickname: nickname@ },
        }
    }
}

impl PacketView {
    /// The kind of the packet.
    pub open spec fn kind(self) -> PacketKind {
        match self {
            PacketView::Login => PacketKind::Login,
            PacketView::Protocol { .. } => PacketKind::Protocol,
            PacketView::Status { .. } => PacketKind::Status,
            PacketView::Open { .. } => PacketKind::Open,
            PacketView::Personal { .. } => PacketKind::Personal,
            PacketView::Beep { .. } => PacketKind::Beep,
        }
    }
}

impl ParsedPacket {
    /// The kind of the packet.
    pub fn kind(&self) -> (k: PacketKind)
        ensures
            k == self@.kind(),
    {
        match self {
            ParsedPacket::Login => PacketKind::Login,
            ParsedPacket::Protocol { .. } => PacketKind::Protocol,
            ParsedPacket::Status { .. } => PacketKind::Status,
            ParsedPacket::Open { .. } => PacketKind::Open,
            ParsedPacket::Personal { .. } => PacketKind::Personal,
            ParsedPacket::Beep { .. } => PacketKind::Beep,
        }
    }
}

/// The view of a decoding result: the packet as plain text, or the error.
pub open spec fn packet_result_view(r: Result<ParsedPacket, FrameDecodeError>) -> Result<
    PacketView,
    FrameDecodeError,
> {
    match r {
        Ok(p) => Ok(p@),
        Err(e) => Err(e),
    }
}

/// The text of the raw fields, where each of them is UTF-8.
pub open spec fn text_fields(raw: Seq<Seq<u8>>) -> Option<Seq<Seq<char>>> {
    if forall|i: int| 0 <= i < raw.len() ==> valid_utf8(#[trigger] raw[i]) {
        Some(raw.map_values(|f: Seq<u8>| decode_utf8(f)))
    } else {
        None
    }
}

/// The packet of the given kind that the fields make, where they are the
/// fields that the kind asks for: three for a protocol packet, of which the
/// first (the protocol level) is skipped; two for a status, an open and a
/// personal message; one for a beep; for a login, the single empty field of
/// an empty payload. A server sends no command packet.
pub open spec fn packet_of_fields(kind: PacketKind, fields: Seq<Seq<char>>) -> Option<PacketView> {
    match kind {
        PacketKind::Login => if fields.len() == 1 && fields[0].len() == 0 {
            Some(PacketView::Login)
        } else {
            None
        },
        PacketKind::Protocol => if fields.len() == 3 {
            Some(PacketView::Protocol { hostid: fields[1], clientid: fields[2] })
        } else {
            None
        },
        PacketKind::Status => if fields.len() == 2 {
            Some(PacketView::Status { category: fields[0], message: fields[1] })
        } else {
            None
        },
        PacketKind::Open => if fields.len() == 2 {
            Some(PacketView::Open { nickname: fields[0], message: fields[1] })
        } else {
            None
        },
        PacketKind::Personal => if fields.len() == 2 {
            Some(PacketView::Personal { nickname: fields[0], message: fields[1] })
        } else {
            None
        },
        PacketKind::Beep => if fields.len() == 1 {
            Some(PacketView::Beep { nickname: fields[0] })
        } else {
            None
        },
        PacketKind::Command => None,
    }
}

/// The text fields of the frame body that the first `len` bytes of `buffer`
/// hold.
pub open spec fn body_fields(buffer: Seq<u8>, len: int) -> Result<Seq<Seq<char>>, FrameDecodeError> {
    match raw_fields(buffer, len) {
        Ok(raw) => match text_fields(raw) {
            Some(fields) => Ok(fields),
            None => Err(FrameDecodeError::Malformed),
        },
        Err(e) => Err(e),
    }
}

/// What parsing the first `len` bytes of `buffer` as the body of a packet of
/// the given kind gives.
pub open spec fn parse_spec(kind: PacketKind, buffer: Seq<u8>, len: int) -> Result<
    PacketView,
    FrameDecodeError,
> {
    if kind == PacketKind::Command {
        Err(FrameDecodeError::Unsupported)
    } else {
        match body_fields(buffer, len) {
            Ok(fields) => match packet_of_fields(kind, fields) {
                Some(p) => Ok(p),
                None => Err(FrameDecodeError::Malformed),
            },
            Err(e) => Err(e),
        }
    }
}

/// The view of a list of text fields, or the error.
pub open spec fn fields_result_view(r: Result<Vec<String>, FrameDecodeError>) -> Result<
    Seq<Seq<char>>,
    FrameDecodeError,
> {
    match r {
        Ok(v) => Ok(v.deep_view()),
        Err(e) => Err(e),
    }
}

/// The text fields of a frame body: the raw fields, each read as UTF-8.
pub fn packet_fields(buffer: &[u8], len: usize) -> (r: Result<Vec<String>, FrameDecodeError>)
    ensures
        fields_result_view(r) == body_fields(buffer@, len as int),
{
    let raw = match packet_buffer_iter(buffer, len) {
        Ok(raw) => raw,
        Err(e) => {
            return Err(e);
        },
    };
    let mut fields: Vec<String> = Vec::new();
    let mut i: usize = 0;
    while i < raw.len()
        invariant
            i <= raw.len(),
            fields.len() == i,
            raw_fields(buffer@, len as int) == Ok::<Seq<Seq<u8>>, FrameDecodeError>(raw_view(raw@)),
            forall|j: int| 0 <= j < i ==> valid_utf8(#[trigger] raw_view(raw@)[j]),
            forall|j: int| 0 <= j < i ==> (#[trigger] fields@[j])@ == decode_utf8(raw_view(raw@)[j]),
        decreases raw.len() - i,
    {
        match str_from_utf8(raw[i].as_slice()) {
            Some(s) => {
                proof {
                    encode_utf8_decode_utf8(s@);
                }
                fields.push(s.to_owned());
            },
            None => {
                assert(!valid_utf8(raw_view(raw@)[i as int]));
                return Err(FrameDecodeError::Malformed);
            },
        }
        i += 1;
    }
    assert(fields.deep_view() =~= raw_view(raw@).map_values(|f: Seq<u8>| decode_utf8(f)));
    Ok(fields)
}

/// Takes the two fields out of a list of two.
fn take_two(fields: Vec<String>) -> (r: (String, String))
    requires
        fields.len() == 2,
    ensures
        r.0@ == fields.deep_view()[0],
        r.1@ == fields.deep_view()[1],
{
    let mut fields = fields;
    let second = fields.pop().unwrap();
    let first = fields.pop().unwrap();
    (first, second)
}

/// Parses the body of a login packet: the server's answer to a login is
/// the tag and the closing NUL, nothing else.
pub fn login_packet_parse(buffer: &[u8], len: usize) -> (r: Result<ParsedPacket, FrameDecodeError>)
    ensures
        packet_result_view(r) == parse_spec(PacketKind::Login, buffer@, len as int),
{
    let fields = match packet_fields(buffer, len) {
        Ok(fields) => fields,
        Err(e) => {
            return Err(e);
        },
    };
    if fields.len() == 1 && fields[0].as_str().is_empty() {
        Ok(ParsedPacket::Login)
    } else {
        Err(FrameDecodeError::Malformed)
    }
}

/// Parses the body of a protocol packet: protocol level, host id, client id.
/// The protocol level is skipped.
pub fn protocol_packet_parse(buffer: &[u8], len: usize) -> (r: Result<
    ParsedPacket,
    FrameDecodeError,
>)
    ensures
        packet_result_view(r) == parse_spec(PacketKind::Protocol, buffer@, len as int),
{
    let mut fields = match packet_fields(buffer, len) {
        Ok(fields) => fields,
        Err(e) => {
            return Err(e);
        },
    };
    if fields.len() != 3 {
        return Err(FrameDecodeError::Malformed);
    }
    let clientid = fields.pop().unwrap();
    let hostid = fields.pop().unwrap();
    Ok(ParsedPacket::Protocol { hostid, clientid })
}

/// Parses the body of a status packet: category, message.
pub fn status_packet_parse(buffer: &[u8], len: usize) -> (r: Result<ParsedPacket, FrameDecodeError>)
    ensures
        packet_result_view(r) == parse_spec(PacketKind::Status, buffer@, len as int),
{
    let fields = match packet_fields(buffer, len) {
        Ok(fields) => fields,
        Err(e) => {
            return Err(e);
        },
    };
    if fields.len() != 2 {
        return Err(FrameDecodeError::Malformed);
    }
    let (category, message) = take_two(fields);
    Ok(ParsedPacket::Status { category, message })
}

/// Parses the body of an open message: nickname, message.
pub fn open_packet_parse(buffer: &[u8], len: usize) -> (r: Result<ParsedPacket, FrameDecodeError>)
    ensures
        packet_result_view(r) == parse_spec(PacketKind::Open, buffer@, len as int),
{
    let fields = match packet_fields(buffer, len) {
        Ok(fields) => fields,
        Err(e) => {
            return Err(e);
        },
    };
    if fields.len() != 2 {
        return Err(FrameDecodeError::Malformed);
    }
    let (nickname, message) = take_two(fields);
    Ok(ParsedPacket::Open { nickname, message })
}

/// Parses the body of a personal message: nickname, message.
pub fn personal_packet_parse(buffer: &[u8], len: usize) -> (r: Result<
    ParsedPacket,
    FrameDecodeError,
>)
    ensures
        packet_result_view(r) == parse_spec(PacketKind::Personal, buffer@, len as int),
{
    let fields = match packet_fields(buffer, len) {
        Ok(fields) => fields,
        Err(e) => {
            return Err(e);
        },
    };
    if fields.len() != 2 {
        return Err(FrameDecodeError::Malformed);
    }
    let (nickname, message) = take_two(fields);
    Ok(ParsedPacket::Personal { nickname, message })
}

/// Parses the body of a beep: the nickname of who beeps.
pub fn beep_packet_parse(buffer: &[u8], len: usize) -> (r: Result<ParsedPacket, FrameDecodeError>)
    ensures
        packet_result_view(r) == parse_spec(PacketKind::Beep, buffer@, len as int),
{
    let mut fields = match packet_fields(buffer, len) {
        Ok(fields) => fields,
        Err(e) => {
            return Err(e);
        },
    };
    if fields.len() != 1 {
        return Err(FrameDecodeError::Malformed);
    }
    let nickname = fields.pop().unwrap();
    Ok(ParsedPacket::Beep { nickname })
}

/// The parser of a kind that no server sends to a client: whatever the
/// body holds, it is not supported.
pub fn invalid_packet_parse(buffer: &[u8], len: usize) -> (r: Result<ParsedPacket, FrameDecodeError>)
    ensures
        packet_result_view(r) == parse_spec(PacketKind::Command, buffer@, len as int),
{
    Err(FrameDecodeError::Unsupported)
}

/// Command word: help.
pub const CMD_HELP: &'static str = "?";

/// Command word: beep a user.
pub const CMD_BEEP: &'static str = "beep";

/// Command word: boot a user.
pub const CMD_BOOT: &'static str = "boot";

/// Command word: change group.
pub const CMD_G: &'static str = "g";

/// Command word: personal message.
pub const CMD_M: &'static str = "m";

/// Command word: personal message.
pub const CMD_MSG: &'static str = "msg";

/// Command word: change name.
pub const CMD_NAME: &'static str = "name";

/// Command word: disable beeps.
pub const CMD_NOBEEP: &'static str = "nobeep";

/// Command word: pass moderation.
pub const CMD_PASS: &'static str = "pass";

/// Command word: set the topic.
pub const CMD_TOPIC: &'static str = "topic";

/// Command word: list users.
pub const CMD_W: &'static str = "w";

/// The command words that this library sends: `beep`, `m`, `msg`, `name`.
pub open spec fn is_command_word(word: Seq<char>) -> bool {
    word == CMD_BEEP@ || word == CMD_M@ || word == CMD_MSG@ || word == CMD_NAME@
}

/// The tag of each kind of packet.
pub open spec fn tag_of(kind: PacketKind) -> u8 {
    match kind {
        PacketKind::Login => T_LOGIN,
        PacketKind::Protocol => T_PROTOCOL,
        PacketKind::Status => T_STATUS,
        PacketKind::Open => T_OPEN,
        PacketKind::Personal => T_PERSONAL,
        PacketKind::Command => T_COMMAND,
        PacketKind::Beep => T_BEEP,
    }
}

/// The kind that a tag stands for, where the registry holds it.
pub open spec fn kind_of_tag(tag: u8) -> Option<PacketKind> {
    if tag == T_LOGIN {
        Some(PacketKind::Login)
    } else if tag == T_PROTOCOL {
        Some(PacketKind::Protocol)
    } else if tag == T_STATUS {
        Some(PacketKind::Status)
    } else if tag == T_OPEN {
        Some(PacketKind::Open)
    } else if tag == T_PERSONAL {
        Some(PacketKind::Personal)
    } else if tag == T_COMMAND {
        Some(PacketKind::Command)
    } else if tag == T_BEEP {
        Some(PacketKind::Beep)
    } else {
        None
    }
}

/// What building a packet of the given kind returns: a client sends login,
/// protocol and open packets with any fields, a command packet where its
/// first field is a command word this library sends, and no status,
/// personal or beep packet.
pub open spec fn create_spec(kind: PacketKind, fields: Seq<Seq<char>>) -> Result<
    Seq<u8>,
    EncodeError,
> {
    match kind {
        PacketKind::Login | PacketKind::Protocol | PacketKind::Open => encode_spec(
            tag_of(kind),
            fields,
        ),
        PacketKind::Command => if fields.len() > 0 && is_command_word(fields[0]) {
            encode_spec(T_COMMAND, fields)
        } else {
            Err(EncodeError::UnknownCommand)
        },
        PacketKind::Status | PacketKind::Personal | PacketKind::Beep => Err(
            EncodeError::NotSendable,
        ),
    }
}

/// Builds a login packet.
pub fn login_packet_create(fields: Vec<&str>) -> (r: Result<Vec<u8>, EncodeError>)
    ensures
        frame_result_view(r) == create_spec(PacketKind::Login, fields.deep_view()),
{
    packet_create(T_LOGIN, fields)
}

/// Builds a protocol packet.
pub fn protocol_packet_create(fields: Vec<&str>) -> (r: Result<Vec<u8>, EncodeError>)
    ensures
        frame_result_view(r) == create_spec(PacketKind::Protocol, fields.deep_view()),
{
    packet_create(T_PROTOCOL, fields)
}

/// Builds an open message.
pub fn open_packet_create(fields: Vec<&str>) -> (r: Result<Vec<u8>, EncodeError>)
    ensures
        frame_result_view(r) == create_spec(PacketKind::Open, fields.deep_view()),
{
    packet_create(T_OPEN, fields)
}

/// Builds a command packet. The first field is the command word; only
/// `beep`, `m`, `msg` and `name` are sent.
pub fn command_packet_create(fields: Vec<&str>) -> (r: Result<Vec<u8>, EncodeError>)
    ensures
        frame_result_view(r) == create_spec(PacketKind::Command, fields.deep_view()),
{
    if fields.len() == 0 {
        return Err(EncodeError::UnknownCommand);
    }
    let cmd = fields[0];
    if str_eq(cmd, CMD_BEEP) || str_eq(cmd, CMD_M) || str_eq(cmd, CMD_MSG) || str_eq(
        cmd,
        CMD_NAME,
    ) {
        packet_create(T_COMMAND, fields)
    } else {
        Err(EncodeError::UnknownCommand)
    }
}

/// The builder of a kind that a client may not send: it fails whatever the
/// fields are.
pub fn invalid_packet_create(fields: Vec<&str>) -> (r: Result<Vec<u8>, EncodeError>)
    ensures
        r == Err::<Vec<u8>, EncodeError>(EncodeError::NotSendable),
{
    Err(EncodeError::NotSendable)
}

/// One entry of the packet registry: a kind of packet under its tag.
#[derive(Clone, Copy, Debug, PartialEq, Eq)]
pub struct Packet {
    packet_type: u8,
    kind: PacketKind,
}

impl Packet {
    #[verifier::type_invariant]
    spec fn tag_matches_kind(self) -> bool {
        self.packet_type == tag_of(self.kind)
    }

    /// The kind of packet that this entry is for.
    pub closed spec fn spec_kind(self) -> PacketKind {
        self.kind
    }

    /// The registry entry of a kind.
    pub fn of(kind: PacketKind) -> (p: Packet)
        ensures
            p.spec_kind() == kind,
    {
        let packet_type = match kind {
            PacketKind::Login => T_LOGIN,
            PacketKind::Protocol => T_PROTOCOL,
            PacketKind::Status => T_STATUS,
            PacketKind::Open => T_OPEN,
            PacketKind::Personal => T_PERSONAL,
            PacketKind::Command => T_COMMAND,
            PacketKind::Beep => T_BEEP,
        };
        Packet { packet_type, kind }
    }

    /// The kind of packet that this entry is for.
    pub fn kind(&self) -> (k: PacketKind)
        ensures
            k == self.spec_kind(),
    {
        self.kind
    }

    /// The tag under which the kind travels.
    pub fn packet_type(&self) -> (t: u8)
        ensures
            t == tag_of(self.spec_kind()),
    {
        proof {
            use_type_invariant(self);
        }
        self.packet_type
    }

    /// Parses the first `len` bytes of `buffer` as the body of a packet of
    /// this kind.
    pub fn parse(&self, buffer: &[u8], len: usize) -> (r: Result<ParsedPacket, FrameDecodeError>)
        ensures
            packet_result_view(r) == parse_spec(self.spec_kind(), buffer@, len as int),
    {
        match self.kind {
            PacketKind::Login => login_packet_parse(buffer, len),
            PacketKind::Protocol => protocol_packet_parse(buffer, len),
            PacketKind::Status => status_packet_parse(buffer, len),
            PacketKind::Open => open_packet_parse(buffer, len),
            PacketKind::Personal => personal_packet_parse(buffer, len),
            PacketKind::Command => invalid_packet_parse(buffer, len),
            PacketKind::Beep => beep_packet_parse(buffer, len),
        }
    }

    /// Builds the frame of a packet of this kind with the given fields.
    pub fn create(&self, fields: Vec<&str>) -> (r: Result<Vec<u8>, EncodeError>)
        ensures
            frame_result_view(r) == create_spec(self.spec_kind(), fields.deep_view()),
    {
        match self.kind {
            PacketKind::Login => login_packet_create(fields),
            PacketKind::Protocol => protocol_packet_create(fields),
            PacketKind::Open => open_packet_create(fields),
            PacketKind::Command => command_packet_create(fields),
            PacketKind::Status | PacketKind::Personal | PacketKind::Beep => invalid_packet_create(
                fields,
            ),
        }
    }
}

/// The packet registry: one entry for each kind of packet.
pub fn packets() -> (table: [Packet; 7])
    ensures
        table@.len() == 7,
        forall|tag: u8|
            kind_of_tag(tag) is Some <==> exists|i: int|
                0 <= i < 7 && tag_of(#[trigger] table@[i].spec_kind()) == tag,
        forall|i: int, j: int|
            0 <= i < j < 7 ==> table@[i].spec_kind() != table@[j].spec_kind(),
{
    let table = [
        Packet::of(PacketKind::Login),
        Packet::of(PacketKind::Protocol),
        Packet::of(PacketKind::Status),
        Packet::of(PacketKind::Open),
        Packet::of(PacketKind::Personal),
        Packet::of(PacketKind::Command),
        Packet::of(PacketKind::Beep),
    ];
    proof {
        assert forall|tag: u8| kind_of_tag(tag) is Some implies exists|i: int|
            0 <= i < 7 && tag_of(#[trigger] table@[i].spec_kind()) == tag by {
            let k = kind_of_tag(tag)->0;
            let i: int = match k {
                PacketKind::Login => 0,
                PacketKind::Protocol => 1,
                PacketKind::Status => 2,
                PacketKind::Open => 3,
                PacketKind::Personal => 4,
                PacketKind::Command => 5,
                PacketKind::Beep => 6,
            };
            assert(tag_of(table@[i].spec_kind()) == tag);
        }
    }
    table
}

/// Looks a tag up in the registry.
pub fn lookup(tag: u8) -> (r: Option<Packet>)
    ensures
        r is Some <==> kind_of_tag(tag) is Some,
        r matches Some(p) ==> kind_of_tag(tag) == Some(p.spec_kind()),
{
    let table = packets();
    let mut i: usize = 0;
    while i < 7
        invariant
            i <= 7,
            table@.len() == 7,
            forall|j: int| 0 <= j < i ==> tag_of(#[trigger] table@[j].spec_kind()) != tag,
            forall|t: u8|
                kind_of_tag(t) is Some <==> exists|k: int|
                    0 <= k < 7 && tag_of(#[trigger] table@[k].spec_kind()) == t,
        decreases 7 - i,
    {
        if table[i].packet_type() == tag {
            return Some(table[i]);
        }
        i += 1;
    }
    None
}

/// What decoding gives of bytes that start with the length byte of a frame
/// (a byte that is not zero). A length of 255 is not supported; a body that
/// is cut short is malformed; a tag outside the registry is not supported;
/// the rest is up to the parser of the kind.
pub open spec fn decode_frame(bytes: Seq<u8>) -> Result<PacketView, FrameDecodeError>
    recommends
        bytes.len() > 0,
        bytes[0] != 0,
{
    let len = bytes[0] as int;
    let buffer = bytes.skip(1);
    if len == MAX_LENGTH {
        Err(FrameDecodeError::Unsupported)
    } else if buffer.len() < len {
        Err(FrameDecodeError::Malformed)
    } else {
        match kind_of_tag(buffer[0]) {
            Some(kind) => parse_spec(kind, buffer, len),
            None => Err(FrameDecodeError::Unsupported),
        }
    }
}

/// What decoding gives of any bytes: zero bytes before the frame are passed
/// over, and bytes that hold nothing else are no data.
pub open spec fn decode_spec(bytes: Seq<u8>) -> Result<PacketView, FrameDecodeError>
    decreases bytes.len(),
{
    if bytes.len() == 0 {
        Err(FrameDecodeError::NoData)
    } else if bytes[0] == 0 {
        decode_spec(bytes.drop_first())
    } else {
        decode_frame(bytes)
    }
}

/// How many bytes the zero padding and the first frame take together, where
/// there is a frame: the padding, the length byte, and as many bytes as the
/// length byte says.
pub open spec fn extent_spec(bytes: Seq<u8>) -> Option<int>
    decreases bytes.len(),
{
    if bytes.len() == 0 {
        None
    } else if bytes[0] == 0 {
        match extent_spec(bytes.drop_first()) {
            Some(n) => Some(n + 1),
            None => None,
        }
    } else {
        Some(1 + bytes[0] as int)
    }
}

/// Decoding passes over zero bytes at the front.
pub proof fn lemma_decode_skips_zeros(bytes: Seq<u8>, n: int)
    requires
        0 <= n <= bytes.len(),
        forall|j: int| 0 <= j < n ==> bytes[j] == 0,
    ensures
        decode_spec(bytes) == decode_spec(bytes.skip(n)),
        extent_spec(bytes) == match extent_spec(bytes.skip(n)) {
            Some(e) => Some(e + n),
            None => None,
        },
    decreases n,
{
    if n == 0 {
        assert(bytes.skip(0) =~= bytes);
    } else {
        lemma_decode_skips_zeros(bytes.drop_first(), n - 1);
        assert(bytes.drop_first().skip(n - 1) =~= bytes.skip(n));
    }
}

/// The index of the first byte that is not zero, or the length of `bytes`
/// where every byte is zero.
fn skip_zeros(bytes: &[u8]) -> (n: usize)
    ensures
        n <= bytes.len(),
        forall|j: int| 0 <= j < n ==> bytes@[j] == 0,
        n < bytes.len() ==> bytes@[n as int] != 0,
{
    let mut i: usize = 0;
    while i < bytes.len() && bytes[i] == 0
        invariant
            i <= bytes.len(),
            forall|j: int| 0 <= j < i ==> bytes@[j] == 0,
        decreases bytes.len() - i,
    {
        i += 1;
    }
    i
}

/// Decodes the first frame that `bytes` hold into a packet. Zero bytes in
/// front of the frame are passed over; the first byte that is not zero is
/// the length of the frame. Never reads past the end of `bytes`.
pub fn decode(bytes: &[u8]) -> (r: Result<ParsedPacket, FrameDecodeError>)
    ensures
        packet_result_view(r) == decode_spec(bytes@),
{
    let start = skip_zeros(bytes);
    proof {
        lemma_decode_skips_zeros(bytes@, start as int);
    }
    if start == bytes.len() {
        return Err(FrameDecodeError::NoData);
    }
    let len = bytes[start] as usize;
    let buffer = slice_subrange(bytes, start + 1, bytes.len());
    assert(buffer@ =~= bytes@.skip(start as int).skip(1));
    if len == MAX_LENGTH {
        return Err(FrameDecodeError::Unsupported);
    }
    if buffer.len() < len {
        return Err(FrameDecodeError::Malformed);
    }
    match lookup(buffer[0]) {
        Some(packet) => packet.parse(buffer, len),
        None => Err(FrameDecodeError::Unsupported),
    }
}

/// How many bytes of `bytes` the zero padding and the first frame take
/// together, or nothing where `bytes` hold no frame. The count may be more
/// than `bytes` hold, where the frame is cut short.
pub fn frame_extent(bytes: &[u8]) -> (r: Option<usize>)
    requires
        bytes.len() <= usize::MAX - 256,
    ensures
        r is Some <==> extent_spec(bytes@) is Some,
        r matches Some(n) ==> extent_spec(bytes@) == Some(n as int),
{
    let start = skip_zeros(bytes);
    proof {
        lemma_decode_skips_zeros(bytes@, start as int);
    }
    if start == bytes.len() {
        None
    } else {
        let len = bytes[start] as usize;
        Some(start + 1 + len)
    }
}

/// The number of zero bytes in front of the first byte that is not zero.
pub open spec fn padding_spec(bytes: Seq<u8>) -> int
    decreases bytes.len(),
{
    if bytes.len() == 0 || bytes[0] != 0 {
        0
    } else {
        1 + padding_spec(bytes.drop_first())
    }
}

/// Bytes that begin with `n` zero bytes, and go on with another byte or
/// end there, have a padding of `n`.
pub proof fn lemma_padding(bytes: Seq<u8>, n: int)
    requires
        0 <= n <= bytes.len(),
        forall|j: int| 0 <= j < n ==> bytes[j] == 0,
        n < bytes.len() ==> bytes[n] != 0,
    ensures
        padding_spec(bytes) == n,
    decreases n,
{
    if n > 0 {
        lemma_padding(bytes.drop_first(), n - 1);
    }
}

/// What to take from a connection, given the bytes that wait on it.
#[derive(Clone, Copy, Debug, PartialEq, Eq, Structural)]
pub enum Intake {
    /// Nothing waits.
    Nothing,
    /// Take this many bytes and drop them: they are zero padding.
    Skip(usize),
    /// Take this many bytes and decode them: they hold one frame, behind
    /// its padding.
    Frame(usize),
    /// Take nothing yet: the frame that begins is this many bytes long and
    /// has not come in full.
    Wait(usize),
}

/// What to take, given the bytes that wait. A whole frame is taken with
/// the padding in front of it. Of a frame that has not come in full, the
/// padding is taken first, so that the frame stands at the front when the
/// rest of it comes. Padding without a frame is taken.
pub open spec fn intake_spec(peeked: Seq<u8>) -> Intake {
    match extent_spec(peeked) {
        Some(extent) => if extent <= peeked.len() {
            Intake::Frame(extent as usize)
        } else if padding_spec(peeked) > 0 {
            Intake::Skip(padding_spec(peeked) as usize)
        } else {
            Intake::Wait(extent as usize)
        },
        None => if peeked.len() == 0 {
            Intake::Nothing
        } else {
            Intake::Skip(peeked.len() as usize)
        },
    }
}

/// What to take from a connection, given the bytes that wait on it.
pub fn intake(peeked: &[u8]) -> (r: Intake)
    requires
        peeked.len() <= usize::MAX - 256,
    ensures
        r == intake_spec(peeked@),
{
    let start = skip_zeros(peeked);
    proof {
        lemma_decode_skips_zeros(peeked@, start as int);
        lemma_padding(peeked@, start as int);
    }
    if start == peeked.len() {
        if start == 0 {
            Intake::Nothing
        } else {
            Intake::Skip(start)
        }
    } else {
        let extent = start + 1 + peeked[start] as usize;
        if extent <= peeked.len() {
            Intake::Frame(extent)
        } else if start > 0 {
            Intake::Skip(start)
        } else {
            Intake::Wait(extent)
        }
    }
}

} // verus!
