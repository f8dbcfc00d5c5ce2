//! The messages of protocol version 47 for the handshaking, status and
//! login states, and the first messages of the play state.
use crate::compose::{
    field_error, parse2_error, parse3_error, parse4_error,
    encoding2, encoding3, encoding4, lemma_round_trip2, lemma_round_trip3, lemma_round_trip4,
    parse2, parse3, parse4, read2, read3, read4, read_field, write2, write3, write4,
};
use crate::containers::VarIntPrefixedVec;
use crate::error::{Error, FormatError};
use crate::laws::lemma_var_int_round_trip;
use crate::packet::Packet;
use crate::reader::Reader;
use crate::types::{Angle, Codec, Decoder, Encoder, Position, VarInt};
use crate::wire::{parse_var_int, var_int_bytes};
use vstd::prelude::*;

verus! {

/// The state that a handshake asks the server to move to.
#[derive(Debug, Clone, Copy, PartialEq, Eq, Structural)]
pub enum HandshakeState {
    Status,
    Login,
}

impl HandshakeState {
    /// The discriminant written for each variant.
    pub open spec fn discriminant(self) -> i32 {
        match self {
            HandshakeState::Status => 1,
            HandshakeState::Login => 2,
        }
    }

    /// The variant of a discriminant, where one matches.
    pub open spec fn from_discriminant(d: i32) -> Option<HandshakeState> {
        if d == 1 {
            Some(HandshakeState::Status)
        } else if d == 2 {
            Some(HandshakeState::Login)
        } else {
            None
        }
    }

    /// Reads the discriminant as a VarInt and matches it against the
    /// variants; one that matches none is a format error naming the enum.
    pub fn read_variant(r: &mut Reader) -> (res: Result<HandshakeState, Error>)
        ensures
            match parse_var_int(old(r)@) {
                Ok((d, n)) => match HandshakeState::from_discriminant(d) {
                    Some(v) => res == Ok::<HandshakeState, Error>(v) && final(r)@ == old(r)@.skip(n as int),
                    None => res == Err::<HandshakeState, Error>(
                        Error::Format(FormatError::UnknownDiscriminant { name: "HandshakeState", value: d as i64 }),
                    ),
                },
                Err(_) => res == Err::<HandshakeState, Error>(
                    field_error("HandshakeState", "discriminant", <VarInt as Decoder>::parse_error(old(r)@)),
                ),
            },
    {
        let d = read_field::<VarInt>(r, "HandshakeState", "discriminant")?;
        if d.0 == 1 {
            Ok(HandshakeState::Status)
        } else if d.0 == 2 {
            Ok(HandshakeState::Login)
        } else {
            Err(Error::Format(FormatError::UnknownDiscriminant { name: "HandshakeState", value: d.0 as i64 }))
        }
    }
}

impl DeepView for HandshakeState {
    type V = HandshakeState;

    open spec fn deep_view(&self) -> HandshakeState {
        *self
    }
}

impl Encoder for HandshakeState {
    open spec fn encodable(v: HandshakeState) -> bool {
        true
    }

    /// The variant's discriminant as a VarInt.
    open spec fn encoding(v: HandshakeState) -> Seq<u8> {
        var_int_bytes(v.discriminant())
    }

    fn write_to(&self, w: &mut Vec<u8>) -> (r: Result<(), Error>) {
        let d: i32 = match self {
            HandshakeState::Status => 1,
            HandshakeState::Login => 2,
        };
        VarInt(d).write_to(w)
    }
}

impl Decoder for HandshakeState {
    open spec fn parse(b: Seq<u8>) -> Option<(HandshakeState, nat)> {
        match parse_var_int(b) {
            Ok((d, n)) => match HandshakeState::from_discriminant(d) {
                Some(v) => Some((v, n)),
                None => None,
            },
            Err(_) => None,
        }
    }

    /// The discriminant's error, or an unknown discriminant naming the enum.
    open spec fn parse_error(b: Seq<u8>) -> Error {
        match parse_var_int(b) {
            Err(_) => field_error("HandshakeState", "discriminant", <VarInt as Decoder>::parse_error(b)),
            Ok((d, _)) => Error::Format(FormatError::UnknownDiscriminant { name: "HandshakeState", value: d as i64 }),
        }
    }

    fn read_from(r: &mut Reader) -> (res: Result<HandshakeState, Error>) {
        proof {
            crate::raw::lemma_var_end_bound(r@, 0, 5);
        }
        HandshakeState::read_variant(r)
    }
}

impl Codec for HandshakeState {
    open spec fn wire_valid(v: HandshakeState) -> bool {
        true
    }

    proof fn lemma_round_trip(v: HandshakeState, rest: Seq<u8>) {
        lemma_var_int_round_trip(v.discriminant(), rest);
    }
}

/// A discriminant that matches no variant is refused, whatever follows it.
pub proof fn lemma_handshake_state_unknown(d: i32, rest: Seq<u8>)
    requires
        d != 1 && d != 2,
    ensures
        HandshakeState::parse(var_int_bytes(d) + rest) is None,
        parse_var_int(var_int_bytes(d) + rest) matches Ok((e, _)) && e == d,
{
    lemma_var_int_round_trip(d, rest);
}

/// Serverbound, handshaking: opens a connection and names the next state.
#[derive(Debug)]
pub struct Handshake {
    pub protocol_version: i32,
    pub server_address: String,
    pub server_port: u16,
    pub next_state: HandshakeState,
}

impl DeepView for Handshake {
    type V = (i32, Seq<char>, u16, HandshakeState);

    open spec fn deep_view(&self) -> (i32, Seq<char>, u16, HandshakeState) {
        (self.protocol_version, self.server_address.deep_view(), self.server_port.deep_view(), self.next_state.deep_view())
    }
}

impl Encoder for Handshake {
    open spec fn encodable(v: (i32, Seq<char>, u16, HandshakeState)) -> bool {
        <VarInt as Encoder>::encodable(v.0) && <String as Encoder>::encodable(v.1) && <u16 as Encoder>::encodable(v.2) && <HandshakeState as Encoder>::encodable(v.3)
    }

    open spec fn encoding(v: (i32, Seq<char>, u16, HandshakeState)) -> Seq<u8> {
        encoding4::<VarInt, String, u16, HandshakeState>(v.0, v.1, v.2, v.3)
    }

    fn write_to(&self, w: &mut Vec<u8>) -> (r: Result<(), Error>) {
        write4(w, &VarInt(self.protocol_version), &self.server_address, &self.server_port, &self.next_state)
    }
}

impl Decoder for Handshake {
    open spec fn parse(b: Seq<u8>) -> Option<((i32, Seq<char>, u16, HandshakeState), nat)> {
        match parse4::<VarInt, String, u16, HandshakeState>(b) {
            Some((a, b, c, d, k)) => Some(((a, b, c, d), k)),
            None => None,
        }
    }

    open spec fn parse_error(b: Seq<u8>) -> Error {
        parse4_error::<VarInt, String, u16, HandshakeState>(b, "Handshake", "protocol_version", "server_address", "server_port", "next_state")
    }

    fn read_from(r: &mut Reader) -> (res: Result<Handshake, Error>) {
        let (a, b, c, d) = read4::<VarInt, String, u16, HandshakeState>(r, "Handshake", "protocol_version", "server_address", "server_port", "next_state")?;
        Ok(Handshake { protocol_version: a.0, server_address: b, server_port: c, next_state: d })
    }
}

impl Codec for Handshake {
    open spec fn wire_valid(v: (i32, Seq<char>, u16, HandshakeState)) -> bool {
        <VarInt as Codec>::wire_valid(v.0) && <String as Codec>::wire_valid(v.1) && <u16 as Codec>::wire_valid(v.2) && <HandshakeState as Codec>::wire_valid(v.3)
    }

    proof fn lemma_round_trip(v: (i32, Seq<char>, u16, HandshakeState), rest: Seq<u8>) {
        lemma_round_trip4::<VarInt, String, u16, HandshakeState>(v.0, v.1, v.2, v.3, rest);
    }
}

impl Packet for Handshake {
    open spec fn packet_id() -> i32 {
        0x00
    }

    fn id() -> (r: VarInt) {
        VarInt(0x00)
    }
}

/// Serverbound, status: asks for the server's status.
#[derive(Debug)]
pub struct Request {
}

impl DeepView for Request {
    type V = ();

    open spec fn deep_view(&self) -> () {
        ()
    }
}

impl Encoder for Request {
    open spec fn encodable(v: ()) -> bool {
        true
    }

    open spec fn encoding(v: ()) -> Seq<u8> {
        Seq::empty()
    }

    fn write_to(&self, w: &mut Vec<u8>) -> (r: Result<(), Error>) {
        assert(w@ =~= old(w)@ + Seq::<u8>::empty());
        Ok(())
    }
}

impl Decoder for Request {
    open spec fn parse(b: Seq<u8>) -> Option<((), nat)> {
        Some(((), 0))
    }

    open spec fn parse_error(b: Seq<u8>) -> Error {
        Error::UnexpectedEof
    }

    fn read_from(r: &mut Reader) -> (res: Result<Request, Error>) {
        assert(r@ =~= r@.skip(0));
        Ok(Request {})
    }
}

impl Codec for Request {
    open spec fn wire_valid(v: ()) -> bool {
        true
    }

    proof fn lemma_round_trip(v: (), rest: Seq<u8>) {
        
    }
}

impl Packet for Request {
    open spec fn packet_id() -> i32 {
        0x00
    }

    fn id() -> (r: VarInt) {
        VarInt(0x00)
    }
}

/// Serverbound, status: a value for the server to echo.
#[derive(Debug)]
pub struct Ping {
    pub payload: i64,
}

impl DeepView for Ping {
    type V = i64;

    open spec fn deep_view(&self) -> i64 {
        self.payload.deep_view()
    }
}

impl Encoder for Ping {
    open spec fn encodable(v: i64) -> bool {
        <i64 as Encoder>::encodable(v)
    }

    open spec fn encoding(v: i64) -> Seq<u8> {
        <i64 as Encoder>::encoding(v)
    }

    fn write_to(&self, w: &mut Vec<u8>) -> (r: Result<(), Error>) {
        (&self.payload).write_to(w)
    }
}

impl Decoder for Ping {
    open spec fn parse(b: Seq<u8>) -> Option<(i64, nat)> {
        <i64 as Decoder>::parse(b)
    }

    open spec fn parse_error(b: Seq<u8>) -> Error {
        field_error("Ping", "payload", <i64 as Decoder>::parse_error(b))
    }

    fn read_from(r: &mut Reader) -> (res: Result<Ping, Error>) {
        let a = read_field::<i64>(r, "Ping", "payload")?;
        Ok(Ping { payload: a })
    }
}

impl Codec for Ping {
    open spec fn wire_valid(v: i64) -> bool {
        <i64 as Codec>::wire_valid(v)
    }

    proof fn lemma_round_trip(v: i64, rest: Seq<u8>) {
        <i64 as Codec>::lemma_round_trip(v, rest);
    }
}

impl Packet for Ping {
    open spec fn packet_id() -> i32 {
        0x01
    }

    fn id() -> (r: VarInt) {
        VarInt(0x01)
    }
}

/// Clientbound, status: the server's status as JSON text.
#[derive(Debug)]
pub struct Response {
    pub response: String,
}

impl DeepView for Response {
    type V = Seq<char>;

    open spec fn deep_view(&self) -> Seq<char> {
        self.response.deep_view()
    }
}

impl Encoder for Response {
    open spec fn encodable(v: Seq<char>) -> bool {
        <String as Encoder>::encodable(v)
    }

    open spec fn encoding(v: Seq<char>) -> Seq<u8> {
        <String as Encoder>::encoding(v)
    }

    fn write_to(&self, w: &mut Vec<u8>) -> (r: Result<(), Error>) {
        (&self.response).write_to(w)
    }
}

impl Decoder for Response {
    open spec fn parse(b: Seq<u8>) -> Option<(Seq<char>, nat)> {
        <String as Decoder>::parse(b)
    }

    open spec fn parse_error(b: Seq<u8>) -> Error {
        field_error("Response", "response", <String as Decoder>::parse_error(b))
    }

    fn read_from(r: &mut Reader) -> (res: Result<Response, Error>) {
        let a = read_field::<String>(r, "Response", "response")?;
        Ok(Response { response: a })
    }
}

impl Codec for Response {
    open spec fn wire_valid(v: Seq<char>) -> bool {
        <String as Codec>::wire_valid(v)
    }

    proof fn lemma_round_trip(v: Seq<char>, rest: Seq<u8>) {
        <String as Codec>::lemma_round_trip(v, rest);
    }
}

impl Packet for Response {
    open spec fn packet_id() -> i32 {
        0x00
    }

    fn id() -> (r: VarInt) {
        VarInt(0x00)
    }
}

/// Clientbound, status: the echoed ping value.
#[derive(Debug)]
pub struct Pong {
    pub payload: i64,
}

impl DeepView for Pong {
    type V = i64;

    open spec fn deep_view(&self) -> i64 {
        self.payload.deep_view()
    }
}

impl Encoder for Pong {
    open spec fn encodable(v: i64) -> bool {
        <i64 as Encoder>::encodable(v)
    }

    open spec fn encoding(v: i64) -> Seq<u8> {
        <i64 as Encoder>::encoding(v)
    }

    fn write_to(&self, w: &mut Vec<u8>) -> (r: Result<(), Error>) {
        (&self.payload).write_to(w)
    }
}

impl Decoder for Pong {
    open spec fn parse(b: Seq<u8>) -> Option<(i64, nat)> {
        <i64 as Decoder>::parse(b)
    }

    open spec fn parse_error(b: Seq<u8>) -> Error {
        field_error("Pong", "payload", <i64 as Decoder>::parse_error(b))
    }

    fn read_from(r: &mut Reader) -> (res: Result<Pong, Error>) {
        let a = read_field::<i64>(r, "Pong", "payload")?;
        Ok(Pong { payload: a })
    }
}

impl Codec for Pong {
    open spec fn wire_valid(v: i64) -> bool {
        <i64 as Codec>::wire_valid(v)
    }

    proof fn lemma_round_trip(v: i64, rest: Seq<u8>) {
        <i64 as Codec>::lemma_round_trip(v, rest);
    }
}

impl Packet for Pong {
    open spec fn packet_id() -> i32 {
        0x01
    }

    fn id() -> (r: VarInt) {
        VarInt(0x01)
    }
}

/// Clientbound, login: the reason the server closes the connection.
#[derive(Debug)]
pub struct Disconnect {
    pub reason: String,
}

impl DeepView for Disconnect {
    type V = Seq<char>;

    open spec fn deep_view(&self) -> Seq<char> {
        self.reason.deep_view()
    }
}

impl Encoder for Disconnect {
    open spec fn encodable(v: Seq<char>) -> bool {
        <String as Encoder>::encodable(v)
    }

    open spec fn encoding(v: Seq<char>) -> Seq<u8> {
        <String as Encoder>::encoding(v)
    }

    fn write_to(&self, w: &mut Vec<u8>) -> (r: Result<(), Error>) {
        (&self.reason).write_to(w)
    }
}

impl Decoder for Disconnect {
    open spec fn parse(b: Seq<u8>) -> Option<(Seq<char>, nat)> {
        <String as Decoder>::parse(b)
    }

    open spec fn parse_error(b: Seq<u8>) -> Error {
        field_error("Disconnect", "reason", <String as Decoder>::parse_error(b))
    }

    fn read_from(r: &mut Reader) -> (res: Result<Disconnect, Error>) {
        let a = read_field::<String>(r, "Disconnect", "reason")?;
        Ok(Disconnect { reason: a })
    }
}

impl Codec for Disconnect {
    open spec fn wire_valid(v: Seq<char>) -> bool {
        <String as Codec>::wire_valid(v)
    }

    proof fn lemma_round_trip(v: Seq<char>, rest: Seq<u8>) {
        <String as Codec>::lemma_round_trip(v, rest);
    }
}

impl Packet for Disconnect {
    open spec fn packet_id() -> i32 {
        0x00
    }

    fn id() -> (r: VarInt) {
        VarInt(0x00)
    }
}

/// Clientbound, login: the server's public key and a token to verify.
#[derive(Debug)]
pub struct EncryptionRequest {
    pub server_id: String,
    pub public_key: VarIntPrefixedVec<u8>,
    pub verify_token: VarIntPrefixedVec<u8>,
}

impl DeepView for EncryptionRequest {
    type V = (Seq<char>, Seq<u8>, Seq<u8>);

    open spec fn deep_view(&self) -> (Seq<char>, Seq<u8>, Seq<u8>) {
        (self.server_id.deep_view(), self.public_key.deep_view(), self.verify_token.deep_view())
    }
}

impl Encoder for EncryptionRequest {
    open spec fn encodable(v: (Seq<char>, Seq<u8>, Seq<u8>)) -> bool {
        <String as Encoder>::encodable(v.0) && <VarIntPrefixedVec<u8> as Encoder>::encodable(v.1) && <VarIntPrefixedVec<u8> as Encoder>::encodable(v.2)
    }

    open spec fn encoding(v: (Seq<char>, Seq<u8>, Seq<u8>)) -> Seq<u8> {
        encoding3::<String, VarIntPrefixedVec<u8>, VarIntPrefixedVec<u8>>(v.0, v.1, v.2)
    }

    fn write_to(&self, w: &mut Vec<u8>) -> (r: Result<(), Error>) {
        write3(w, &self.server_id, &self.public_key, &self.verify_token)
    }
}

impl Decoder for EncryptionRequest {
    open spec fn parse(b: Seq<u8>) -> Option<((Seq<char>, Seq<u8>, Seq<u8>), nat)> {
        match parse3::<String, VarIntPrefixedVec<u8>, VarIntPrefixedVec<u8>>(b) {
            Some((a, b, c, k)) => Some(((a, b, c), k)),
            None => None,
        }
    }

    open spec fn parse_error(b: Seq<u8>) -> Error {
        parse3_error::<String, VarIntPrefixedVec<u8>, VarIntPrefixedVec<u8>>(b, "EncryptionRequest", "server_id", "public_key", "verify_token")
    }

    fn read_from(r: &mut Reader) -> (res: Result<EncryptionRequest, Error>) {
        let (a, b, c) = read3::<String, VarIntPrefixedVec<u8>, VarIntPrefixedVec<u8>>(r, "EncryptionRequest", "server_id", "public_key", "verify_token")?;
        Ok(EncryptionRequest { server_id: a, public_key: b, verify_token: c })
    }
}

impl Codec for EncryptionRequest {
    open spec fn wire_valid(v: (Seq<char>, Seq<u8>, Seq<u8>)) -> bool {
        <String as Codec>::wire_valid(v.0) && <VarIntPrefixedVec<u8> as Codec>::wire_valid(v.1) && <VarIntPrefixedVec<u8> as Codec>::wire_valid(v.2)
    }

    proof fn lemma_round_trip(v: (Seq<char>, Seq<u8>, Seq<u8>), rest: Seq<u8>) {
        lemma_round_trip3::<String, VarIntPrefixedVec<u8>, VarIntPrefixedVec<u8>>(v.0, v.1, v.2, rest);
    }
}

impl Packet for EncryptionRequest {
    open spec fn packet_id() -> i32 {
        0x01
    }

    fn id() -> (r: VarInt) {
        VarInt(0x01)
    }
}

/// Clientbound, login: the player's UUID and name.
#[derive(Debug)]
pub struct LoginSuccess {
    pub uuid: String,
    pub username: String,
}

impl DeepView for LoginSuccess {
    type V = (Seq<char>, Seq<char>);

    open spec fn deep_view(&self) -> (Seq<char>, Seq<char>) {
        (self.uuid.deep_view(), self.username.deep_view())
    }
}

impl Encoder for LoginSuccess {
    open spec fn encodable(v: (Seq<char>, Seq<char>)) -> bool {
        <String as Encoder>::encodable(v.0) && <String as Encoder>::encodable(v.1)
    }

    open spec fn encoding(v: (Seq<char>, Seq<char>)) -> Seq<u8> {
        encoding2::<String, String>(v.0, v.1)
    }

    fn write_to(&self, w: &mut Vec<u8>) -> (r: Result<(), Error>) {
        write2(w, &self.uuid, &self.username)
    }
}

impl Decoder for LoginSuccess {
    open spec fn parse(b: Seq<u8>) -> Option<((Seq<char>, Seq<char>), nat)> {
        match parse2::<String, String>(b) {
            Some((a, b, k)) => Some(((a, b), k)),
            None => None,
        }
    }

    open spec fn parse_error(b: Seq<u8>) -> Error {
        parse2_error::<String, String>(b, "LoginSuccess", "uuid", "username")
    }

    fn read_from(r: &mut Reader) -> (res: Result<LoginSuccess, Error>) {
        let (a, b) = read2::<String, String>(r, "LoginSuccess", "uuid", "username")?;
        Ok(LoginSuccess { uuid: a, username: b })
    }
}

impl Codec for LoginSuccess {
    open spec fn wire_valid(v: (Seq<char>, Seq<char>)) -> bool {
        <String as Codec>::wire_valid(v.0) && <String as Codec>::wire_valid(v.1)
    }

    proof fn lemma_round_trip(v: (Seq<char>, Seq<char>), rest: Seq<u8>) {
        lemma_round_trip2::<String, String>(v.0, v.1, rest);
    }
}

impl Packet for LoginSuccess {
    open spec fn packet_id() -> i32 {
        0x02
    }

    fn id() -> (r: VarInt) {
        VarInt(0x02)
    }
}

/// Clientbound, login: the compression threshold from now on.
#[derive(Debug)]
pub struct SetCompression {
    pub threshold: i32,
}

impl DeepView for SetCompression {
    type V = i32;

    open spec fn deep_view(&self) -> i32 {
        self.threshold
    }
}

impl Encoder for SetCompression {
    open spec fn encodable(v: i32) -> bool {
        <VarInt as Encoder>::encodable(v)
    }

    open spec fn encoding(v: i32) -> Seq<u8> {
        <VarInt as Encoder>::encoding(v)
    }

    fn write_to(&self, w: &mut Vec<u8>) -> (r: Result<(), Error>) {
        (&VarInt(self.threshold)).write_to(w)
    }
}

impl Decoder for SetCompression {
    open spec fn parse(b: Seq<u8>) -> Option<(i32, nat)> {
        <VarInt as Decoder>::parse(b)
    }

    open spec fn parse_error(b: Seq<u8>) -> Error {
        field_error("SetCompression", "threshold", <VarInt as Decoder>::parse_error(b))
    }

    fn read_from(r: &mut Reader) -> (res: Result<SetCompression, Error>) {
        let a = read_field::<VarInt>(r, "SetCompression", "threshold")?;
        Ok(SetCompression { threshold: a.0 })
    }
}

impl Codec for SetCompression {
    open spec fn wire_valid(v: i32) -> bool {
        <VarInt as Codec>::wire_valid(v)
    }

    proof fn lemma_round_trip(v: i32, rest: Seq<u8>) {
        <VarInt as Codec>::lemma_round_trip(v, rest);
    }
}

impl Packet for SetCompression {
    open spec fn packet_id() -> i32 {
        0x03
    }

    fn id() -> (r: VarInt) {
        VarInt(0x03)
    }
}

/// Serverbound, login: the player's name.
#[derive(Debug)]
pub struct LoginStart {
    pub name: String,
}

impl DeepView for LoginStart {
    type V = Seq<char>;

    open spec fn deep_view(&self) -> Seq<char> {
        self.name.deep_view()
    }
}

impl Encoder for LoginStart {
    open spec fn encodable(v: Seq<char>) -> bool {
        <String as Encoder>::encodable(v)
    }

    open spec fn encoding(v: Seq<char>) -> Seq<u8> {
        <String as Encoder>::encoding(v)
    }

    fn write_to(&self, w: &mut Vec<u8>) -> (r: Result<(), Error>) {
        (&self.name).write_to(w)
    }
}

impl Decoder for LoginStart {
    open spec fn parse(b: Seq<u8>) -> Option<(Seq<char>, nat)> {
        <String as Decoder>::parse(b)
    }

    open spec fn parse_error(b: Seq<u8>) -> Error {
        field_error("LoginStart", "name", <String as Decoder>::parse_error(b))
    }

    fn read_from(r: &mut Reader) -> (res: Result<LoginStart, Error>) {
        let a = read_field::<String>(r, "LoginStart", "name")?;
        Ok(LoginStart { name: a })
    }
}

impl Codec for LoginStart {
    open spec fn wire_valid(v: Seq<char>) -> bool {
        <String as Codec>::wire_valid(v)
    }

    proof fn lemma_round_trip(v: Seq<char>, rest: Seq<u8>) {
        <String as Codec>::lemma_round_trip(v, rest);
    }
}

impl Packet for LoginStart {
    open spec fn packet_id() -> i32 {
        0x00
    }

    fn id() -> (r: VarInt) {
        VarInt(0x00)
    }
}

/// Serverbound, login: the encrypted shared secret and token.
#[derive(Debug)]
pub struct EncryptionResponse {
    pub shared_secret: VarIntPrefixedVec<u8>,
    pub verify_token: VarIntPrefixedVec<u8>,
}

impl DeepView for EncryptionResponse {
    type V = (Seq<u8>, Seq<u8>);

    open spec fn deep_view(&self) -> (Seq<u8>, Seq<u8>) {
        (self.shared_secret.deep_view(), self.verify_token.deep_view())
    }
}

impl Encoder for EncryptionResponse {
    open spec fn encodable(v: (Seq<u8>, Seq<u8>)) -> bool {
        <VarIntPrefixedVec<u8> as Encoder>::encodable(v.0) && <VarIntPrefixedVec<u8> as Encoder>::encodable(v.1)
    }

    open spec fn encoding(v: (Seq<u8>, Seq<u8>)) -> Seq<u8> {
        encoding2::<VarIntPrefixedVec<u8>, VarIntPrefixedVec<u8>>(v.0, v.1)
    }

    fn write_to(&self, w: &mut Vec<u8>) -> (r: Result<(), Error>) {
        write2(w, &self.shared_secret, &self.verify_token)
    }
}

impl Decoder for EncryptionResponse {
    open spec fn parse(b: Seq<u8>) -> Option<((Seq<u8>, Seq<u8>), nat)> {
        match parse2::<VarIntPrefixedVec<u8>, VarIntPrefixedVec<u8>>(b) {
            Some((a, b, k)) => Some(((a, b), k)),
            None => None,
        }
    }

    open spec fn parse_error(b: Seq<u8>) -> Error {
        parse2_error::<VarIntPrefixedVec<u8>, VarIntPrefixedVec<u8>>(b, "EncryptionResponse", "shared_secret", "verify_token")
    }

    fn read_from(r: &mut Reader) -> (res: Result<EncryptionResponse, Error>) {
        let (a, b) = read2::<VarIntPrefixedVec<u8>, VarIntPrefixedVec<u8>>(r, "EncryptionResponse", "shared_secret", "verify_token")?;
        Ok(EncryptionResponse { shared_secret: a, verify_token: b })
    }
}

impl Codec for EncryptionResponse {
    open spec fn wire_valid(v: (Seq<u8>, Seq<u8>)) -> bool {
        <VarIntPrefixedVec<u8> as Codec>::wire_valid(v.0) && <VarIntPrefixedVec<u8> as Codec>::wire_valid(v.1)
    }

    proof fn lemma_round_trip(v: (Seq<u8>, Seq<u8>), rest: Seq<u8>) {
        lemma_round_trip2::<VarIntPrefixedVec<u8>, VarIntPrefixedVec<u8>>(v.0, v.1, rest);
    }
}

impl Packet for EncryptionResponse {
    open spec fn packet_id() -> i32 {
        0x01
    }

    fn id() -> (r: VarInt) {
        VarInt(0x01)
    }
}

/// Clientbound, play: a value the client must send back.
#[derive(Debug)]
pub struct KeepAlive {
    pub id: i32,
}

impl DeepView for KeepAlive {
    type V = i32;

    open spec fn deep_view(&self) -> i32 {
        self.id
    }
}

impl Encoder for KeepAlive {
    open spec fn encodable(v: i32) -> bool {
        <VarInt as Encoder>::encodable(v)
    }

    open spec fn encoding(v: i32) -> Seq<u8> {
        <VarInt as Encoder>::encoding(v)
    }

    fn write_to(&self, w: &mut Vec<u8>) -> (r: Result<(), Error>) {
        (&VarInt(self.id)).write_to(w)
    }
}

impl Decoder for KeepAlive {
    open spec fn parse(b: Seq<u8>) -> Option<(i32, nat)> {
        <VarInt as Decoder>::parse(b)
    }

    open spec fn parse_error(b: Seq<u8>) -> Error {
        field_error("KeepAlive", "id", <VarInt as Decoder>::parse_error(b))
    }

    fn read_from(r: &mut Reader) -> (res: Result<KeepAlive, Error>) {
        let a = read_field::<VarInt>(r, "KeepAlive", "id")?;
        Ok(KeepAlive { id: a.0 })
    }
}

impl Codec for KeepAlive {
    open spec fn wire_valid(v: i32) -> bool {
        <VarInt as Codec>::wire_valid(v)
    }

    proof fn lemma_round_trip(v: i32, rest: Seq<u8>) {
        <VarInt as Codec>::lemma_round_trip(v, rest);
    }
}

impl Packet for KeepAlive {
    open spec fn packet_id() -> i32 {
        0x00
    }

    fn id() -> (r: VarInt) {
        VarInt(0x00)
    }
}

/// Clientbound, play: the world's age and time of day.
#[derive(Debug)]
pub struct TimeUpdate {
    pub world_age: i64,
    pub time_of_day: i64,
}

impl DeepView for TimeUpdate {
    type V = (i64, i64);

    open spec fn deep_view(&self) -> (i64, i64) {
        (self.world_age.deep_view(), self.time_of_day.deep_view())
    }
}

impl Encoder for TimeUpdate {
    open spec fn encodable(v: (i64, i64)) -> bool {
        <i64 as Encoder>::encodable(v.0) && <i64 as Encoder>::encodable(v.1)
    }

    open spec fn encoding(v: (i64, i64)) -> Seq<u8> {
        encoding2::<i64, i64>(v.0, v.1)
    }

    fn write_to(&self, w: &mut Vec<u8>) -> (r: Result<(), Error>) {
        write2(w, &self.world_age, &self.time_of_day)
    }
}

impl Decoder for TimeUpdate {
    open spec fn parse(b: Seq<u8>) -> Option<((i64, i64), nat)> {
        match parse2::<i64, i64>(b) {
            Some((a, b, k)) => Some(((a, b), k)),
            None => None,
        }
    }

    open spec fn parse_error(b: Seq<u8>) -> Error {
        parse2_error::<i64, i64>(b, "TimeUpdate", "world_age", "time_of_day")
    }

    fn read_from(r: &mut Reader) -> (res: Result<TimeUpdate, Error>) {
        let (a, b) = read2::<i64, i64>(r, "TimeUpdate", "world_age", "time_of_day")?;
        Ok(TimeUpdate { world_age: a, time_of_day: b })
    }
}

impl Codec for TimeUpdate {
    open spec fn wire_valid(v: (i64, i64)) -> bool {
        <i64 as Codec>::wire_valid(v.0) && <i64 as Codec>::wire_valid(v.1)
    }

    proof fn lemma_round_trip(v: (i64, i64), rest: Seq<u8>) {
        lemma_round_trip2::<i64, i64>(v.0, v.1, rest);
    }
}

impl Packet for TimeUpdate {
    open spec fn packet_id() -> i32 {
        0x03
    }

    fn id() -> (r: VarInt) {
        VarInt(0x03)
    }
}

/// Clientbound, play: where the compass points.
#[derive(Debug)]
pub struct SpawnPosition {
    pub position: Position,
}

impl DeepView for SpawnPosition {
    type V = (i32, i32, i32);

    open spec fn deep_view(&self) -> (i32, i32, i32) {
        self.position.deep_view()
    }
}

impl Encoder for SpawnPosition {
    open spec fn encodable(v: (i32, i32, i32)) -> bool {
        <Position as Encoder>::encodable(v)
    }

    open spec fn encoding(v: (i32, i32, i32)) -> Seq<u8> {
        <Position as Encoder>::encoding(v)
    }

    fn write_to(&self, w: &mut Vec<u8>) -> (r: Result<(), Error>) {
        (&self.position).write_to(w)
    }
}

impl Decoder for SpawnPosition {
    open spec fn parse(b: Seq<u8>) -> Option<((i32, i32, i32), nat)> {
        <Position as Decoder>::parse(b)
    }

    open spec fn parse_error(b: Seq<u8>) -> Error {
        field_error("SpawnPosition", "position", <Position as Decoder>::parse_error(b))
    }

    fn read_from(r: &mut Reader) -> (res: Result<SpawnPosition, Error>) {
        let a = read_field::<Position>(r, "SpawnPosition", "position")?;
        Ok(SpawnPosition { position: a })
    }
}

impl Codec for SpawnPosition {
    open spec fn wire_valid(v: (i32, i32, i32)) -> bool {
        <Position as Codec>::wire_valid(v)
    }

    proof fn lemma_round_trip(v: (i32, i32, i32), rest: Seq<u8>) {
        <Position as Codec>::lemma_round_trip(v, rest);
    }
}

impl Packet for SpawnPosition {
    open spec fn packet_id() -> i32 {
        0x05
    }

    fn id() -> (r: VarInt) {
        VarInt(0x05)
    }
}

/// Clientbound, play: the hotbar slot selected.
#[derive(Debug)]
pub struct HeldItemChange {
    pub slot: i8,
}

impl DeepView for HeldItemChange {
    type V = i8;

    open spec fn deep_view(&self) -> i8 {
        self.slot.deep_view()
    }
}

impl Encoder for HeldItemChange {
    open spec fn encodable(v: i8) -> bool {
        <i8 as Encoder>::encodable(v)
    }

    open spec fn encoding(v: i8) -> Seq<u8> {
        <i8 as Encoder>::encoding(v)
    }

    fn write_to(&self, w: &mut Vec<u8>) -> (r: Result<(), Error>) {
        (&self.slot).write_to(w)
    }
}

impl Decoder for HeldItemChange {
    open spec fn parse(b: Seq<u8>) -> Option<(i8, nat)> {
        <i8 as Decoder>::parse(b)
    }

    open spec fn parse_error(b: Seq<u8>) -> Error {
        field_error("HeldItemChange", "slot", <i8 as Decoder>::parse_error(b))
    }

    fn read_from(r: &mut Reader) -> (res: Result<HeldItemChange, Error>) {
        let a = read_field::<i8>(r, "HeldItemChange", "slot")?;
        Ok(HeldItemChange { slot: a })
    }
}

impl Codec for HeldItemChange {
    open spec fn wire_valid(v: i8) -> bool {
        <i8 as Codec>::wire_valid(v)
    }

    proof fn lemma_round_trip(v: i8, rest: Seq<u8>) {
        <i8 as Codec>::lemma_round_trip(v, rest);
    }
}

impl Packet for HeldItemChange {
    open spec fn packet_id() -> i32 {
        0x09
    }

    fn id() -> (r: VarInt) {
        VarInt(0x09)
    }
}

/// Clientbound, play: an entity goes to bed.
#[derive(Debug)]
pub struct UseBed {
    pub eid: i32,
    pub location: Position,
}

impl DeepView for UseBed {
    type V = (i32, (i32, i32, i32));

    open spec fn deep_view(&self) -> (i32, (i32, i32, i32)) {
        (self.eid, self.location.deep_view())
    }
}

impl Encoder for UseBed {
    open spec fn encodable(v: (i32, (i32, i32, i32))) -> bool {
        <VarInt as Encoder>::encodable(v.0) && <Position as Encoder>::encodable(v.1)
    }

    open spec fn encoding(v: (i32, (i32, i32, i32))) -> Seq<u8> {
        encoding2::<VarInt, Position>(v.0, v.1)
    }

    fn write_to(&self, w: &mut Vec<u8>) -> (r: Result<(), Error>) {
        write2(w, &VarInt(self.eid), &self.location)
    }
}

impl Decoder for UseBed {
    open spec fn parse(b: Seq<u8>) -> Option<((i32, (i32, i32, i32)), nat)> {
        match parse2::<VarInt, Position>(b) {
            Some((a, b, k)) => Some(((a, b), k)),
            None => None,
        }
    }

    open spec fn parse_error(b: Seq<u8>) -> Error {
        parse2_error::<VarInt, Position>(b, "UseBed", "eid", "location")
    }

    fn read_from(r: &mut Reader) -> (res: Result<UseBed, Error>) {
        let (a, b) = read2::<VarInt, Position>(r, "UseBed", "eid", "location")?;
        Ok(UseBed { eid: a.0, location: b })
    }
}

impl Codec for UseBed {
    open spec fn wire_valid(v: (i32, (i32, i32, i32))) -> bool {
        <VarInt as Codec>::wire_valid(v.0) && <Position as Codec>::wire_valid(v.1)
    }

    proof fn lemma_round_trip(v: (i32, (i32, i32, i32)), rest: Seq<u8>) {
        lemma_round_trip2::<VarInt, Position>(v.0, v.1, rest);
    }
}

impl Packet for UseBed {
    open spec fn packet_id() -> i32 {
        0x0A
    }

    fn id() -> (r: VarInt) {
        VarInt(0x0A)
    }
}

/// Clientbound, play: an entity picks up an item.
#[derive(Debug)]
pub struct CollectItem {
    pub collected_eid: i32,
    pub collector_eid: i32,
}

impl DeepView for CollectItem {
    type V = (i32, i32);

    open spec fn deep_view(&self) -> (i32, i32) {
        (self.collected_eid, self.collector_eid)
    }
}

impl Encoder for CollectItem {
    open spec fn encodable(v: (i32, i32)) -> bool {
        <VarInt as Encoder>::encodable(v.0) && <VarInt as Encoder>::encodable(v.1)
    }

    open spec fn encoding(v: (i32, i32)) -> Seq<u8> {
        encoding2::<VarInt, VarInt>(v.0, v.1)
    }

    fn write_to(&self, w: &mut Vec<u8>) -> (r: Result<(), Error>) {
        write2(w, &VarInt(self.collected_eid), &VarInt(self.collector_eid))
    }
}

impl Decoder for CollectItem {
    open spec fn parse(b: Seq<u8>) -> Option<((i32, i32), nat)> {
        match parse2::<VarInt, VarInt>(b) {
            Some((a, b, k)) => Some(((a, b), k)),
            None => None,
        }
    }

    open spec fn parse_error(b: Seq<u8>) -> Error {
        parse2_error::<VarInt, VarInt>(b, "CollectItem", "collected_eid", "collector_eid")
    }

    fn read_from(r: &mut Reader) -> (res: Result<CollectItem, Error>) {
        let (a, b) = read2::<VarInt, VarInt>(r, "CollectItem", "collected_eid", "collector_eid")?;
        Ok(CollectItem { collected_eid: a.0, collector_eid: b.0 })
    }
}

impl Codec for CollectItem {
    open spec fn wire_valid(v: (i32, i32)) -> bool {
        <VarInt as Codec>::wire_valid(v.0) && <VarInt as Codec>::wire_valid(v.1)
    }

    proof fn lemma_round_trip(v: (i32, i32), rest: Seq<u8>) {
        lemma_round_trip2::<VarInt, VarInt>(v.0, v.1, rest);
    }
}

impl Packet for CollectItem {
    open spec fn packet_id() -> i32 {
        0x0D
    }

    fn id() -> (r: VarInt) {
        VarInt(0x0D)
    }
}

/// Clientbound, play: an entity that did not move.
#[derive(Debug)]
pub struct Entity {
    pub eid: i32,
}

impl DeepView for Entity {
    type V = i32;

    open spec fn deep_view(&self) -> i32 {
        self.eid
    }
}

impl Encoder for Entity {
    open spec fn encodable(v: i32) -> bool {
        <VarInt as Encoder>::encodable(v)
    }

    open spec fn encoding(v: i32) -> Seq<u8> {
        <VarInt as Encoder>::encoding(v)
    }

    fn write_to(&self, w: &mut Vec<u8>) -> (r: Result<(), Error>) {
        (&VarInt(self.eid)).write_to(w)
    }
}

impl Decoder for Entity {
    open spec fn parse(b: Seq<u8>) -> Option<(i32, nat)> {
        <VarInt as Decoder>::parse(b)
    }

    open spec fn parse_error(b: Seq<u8>) -> Error {
        field_error("Entity", "eid", <VarInt as Decoder>::parse_error(b))
    }

    fn read_from(r: &mut Reader) -> (res: Result<Entity, Error>) {
        let a = read_field::<VarInt>(r, "Entity", "eid")?;
        Ok(Entity { eid: a.0 })
    }
}

impl Codec for Entity {
    open spec fn wire_valid(v: i32) -> bool {
        <VarInt as Codec>::wire_valid(v)
    }

    proof fn lemma_round_trip(v: i32, rest: Seq<u8>) {
        <VarInt as Codec>::lemma_round_trip(v, rest);
    }
}

impl Packet for Entity {
    open spec fn packet_id() -> i32 {
        0x14
    }

    fn id() -> (r: VarInt) {
        VarInt(0x14)
    }
}

/// Clientbound, play: an effect ends.
#[derive(Debug)]
pub struct RemoveEntityEffect {
    pub eid: i32,
    pub effect: i8,
}

impl DeepView for RemoveEntityEffect {
    type V = (i32, i8);

    open spec fn deep_view(&self) -> (i32, i8) {
        (self.eid, self.effect.deep_view())
    }
}

impl Encoder for RemoveEntityEffect {
    open spec fn encodable(v: (i32, i8)) -> bool {
        <VarInt as Encoder>::encodable(v.0) && <i8 as Encoder>::encodable(v.1)
    }

    open spec fn encoding(v: (i32, i8)) -> Seq<u8> {
        encoding2::<VarInt, i8>(v.0, v.1)
    }

    fn write_to(&self, w: &mut Vec<u8>) -> (r: Result<(), Error>) {
        write2(w, &VarInt(self.eid), &self.effect)
    }
}

impl Decoder for RemoveEntityEffect {
    open spec fn parse(b: Seq<u8>) -> Option<((i32, i8), nat)> {
        match parse2::<VarInt, i8>(b) {
            Some((a, b, k)) => Some(((a, b), k)),
            None => None,
        }
    }

    open spec fn parse_error(b: Seq<u8>) -> Error {
        parse2_error::<VarInt, i8>(b, "RemoveEntityEffect", "eid", "effect")
    }

    fn read_from(r: &mut Reader) -> (res: Result<RemoveEntityEffect, Error>) {
        let (a, b) = read2::<VarInt, i8>(r, "RemoveEntityEffect", "eid", "effect")?;
        Ok(RemoveEntityEffect { eid: a.0, effect: b })
    }
}

impl Codec for RemoveEntityEffect {
    open spec fn wire_valid(v: (i32, i8)) -> bool {
        <VarInt as Codec>::wire_valid(v.0) && <i8 as Codec>::wire_valid(v.1)
    }

    proof fn lemma_round_trip(v: (i32, i8), rest: Seq<u8>) {
        lemma_round_trip2::<VarInt, i8>(v.0, v.1, rest);
    }
}

impl Packet for RemoveEntityEffect {
    open spec fn packet_id() -> i32 {
        0x1E
    }

    fn id() -> (r: VarInt) {
        VarInt(0x1E)
    }
}

/// Clientbound, play: an entity rides or is leashed to another.
#[derive(Debug)]
pub struct AttachEntity {
    pub eid: i32,
    pub vehicle_eid: i32,
    pub leash: bool,
}

impl DeepView for AttachEntity {
    type V = (i32, i32, bool);

    open spec fn deep_view(&self) -> (i32, i32, bool) {
        (self.eid.deep_view(), self.vehicle_eid.deep_view(), self.leash.deep_view())
    }
}

impl Encoder for AttachEntity {
    open spec fn encodable(v: (i32, i32, bool)) -> bool {
        <i32 as Encoder>::encodable(v.0) && <i32 as Encoder>::encodable(v.1) && <bool as Encoder>::encodable(v.2)
    }

    open spec fn encoding(v: (i32, i32, bool)) -> Seq<u8> {
        encoding3::<i32, i32, bool>(v.0, v.1, v.2)
    }

    fn write_to(&self, w: &mut Vec<u8>) -> (r: Result<(), Error>) {
        write3(w, &self.eid, &self.vehicle_eid, &self.leash)
    }
}

impl Decoder for AttachEntity {
    open spec fn parse(b: Seq<u8>) -> Option<((i32, i32, bool), nat)> {
        match parse3::<i32, i32, bool>(b) {
            Some((a, b, c, k)) => Some(((a, b, c), k)),
            None => None,
        }
    }

    open spec fn parse_error(b: Seq<u8>) -> Error {
        parse3_error::<i32, i32, bool>(b, "AttachEntity", "eid", "vehicle_eid", "leash")
    }

    fn read_from(r: &mut Reader) -> (res: Result<AttachEntity, Error>) {
        let (a, b, c) = read3::<i32, i32, bool>(r, "AttachEntity", "eid", "vehicle_eid", "leash")?;
        Ok(AttachEntity { eid: a, vehicle_eid: b, leash: c })
    }
}

impl Codec for AttachEntity {
    open spec fn wire_valid(v: (i32, i32, bool)) -> bool {
        <i32 as Codec>::wire_valid(v.0) && <i32 as Codec>::wire_valid(v.1) && <bool as Codec>::wire_valid(v.2)
    }

    proof fn lemma_round_trip(v: (i32, i32, bool), rest: Seq<u8>) {
        lemma_round_trip3::<i32, i32, bool>(v.0, v.1, v.2, rest);
    }
}

impl Packet for AttachEntity {
    open spec fn packet_id() -> i32 {
        0x1B
    }

    fn id() -> (r: VarInt) {
        VarInt(0x1B)
    }
}

/// Clientbound, play: an entity's velocity.
#[derive(Debug)]
pub struct EntityVelocity {
    pub eid: i32,
    pub velocity_x: i16,
    pub velocity_y: i16,
    pub velocity_z: i16,
}

impl DeepView for EntityVelocity {
    type V = (i32, i16, i16, i16);

    open spec fn deep_view(&self) -> (i32, i16, i16, i16) {
        (self.eid, self.velocity_x.deep_view(), self.velocity_y.deep_view(), self.velocity_z.deep_view())
    }
}

impl Encoder for EntityVelocity {
    open spec fn encodable(v: (i32, i16, i16, i16)) -> bool {
        <VarInt as Encoder>::encodable(v.0) && <i16 as Encoder>::encodable(v.1) && <i16 as Encoder>::encodable(v.2) && <i16 as Encoder>::encodable(v.3)
    }

    open spec fn encoding(v: (i32, i16, i16, i16)) -> Seq<u8> {
        encoding4::<VarInt, i16, i16, i16>(v.0, v.1, v.2, v.3)
    }

    fn write_to(&self, w: &mut Vec<u8>) -> (r: Result<(), Error>) {
        write4(w, &VarInt(self.eid), &self.velocity_x, &self.velocity_y, &self.velocity_z)
    }
}

impl Decoder for EntityVelocity {
    open spec fn parse(b: Seq<u8>) -> Option<((i32, i16, i16, i16), nat)> {
        match parse4::<VarInt, i16, i16, i16>(b) {
            Some((a, b, c, d, k)) => Some(((a, b, c, d), k)),
            None => None,
        }
    }

    open spec fn parse_error(b: Seq<u8>) -> Error {
        parse4_error::<VarInt, i16, i16, i16>(b, "EntityVelocity", "eid", "velocity_x", "velocity_y", "velocity_z")
    }

    fn read_from(r: &mut Reader) -> (res: Result<EntityVelocity, Error>) {
        let (a, b, c, d) = read4::<VarInt, i16, i16, i16>(r, "EntityVelocity", "eid", "velocity_x", "velocity_y", "velocity_z")?;
        Ok(EntityVelocity { eid: a.0, velocity_x: b, velocity_y: c, velocity_z: d })
    }
}

impl Codec for EntityVelocity {
    open spec fn wire_valid(v: (i32, i16, i16, i16)) -> bool {
        <VarInt as Codec>::wire_valid(v.0) && <i16 as Codec>::wire_valid(v.1) && <i16 as Codec>::wire_valid(v.2) && <i16 as Codec>::wire_valid(v.3)
    }

    proof fn lemma_round_trip(v: (i32, i16, i16, i16), rest: Seq<u8>) {
        lemma_round_trip4::<VarInt, i16, i16, i16>(v.0, v.1, v.2, v.3, rest);
    }
}

impl Packet for EntityVelocity {
    open spec fn packet_id() -> i32 {
        0x12
    }

    fn id() -> (r: VarInt) {
        VarInt(0x12)
    }
}

/// The dimension a world is in.
#[derive(Debug, Clone, Copy, PartialEq, Eq, Structural)]
pub enum Dimension {
    Nether,
    Overworld,
    End,
}

impl Dimension {
    /// The discriminant written for each variant.
    pub open spec fn discriminant(self) -> i8 {
        match self {
            Dimension::Nether => -1i8,
            Dimension::Overworld => 0,
            Dimension::End => 1,
        }
    }

    /// The variant of a discriminant, where one matches.
    pub open spec fn from_discriminant(d: i8) -> Option<Dimension> {
        if d == -1i8 {
            Some(Dimension::Nether)
        } else if d == 0 {
            Some(Dimension::Overworld)
        } else if d == 1 {
            Some(Dimension::End)
        } else {
            None
        }
    }

    /// Reads the discriminant and matches it against the variants; one
    /// that matches none is a format error naming the enum.
    pub fn read_variant(r: &mut Reader) -> (res: Result<Dimension, Error>)
        ensures
            match <i8 as Decoder>::parse(old(r)@) {
                Some((d, n)) => match Dimension::from_discriminant(d) {
                    Some(v) => res == Ok::<Dimension, Error>(v) && final(r)@ == old(r)@.skip(n as int),
                    None => res == Err::<Dimension, Error>(
                        Error::Format(FormatError::UnknownDiscriminant { name: "Dimension", value: d as i64 }),
                    ),
                },
                None => res == Err::<Dimension, Error>(
                    field_error("Dimension", "discriminant", <i8 as Decoder>::parse_error(old(r)@)),
                ),
            },
    {
        let d = read_field::<i8>(r, "Dimension", "discriminant")?;
        if d == -1i8 {
            Ok(Dimension::Nether)
        } else if d == 0 {
            Ok(Dimension::Overworld)
        } else if d == 1 {
            Ok(Dimension::End)
        } else {
            Err(Error::Format(FormatError::UnknownDiscriminant { name: "Dimension", value: d as i64 }))
        }
    }
}

impl DeepView for Dimension {
    type V = Dimension;

    open spec fn deep_view(&self) -> Dimension {
        *self
    }
}

impl Encoder for Dimension {
    open spec fn encodable(v: Dimension) -> bool {
        true
    }

    /// The variant's discriminant.
    open spec fn encoding(v: Dimension) -> Seq<u8> {
        <i8 as Encoder>::encoding(v.discriminant())
    }

    fn write_to(&self, w: &mut Vec<u8>) -> (r: Result<(), Error>) {
        let d: i8 = match self {
            Dimension::Nether => -1i8,
            Dimension::Overworld => 0,
            Dimension::End => 1,
        };
        d.write_to(w)
    }
}

impl Decoder for Dimension {
    open spec fn parse(b: Seq<u8>) -> Option<(Dimension, nat)> {
        match <i8 as Decoder>::parse(b) {
            Some((d, n)) => match Dimension::from_discriminant(d) {
                Some(v) => Some((v, n)),
                None => None,
            },
            None => None,
        }
    }

    /// The discriminant's error, or an unknown discriminant naming the enum.
    open spec fn parse_error(b: Seq<u8>) -> Error {
        match <i8 as Decoder>::parse(b) {
            None => field_error("Dimension", "discriminant", <i8 as Decoder>::parse_error(b)),
            Some((d, _)) => Error::Format(FormatError::UnknownDiscriminant { name: "Dimension", value: d as i64 }),
        }
    }

    fn read_from(r: &mut Reader) -> (res: Result<Dimension, Error>) {
        Dimension::read_variant(r)
    }
}

impl Codec for Dimension {
    open spec fn wire_valid(v: Dimension) -> bool {
        true
    }

    proof fn lemma_round_trip(v: Dimension, rest: Seq<u8>) {
        <i8 as Codec>::lemma_round_trip(v.discriminant(), rest);
    }
}

/// Where a chat message shows.
#[derive(Debug, Clone, Copy, PartialEq, Eq, Structural)]
pub enum ChatPosition {
    ChatBox,
    SystemMessage,
    Hotbar,
}

impl ChatPosition {
    /// The discriminant written for each variant.
    pub open spec fn discriminant(self) -> i8 {
        match self {
            ChatPosition::ChatBox => 0,
            ChatPosition::SystemMessage => 1,
            ChatPosition::Hotbar => 2,
        }
    }

    /// The variant of a discriminant, where one matches.
    pub open spec fn from_discriminant(d: i8) -> Option<ChatPosition> {
        if d == 0 {
            Some(ChatPosition::ChatBox)
        } else if d == 1 {
            Some(ChatPosition::SystemMessage)
        } else if d == 2 {
            Some(ChatPosition::Hotbar)
        } else {
            None
        }
    }

    /// Reads the discriminant and matches it against the variants; one
    /// that matches none is a format error naming the enum.
    pub fn read_variant(r: &mut Reader) -> (res: Result<ChatPosition, Error>)
        ensures
            match <i8 as Decoder>::parse(old(r)@) {
                Some((d, n)) => match ChatPosition::from_discriminant(d) {
                    Some(v) => res == Ok::<ChatPosition, Error>(v) && final(r)@ == old(r)@.skip(n as int),
                    None => res == Err::<ChatPosition, Error>(
                        Error::Format(FormatError::UnknownDiscriminant { name: "ChatPosition", value: d as i64 }),
                    ),
                },
                None => res == Err::<ChatPosition, Error>(
                    field_error("ChatPosition", "discriminant", <i8 as Decoder>::parse_error(old(r)@)),
                ),
            },
    {
        let d = read_field::<i8>(r, "ChatPosition", "discriminant")?;
        if d == 0 {
            Ok(ChatPosition::ChatBox)
        } else if d == 1 {
            Ok(ChatPosition::SystemMessage)
        } else if d == 2 {
            Ok(ChatPosition::Hotbar)
        } else {
            Err(Error::Format(FormatError::UnknownDiscriminant { name: "ChatPosition", value: d as i64 }))
        }
    }
}

impl DeepView for ChatPosition {
    type V = ChatPosition;

    open spec fn deep_view(&self) -> ChatPosition {
        *self
    }
}

impl Encoder for ChatPosition {
    open spec fn encodable(v: ChatPosition) -> bool {
        true
    }

    /// The variant's discriminant.
    open spec fn encoding(v: ChatPosition) -> Seq<u8> {
        <i8 as Encoder>::encoding(v.discriminant())
    }

    fn write_to(&self, w: &mut Vec<u8>) -> (r: Result<(), Error>) {
        let d: i8 = match self {
            ChatPosition::ChatBox => 0,
            ChatPosition::SystemMessage => 1,
            ChatPosition::Hotbar => 2,
        };
        d.write_to(w)
    }
}

impl Decoder for ChatPosition {
    open spec fn parse(b: Seq<u8>) -> Option<(ChatPosition, nat)> {
        match <i8 as Decoder>::parse(b) {
            Some((d, n)) => match ChatPosition::from_discriminant(d) {
                Some(v) => Some((v, n)),
                None => None,
            },
            None => None,
        }
    }

    /// The discriminant's error, or an unknown discriminant naming the enum.
    open spec fn parse_error(b: Seq<u8>) -> Error {
        match <i8 as Decoder>::parse(b) {
            None => field_error("ChatPosition", "discriminant", <i8 as Decoder>::parse_error(b)),
            Some((d, _)) => Error::Format(FormatError::UnknownDiscriminant { name: "ChatPosition", value: d as i64 }),
        }
    }

    fn read_from(r: &mut Reader) -> (res: Result<ChatPosition, Error>) {
        ChatPosition::read_variant(r)
    }
}

impl Codec for ChatPosition {
    open spec fn wire_valid(v: ChatPosition) -> bool {
        true
    }

    proof fn lemma_round_trip(v: ChatPosition, rest: Seq<u8>) {
        <i8 as Codec>::lemma_round_trip(v.discriminant(), rest);
    }
}

/// The difficulty of a world.
#[derive(Debug, Clone, Copy, PartialEq, Eq, Structural)]
pub enum Difficulty {
    Peaceful,
    Easy,
    Normal,
    Hard,
}

impl Difficulty {
    /// The discriminant written for each variant.
    pub open spec fn discriminant(self) -> u8 {
        match self {
            Difficulty::Peaceful => 0,
            Difficulty::Easy => 1,
            Difficulty::Normal => 2,
            Difficulty::Hard => 3,
        }
    }

    /// The variant of a discriminant, where one matches.
    pub open spec fn from_discriminant(d: u8) -> Option<Difficulty> {
        if d == 0 {
            Some(Difficulty::Peaceful)
        } else if d == 1 {
            Some(Difficulty::Easy)
        } else if d == 2 {
            Some(Difficulty::Normal)
        } else if d == 3 {
            Some(Difficulty::Hard)
        } else {
            None
        }
    }

    /// Reads the discriminant and matches it against the variants; one
    /// that matches none is a format error naming the enum.
    pub fn read_variant(r: &mut Reader) -> (res: Result<Difficulty, Error>)
        ensures
            match <u8 as Decoder>::parse(old(r)@) {
                Some((d, n)) => match Difficulty::from_discriminant(d) {
                    Some(v) => res == Ok::<Difficulty, Error>(v) && final(r)@ == old(r)@.skip(n as int),
                    None => res == Err::<Difficulty, Error>(
                        Error::Format(FormatError::UnknownDiscriminant { name: "Difficulty", value: d as i64 }),
                    ),
                },
                None => res == Err::<Difficulty, Error>(
                    field_error("Difficulty", "discriminant", <u8 as Decoder>::parse_error(old(r)@)),
                ),
            },
    {
        let d = read_field::<u8>(r, "Difficulty", "discriminant")?;
        if d == 0 {
            Ok(Difficulty::Peaceful)
        } else if d == 1 {
            Ok(Difficulty::Easy)
        } else if d == 2 {
            Ok(Difficulty::Normal)
        } else if d == 3 {
            Ok(Difficulty::Hard)
        } else {
            Err(Error::Format(FormatError::UnknownDiscriminant { name: "Difficulty", value: d as i64 }))
        }
    }
}

impl DeepView for Difficulty {
    type V = Difficulty;

    open spec fn deep_view(&self) -> Difficulty {
        *self
    }
}

impl Encoder for Difficulty {
    open spec fn encodable(v: Difficulty) -> bool {
        true
    }

    /// The variant's discriminant.
    open spec fn encoding(v: Difficulty) -> Seq<u8> {
        <u8 as Encoder>::encoding(v.discriminant())
    }

    fn write_to(&self, w: &mut Vec<u8>) -> (r: Result<(), Error>) {
        let d: u8 = match self {
            Difficulty::Peaceful => 0,
            Difficulty::Easy => 1,
            Difficulty::Normal => 2,
            Difficulty::Hard => 3,
        };
        d.write_to(w)
    }
}

impl Decoder for Difficulty {
    open spec fn parse(b: Seq<u8>) -> Option<(Difficulty, nat)> {
        match <u8 as Decoder>::parse(b) {
            Some((d, n)) => match Difficulty::from_discriminant(d) {
                Some(v) => Some((v, n)),
                None => None,
            },
            None => None,
        }
    }

    /// The discriminant's error, or an unknown discriminant naming the enum.
    open spec fn parse_error(b: Seq<u8>) -> Error {
        match <u8 as Decoder>::parse(b) {
            None => field_error("Difficulty", "discriminant", <u8 as Decoder>::parse_error(b)),
            Some((d, _)) => Error::Format(FormatError::UnknownDiscriminant { name: "Difficulty", value: d as i64 }),
        }
    }

    fn read_from(r: &mut Reader) -> (res: Result<Difficulty, Error>) {
        Difficulty::read_variant(r)
    }
}

impl Codec for Difficulty {
    open spec fn wire_valid(v: Difficulty) -> bool {
        true
    }

    proof fn lemma_round_trip(v: Difficulty, rest: Seq<u8>) {
        <u8 as Codec>::lemma_round_trip(v.discriminant(), rest);
    }
}

/// A player's game mode.
#[derive(Debug, Clone, Copy, PartialEq, Eq, Structural)]
pub enum Gamemode {
    Survival,
    Creative,
    Adventure,
}

impl Gamemode {
    /// The discriminant written for each variant.
    pub open spec fn discriminant(self) -> u8 {
        match self {
            Gamemode::Survival => 0,
            Gamemode::Creative => 1,
            Gamemode::Adventure => 2,
        }
    }

    /// The variant of a discriminant, where one matches.
    pub open spec fn from_discriminant(d: u8) -> Option<Gamemode> {
        if d == 0 {
            Some(Gamemode::Survival)
        } else if d == 1 {
            Some(Gamemode::Creative)
        } else if d == 2 {
            Some(Gamemode::Adventure)
        } else {
            None
        }
    }

    /// Reads the discriminant and matches it against the variants; one
    /// that matches none is a format error naming the enum.
    pub fn read_variant(r: &mut Reader) -> (res: Result<Gamemode, Error>)
        ensures
            match <u8 as Decoder>::parse(old(r)@) {
                Some((d, n)) => match Gamemode::from_discriminant(d) {
                    Some(v) => res == Ok::<Gamemode, Error>(v) && final(r)@ == old(r)@.skip(n as int),
                    None => res == Err::<Gamemode, Error>(
                        Error::Format(FormatError::UnknownDiscriminant { name: "Gamemode", value: d as i64 }),
                    ),
                },
                None => res == Err::<Gamemode, Error>(
                    field_error("Gamemode", "discriminant", <u8 as Decoder>::parse_error(old(r)@)),
                ),
            },
    {
        let d = read_field::<u8>(r, "Gamemode", "discriminant")?;
        if d == 0 {
            Ok(Gamemode::Survival)
        } else if d == 1 {
            Ok(Gamemode::Creative)
        } else if d == 2 {
            Ok(Gamemode::Adventure)
        } else {
            Err(Error::Format(FormatError::UnknownDiscriminant { name: "Gamemode", value: d as i64 }))
        }
    }
}

impl DeepView for Gamemode {
    type V = Gamemode;

    open spec fn deep_view(&self) -> Gamemode {
        *self
    }
}

impl Encoder for Gamemode {
    open spec fn encodable(v: Gamemode) -> bool {
        true
    }

    /// The variant's discriminant.
    open spec fn encoding(v: Gamemode) -> Seq<u8> {
        <u8 as Encoder>::encoding(v.discriminant())
    }

    fn write_to(&self, w: &mut Vec<u8>) -> (r: Result<(), Error>) {
        let d: u8 = match self {
            Gamemode::Survival => 0,
            Gamemode::Creative => 1,
            Gamemode::Adventure => 2,
        };
        d.write_to(w)
    }
}

impl Decoder for Gamemode {
    open spec fn parse(b: Seq<u8>) -> Option<(Gamemode, nat)> {
        match <u8 as Decoder>::parse(b) {
            Some((d, n)) => match Gamemode::from_discriminant(d) {
                Some(v) => Some((v, n)),
                None => None,
            },
            None => None,
        }
    }

    /// The discriminant's error, or an unknown discriminant naming the enum.
    open spec fn parse_error(b: Seq<u8>) -> Error {
        match <u8 as Decoder>::parse(b) {
            None => field_error("Gamemode", "discriminant", <u8 as Decoder>::parse_error(b)),
            Some((d, _)) => Error::Format(FormatError::UnknownDiscriminant { name: "Gamemode", value: d as i64 }),
        }
    }

    fn read_from(r: &mut Reader) -> (res: Result<Gamemode, Error>) {
        Gamemode::read_variant(r)
    }
}

impl Codec for Gamemode {
    open spec fn wire_valid(v: Gamemode) -> bool {
        true
    }

    proof fn lemma_round_trip(v: Gamemode, rest: Seq<u8>) {
        <u8 as Codec>::lemma_round_trip(v.discriminant(), rest);
    }
}

/// The direction a painting faces.
#[derive(Debug, Clone, Copy, PartialEq, Eq, Structural)]
pub enum WindDirection {
    North,
    West,
    South,
    East,
}

impl WindDirection {
    /// The discriminant written for each variant.
    pub open spec fn discriminant(self) -> u8 {
        match self {
            WindDirection::North => 0,
            WindDirection::West => 1,
            WindDirection::South => 2,
            WindDirection::East => 3,
        }
    }

    /// The variant of a discriminant, where one matches.
    pub open spec fn from_discriminant(d: u8) -> Option<WindDirection> {
        if d == 0 {
            Some(WindDirection::North)
        } else if d == 1 {
            Some(WindDirection::West)
        } else if d == 2 {
            Some(WindDirection::South)
        } else if d == 3 {
            Some(WindDirection::East)
        } else {
            None
        }
    }

    /// Reads the discriminant and matches it against the variants; one
    /// that matches none is a format error naming the enum.
    pub fn read_variant(r: &mut Reader) -> (res: Result<WindDirection, Error>)
        ensures
            match <u8 as Decoder>::parse(old(r)@) {
                Some((d, n)) => match WindDirection::from_discriminant(d) {
                    Some(v) => res == Ok::<WindDirection, Error>(v) && final(r)@ == old(r)@.skip(n as int),
                    None => res == Err::<WindDirection, Error>(
                        Error::Format(FormatError::UnknownDiscriminant { name: "WindDirection", value: d as i64 }),
                    ),
                },
                None => res == Err::<WindDirection, Error>(
                    field_error("WindDirection", "discriminant", <u8 as Decoder>::parse_error(old(r)@)),
                ),
            },
    {
        let d = read_field::<u8>(r, "WindDirection", "discriminant")?;
        if d == 0 {
            Ok(WindDirection::North)
        } else if d == 1 {
            Ok(WindDirection::West)
        } else if d == 2 {
            Ok(WindDirection::South)
        } else if d == 3 {
            Ok(WindDirection::East)
        } else {
            Err(Error::Format(FormatError::UnknownDiscriminant { name: "WindDirection", value: d as i64 }))
        }
    }
}

impl DeepView for WindDirection {
    type V = WindDirection;

    open spec fn deep_view(&self) -> WindDirection {
        *self
    }
}

impl Encoder for WindDirection {
    open spec fn encodable(v: WindDirection) -> bool {
        true
    }

    /// The variant's discriminant.
    open spec fn encoding(v: WindDirection) -> Seq<u8> {
        <u8 as Encoder>::encoding(v.discriminant())
    }

    fn write_to(&self, w: &mut Vec<u8>) -> (r: Result<(), Error>) {
        let d: u8 = match self {
            WindDirection::North => 0,
            WindDirection::West => 1,
            WindDirection::South => 2,
            WindDirection::East => 3,
        };
        d.write_to(w)
    }
}

impl Decoder for WindDirection {
    open spec fn parse(b: Seq<u8>) -> Option<(WindDirection, nat)> {
        match <u8 as Decoder>::parse(b) {
            Some((d, n)) => match WindDirection::from_discriminant(d) {
                Some(v) => Some((v, n)),
                None => None,
            },
            None => None,
        }
    }

    /// The discriminant's error, or an unknown discriminant naming the enum.
    open spec fn parse_error(b: Seq<u8>) -> Error {
        match <u8 as Decoder>::parse(b) {
            None => field_error("WindDirection", "discriminant", <u8 as Decoder>::parse_error(b)),
            Some((d, _)) => Error::Format(FormatError::UnknownDiscriminant { name: "WindDirection", value: d as i64 }),
        }
    }

    fn read_from(r: &mut Reader) -> (res: Result<WindDirection, Error>) {
        WindDirection::read_variant(r)
    }
}

impl Codec for WindDirection {
    open spec fn wire_valid(v: WindDirection) -> bool {
        true
    }

    proof fn lemma_round_trip(v: WindDirection, rest: Seq<u8>) {
        <u8 as Codec>::lemma_round_trip(v.discriminant(), rest);
    }
}

/// Clientbound, play: a chat message as JSON text, and where it shows.
#[derive(Debug)]
pub struct ChatMessage {
    pub json: String,
    pub position: ChatPosition,
}

impl DeepView for ChatMessage {
    type V = (Seq<char>, ChatPosition);

    open spec fn deep_view(&self) -> (Seq<char>, ChatPosition) {
        (self.json.deep_view(), self.position.deep_view())
    }
}

impl Encoder for ChatMessage {
    open spec fn encodable(v: (Seq<char>, ChatPosition)) -> bool {
        <String as Encoder>::encodable(v.0) && <ChatPosition as Encoder>::encodable(v.1)
    }

    open spec fn encoding(v: (Seq<char>, ChatPosition)) -> Seq<u8> {
        encoding2::<String, ChatPosition>(v.0, v.1)
    }

    fn write_to(&self, w: &mut Vec<u8>) -> (r: Result<(), Error>) {
        write2(w, &self.json, &self.position)
    }
}

impl Decoder for ChatMessage {
    open spec fn parse(b: Seq<u8>) -> Option<((Seq<char>, ChatPosition), nat)> {
        match parse2::<String, ChatPosition>(b) {
            Some((a, b, k)) => Some(((a, b), k)),
            None => None,
        }
    }

    open spec fn parse_error(b: Seq<u8>) -> Error {
        parse2_error::<String, ChatPosition>(b, "ChatMessage", "json", "position")
    }

    fn read_from(r: &mut Reader) -> (res: Result<ChatMessage, Error>) {
        let (a, b) = read2::<String, ChatPosition>(r, "ChatMessage", "json", "position")?;
        Ok(ChatMessage { json: a, position: b })
    }
}

impl Codec for ChatMessage {
    open spec fn wire_valid(v: (Seq<char>, ChatPosition)) -> bool {
        <String as Codec>::wire_valid(v.0) && <ChatPosition as Codec>::wire_valid(v.1)
    }

    proof fn lemma_round_trip(v: (Seq<char>, ChatPosition), rest: Seq<u8>) {
        lemma_round_trip2::<String, ChatPosition>(v.0, v.1, rest);
    }
}

impl Packet for ChatMessage {
    open spec fn packet_id() -> i32 {
        0x02
    }

    fn id() -> (r: VarInt) {
        VarInt(0x02)
    }
}

/// Clientbound, play: the player moves to another dimension.
#[derive(Debug)]
pub struct Respawn {
    pub dimension: Dimension,
    pub difficulty: Difficulty,
    pub gamemode: Gamemode,
    pub level_type: String,
}

impl DeepView for Respawn {
    type V = (Dimension, Difficulty, Gamemode, Seq<char>);

    open spec fn deep_view(&self) -> (Dimension, Difficulty, Gamemode, Seq<char>) {
        (self.dimension.deep_view(), self.difficulty.deep_view(), self.gamemode.deep_view(), self.level_type.deep_view())
    }
}

impl Encoder for Respawn {
    open spec fn encodable(v: (Dimension, Difficulty, Gamemode, Seq<char>)) -> bool {
        <Dimension as Encoder>::encodable(v.0) && <Difficulty as Encoder>::encodable(v.1) && <Gamemode as Encoder>::encodable(v.2) && <String as Encoder>::encodable(v.3)
    }

    open spec fn encoding(v: (Dimension, Difficulty, Gamemode, Seq<char>)) -> Seq<u8> {
        encoding4::<Dimension, Difficulty, Gamemode, String>(v.0, v.1, v.2, v.3)
    }

    fn write_to(&self, w: &mut Vec<u8>) -> (r: Result<(), Error>) {
        write4(w, &self.dimension, &self.difficulty, &self.gamemode, &self.level_type)
    }
}

impl Decoder for Respawn {
    open spec fn parse(b: Seq<u8>) -> Option<((Dimension, Difficulty, Gamemode, Seq<char>), nat)> {
        match parse4::<Dimension, Difficulty, Gamemode, String>(b) {
            Some((a, b, c, d, k)) => Some(((a, b, c, d), k)),
            None => None,
        }
    }

    open spec fn parse_error(b: Seq<u8>) -> Error {
        parse4_error::<Dimension, Difficulty, Gamemode, String>(b, "Respawn", "dimension", "difficulty", "gamemode", "level_type")
    }

    fn read_from(r: &mut Reader) -> (res: Result<Respawn, Error>) {
        let (a, b, c, d) = read4::<Dimension, Difficulty, Gamemode, String>(r, "Respawn", "dimension", "difficulty", "gamemode", "level_type")?;
        Ok(Respawn { dimension: a, difficulty: b, gamemode: c, level_type: d })
    }
}

impl Codec for Respawn {
    open spec fn wire_valid(v: (Dimension, Difficulty, Gamemode, Seq<char>)) -> bool {
        <Dimension as Codec>::wire_valid(v.0) && <Difficulty as Codec>::wire_valid(v.1) && <Gamemode as Codec>::wire_valid(v.2) && <String as Codec>::wire_valid(v.3)
    }

    proof fn lemma_round_trip(v: (Dimension, Difficulty, Gamemode, Seq<char>), rest: Seq<u8>) {
        lemma_round_trip4::<Dimension, Difficulty, Gamemode, String>(v.0, v.1, v.2, v.3, rest);
    }
}

impl Packet for Respawn {
    open spec fn packet_id() -> i32 {
        0x07
    }

    fn id() -> (r: VarInt) {
        VarInt(0x07)
    }
}

/// Clientbound, play: a painting appears.
#[derive(Debug)]
pub struct SpawnPainting {
    pub eid: i32,
    pub title: String,
    pub location: Position,
    pub direction: WindDirection,
}

impl DeepView for SpawnPainting {
    type V = (i32, Seq<char>, (i32, i32, i32), WindDirection);

    open spec fn deep_view(&self) -> (i32, Seq<char>, (i32, i32, i32), WindDirection) {
        (self.eid, self.title.deep_view(), self.location.deep_view(), self.direction.deep_view())
    }
}

impl Encoder for SpawnPainting {
    open spec fn encodable(v: (i32, Seq<char>, (i32, i32, i32), WindDirection)) -> bool {
        <VarInt as Encoder>::encodable(v.0) && <String as Encoder>::encodable(v.1) && <Position as Encoder>::encodable(v.2) && <WindDirection as Encoder>::encodable(v.3)
    }

    open spec fn encoding(v: (i32, Seq<char>, (i32, i32, i32), WindDirection)) -> Seq<u8> {
        encoding4::<VarInt, String, Position, WindDirection>(v.0, v.1, v.2, v.3)
    }

    fn write_to(&self, w: &mut Vec<u8>) -> (r: Result<(), Error>) {
        write4(w, &VarInt(self.eid), &self.title, &self.location, &self.direction)
    }
}

impl Decoder for SpawnPainting {
    open spec fn parse(b: Seq<u8>) -> Option<((i32, Seq<char>, (i32, i32, i32), WindDirection), nat)> {
        match parse4::<VarInt, String, Position, WindDirection>(b) {
            Some((a, b, c, d, k)) => Some(((a, b, c, d), k)),
            None => None,
        }
    }

    open spec fn parse_error(b: Seq<u8>) -> Error {
        parse4_error::<VarInt, String, Position, WindDirection>(b, "SpawnPainting", "eid", "title", "location", "direction")
    }

    fn read_from(r: &mut Reader) -> (res: Result<SpawnPainting, Error>) {
        let (a, b, c, d) = read4::<VarInt, String, Position, WindDirection>(r, "SpawnPainting", "eid", "title", "location", "direction")?;
        Ok(SpawnPainting { eid: a.0, title: b, location: c, direction: d })
    }
}

impl Codec for SpawnPainting {
    open spec fn wire_valid(v: (i32, Seq<char>, (i32, i32, i32), WindDirection)) -> bool {
        <VarInt as Codec>::wire_valid(v.0) && <String as Codec>::wire_valid(v.1) && <Position as Codec>::wire_valid(v.2) && <WindDirection as Codec>::wire_valid(v.3)
    }

    proof fn lemma_round_trip(v: (i32, Seq<char>, (i32, i32, i32), WindDirection), rest: Seq<u8>) {
        lemma_round_trip4::<VarInt, String, Position, WindDirection>(v.0, v.1, v.2, v.3, rest);
    }
}

impl Packet for SpawnPainting {
    open spec fn packet_id() -> i32 {
        0x10
    }

    fn id() -> (r: VarInt) {
        VarInt(0x10)
    }
}


/// The equipment slot of an entity.
#[derive(Debug, Clone, Copy, PartialEq, Eq, Structural)]
pub enum EquipmentSlot {
    Held,
    Boots,
    Leggings,
    Chestplate,
    Helmet,
}

impl EquipmentSlot {
    /// The discriminant written for each variant.
    pub open spec fn discriminant(self) -> i16 {
        match self {
            EquipmentSlot::Held => 0,
            EquipmentSlot::Boots => 1,
            EquipmentSlot::Leggings => 2,
            EquipmentSlot::Chestplate => 3,
            EquipmentSlot::Helmet => 4,
        }
    }

    /// The variant of a discriminant, where one matches.
    pub open spec fn from_discriminant(d: i16) -> Option<EquipmentSlot> {
        if d == 0 {
            Some(EquipmentSlot::Held)
        } else if d == 1 {
            Some(EquipmentSlot::Boots)
        } else if d == 2 {
            Some(EquipmentSlot::Leggings)
        } else if d == 3 {
            Some(EquipmentSlot::Chestplate)
        } else if d == 4 {
            Some(EquipmentSlot::Helmet)
        } else {
            None
        }
    }

    /// Reads the discriminant and matches it against the variants; one
    /// that matches none is a format error naming the enum.
    pub fn read_variant(r: &mut Reader) -> (res: Result<EquipmentSlot, Error>)
        ensures
            match <i16 as Decoder>::parse(old(r)@) {
                Some((d, n)) => match EquipmentSlot::from_discriminant(d) {
                    Some(v) => res == Ok::<EquipmentSlot, Error>(v) && final(r)@ == old(r)@.skip(n as int),
                    None => res == Err::<EquipmentSlot, Error>(
                        Error::Format(FormatError::UnknownDiscriminant { name: "EquipmentSlot", value: d as i64 }),
                    ),
                },
                None => res == Err::<EquipmentSlot, Error>(
                    field_error("EquipmentSlot", "discriminant", <i16 as Decoder>::parse_error(old(r)@)),
                ),
            },
    {
        let d = read_field::<i16>(r, "EquipmentSlot", "discriminant")?;
        if d == 0 {
            Ok(EquipmentSlot::Held)
        } else if d == 1 {
            Ok(EquipmentSlot::Boots)
        } else if d == 2 {
            Ok(EquipmentSlot::Leggings)
        } else if d == 3 {
            Ok(EquipmentSlot::Chestplate)
        } else if d == 4 {
            Ok(EquipmentSlot::Helmet)
        } else {
            Err(Error::Format(FormatError::UnknownDiscriminant { name: "EquipmentSlot", value: d as i64 }))
        }
    }
}

impl DeepView for EquipmentSlot {
    type V = EquipmentSlot;

    open spec fn deep_view(&self) -> EquipmentSlot {
        *self
    }
}

impl Encoder for EquipmentSlot {
    open spec fn encodable(v: EquipmentSlot) -> bool {
        true
    }

    /// The variant's discriminant.
    open spec fn encoding(v: EquipmentSlot) -> Seq<u8> {
        <i16 as Encoder>::encoding(v.discriminant())
    }

    fn write_to(&self, w: &mut Vec<u8>) -> (r: Result<(), Error>) {
        let d: i16 = match self {
            EquipmentSlot::Held => 0,
            EquipmentSlot::Boots => 1,
            EquipmentSlot::Leggings => 2,
            EquipmentSlot::Chestplate => 3,
            EquipmentSlot::Helmet => 4,
        };
        d.write_to(w)
    }
}

impl Decoder for EquipmentSlot {
    open spec fn parse(b: Seq<u8>) -> Option<(EquipmentSlot, nat)> {
        match <i16 as Decoder>::parse(b) {
            Some((d, n)) => match EquipmentSlot::from_discriminant(d) {
                Some(v) => Some((v, n)),
                None => None,
            },
            None => None,
        }
    }

    /// The discriminant's error, or an unknown discriminant naming the enum.
    open spec fn parse_error(b: Seq<u8>) -> Error {
        match <i16 as Decoder>::parse(b) {
            None => field_error("EquipmentSlot", "discriminant", <i16 as Decoder>::parse_error(b)),
            Some((d, _)) => Error::Format(FormatError::UnknownDiscriminant { name: "EquipmentSlot", value: d as i64 }),
        }
    }

    fn read_from(r: &mut Reader) -> (res: Result<EquipmentSlot, Error>) {
        EquipmentSlot::read_variant(r)
    }
}

impl Codec for EquipmentSlot {
    open spec fn wire_valid(v: EquipmentSlot) -> bool {
        true
    }

    proof fn lemma_round_trip(v: EquipmentSlot, rest: Seq<u8>) {
        <i16 as Codec>::lemma_round_trip(v.discriminant(), rest);
    }
}

/// An animation an entity plays.
#[derive(Debug, Clone, Copy, PartialEq, Eq, Structural)]
pub enum AnimationId {
    SwingArm,
    TakeDamage,
    LeaveBed,
    EatFood,
    CriticalEffect,
    MagicalCriticalEffect,
}

impl AnimationId {
    /// The discriminant written for each variant.
    pub open spec fn discriminant(self) -> u8 {
        match self {
            AnimationId::SwingArm => 0,
            AnimationId::TakeDamage => 1,
            AnimationId::LeaveBed => 2,
            AnimationId::EatFood => 3,
            AnimationId::CriticalEffect => 4,
            AnimationId::MagicalCriticalEffect => 5,
        }
    }

    /// The variant of a discriminant, where one matches.
    pub open spec fn from_discriminant(d: u8) -> Option<AnimationId> {
        if d == 0 {
            Some(AnimationId::SwingArm)
        } else if d == 1 {
            Some(AnimationId::TakeDamage)
        } else if d == 2 {
            Some(AnimationId::LeaveBed)
        } else if d == 3 {
            Some(AnimationId::EatFood)
        } else if d == 4 {
            Some(AnimationId::CriticalEffect)
        } else if d == 5 {
            Some(AnimationId::MagicalCriticalEffect)
        } else {
            None
        }
    }

    /// Reads the discriminant and matches it against the variants; one
    /// that matches none is a format error naming the enum.
    pub fn read_variant(r: &mut Reader) -> (res: Result<AnimationId, Error>)
        ensures
            match <u8 as Decoder>::parse(old(r)@) {
                Some((d, n)) => match AnimationId::from_discriminant(d) {
                    Some(v) => res == Ok::<AnimationId, Error>(v) && final(r)@ == old(r)@.skip(n as int),
                    None => res == Err::<AnimationId, Error>(
                        Error::Format(FormatError::UnknownDiscriminant { name: "AnimationId", value: d as i64 }),
                    ),
                },
                None => res == Err::<AnimationId, Error>(
                    field_error("AnimationId", "discriminant", <u8 as Decoder>::parse_error(old(r)@)),
                ),
            },
    {
        let d = read_field::<u8>(r, "AnimationId", "discriminant")?;
        if d == 0 {
            Ok(AnimationId::SwingArm)
        } else if d == 1 {
            Ok(AnimationId::TakeDamage)
        } else if d == 2 {
            Ok(AnimationId::LeaveBed)
        } else if d == 3 {
            Ok(AnimationId::EatFood)
        } else if d == 4 {
            Ok(AnimationId::CriticalEffect)
        } else if d == 5 {
            Ok(AnimationId::MagicalCriticalEffect)
        } else {
            Err(Error::Format(FormatError::UnknownDiscriminant { name: "AnimationId", value: d as i64 }))
        }
    }
}

impl DeepView for AnimationId {
    type V = AnimationId;

    open spec fn deep_view(&self) -> AnimationId {
        *self
    }
}

impl Encoder for AnimationId {
    open spec fn encodable(v: AnimationId) -> bool {
        true
    }

    /// The variant's discriminant.
    open spec fn encoding(v: AnimationId) -> Seq<u8> {
        <u8 as Encoder>::encoding(v.discriminant())
    }

    fn write_to(&self, w: &mut Vec<u8>) -> (r: Result<(), Error>) {
        let d: u8 = match self {
            AnimationId::SwingArm => 0,
            AnimationId::TakeDamage => 1,
            AnimationId::LeaveBed => 2,
            AnimationId::EatFood => 3,
            AnimationId::CriticalEffect => 4,
            AnimationId::MagicalCriticalEffect => 5,
        };
        d.write_to(w)
    }
}

impl Decoder for AnimationId {
    open spec fn parse(b: Seq<u8>) -> Option<(AnimationId, nat)> {
        match <u8 as Decoder>::parse(b) {
            Some((d, n)) => match AnimationId::from_discriminant(d) {
                Some(v) => Some((v, n)),
                None => None,
            },
            None => None,
        }
    }

    /// The discriminant's error, or an unknown discriminant naming the enum.
    open spec fn parse_error(b: Seq<u8>) -> Error {
        match <u8 as Decoder>::parse(b) {
            None => field_error("AnimationId", "discriminant", <u8 as Decoder>::parse_error(b)),
            Some((d, _)) => Error::Format(FormatError::UnknownDiscriminant { name: "AnimationId", value: d as i64 }),
        }
    }

    fn read_from(r: &mut Reader) -> (res: Result<AnimationId, Error>) {
        AnimationId::read_variant(r)
    }
}

impl Codec for AnimationId {
    open spec fn wire_valid(v: AnimationId) -> bool {
        true
    }

    proof fn lemma_round_trip(v: AnimationId, rest: Seq<u8>) {
        <u8 as Codec>::lemma_round_trip(v.discriminant(), rest);
    }
}

/// An event that happened to an entity.
#[derive(Debug, Clone, Copy, PartialEq, Eq, Structural)]
pub enum EntityStatus {
    ResetMobSpawnMinecartTimerOrRabbitJumpAnimation,
    LivingEntityHurt,
    LivingEntityDead,
    IronGolemThrowingUpArms,
    TamingSpawnHeartParticles,
    TamingSpawnSmokeParticles,
    WolfShakingWater,
    PlayerEatingAcceptedByServer,
    SheepEatingGrassOrPlayTntIgniteSound,
    IronGolemHandingOverRose,
    VillagerMatingSpawnHeartParticles,
    SpawnAngryVillagerParticles,
    SpawnHappyVillagerParticles,
    WitchSpawnMagicParticles,
    PlayZombieConvertingIntoVillagerSound,
    FireWorkExploding,
    AnimalInLoveSpawnHeartParticles,
    ResetSquidRotation,
    SpawnExplosionParticle,
    PlayGuardianSound,
    EnableReducedDebugInfo,
    DisableReducedDebugInfo,
}

impl EntityStatus {
    /// The discriminant written for each variant.
    pub open spec fn discriminant(self) -> i8 {
        match self {
            EntityStatus::ResetMobSpawnMinecartTimerOrRabbitJumpAnimation => 1,
            EntityStatus::LivingEntityHurt => 2,
            EntityStatus::LivingEntityDead => 3,
            EntityStatus::IronGolemThrowingUpArms => 4,
            EntityStatus::TamingSpawnHeartParticles => 6,
            EntityStatus::TamingSpawnSmokeParticles => 7,
            EntityStatus::WolfShakingWater => 8,
            EntityStatus::PlayerEatingAcceptedByServer => 9,
            EntityStatus::SheepEatingGrassOrPlayTntIgniteSound => 10,
            EntityStatus::IronGolemHandingOverRose => 11,
            EntityStatus::VillagerMatingSpawnHeartParticles => 12,
            EntityStatus::SpawnAngryVillagerParticles => 13,
            EntityStatus::SpawnHappyVillagerParticles => 14,
            EntityStatus::WitchSpawnMagicParticles => 15,
            EntityStatus::PlayZombieConvertingIntoVillagerSound => 16,
            EntityStatus::FireWorkExploding => 17,
            EntityStatus::AnimalInLoveSpawnHeartParticles => 18,
            EntityStatus::ResetSquidRotation => 19,
            EntityStatus::SpawnExplosionParticle => 20,
            EntityStatus::PlayGuardianSound => 21,
            EntityStatus::EnableReducedDebugInfo => 22,
            EntityStatus::DisableReducedDebugInfo => 23,
        }
    }

    /// The variant of a discriminant, where one matches.
    pub open spec fn from_discriminant(d: i8) -> Option<EntityStatus> {
        if d == 1 {
            Some(EntityStatus::ResetMobSpawnMinecartTimerOrRabbitJumpAnimation)
        } else if d == 2 {
            Some(EntityStatus::LivingEntityHurt)
        } else if d == 3 {
            Some(EntityStatus::LivingEntityDead)
        } else if d == 4 {
            Some(EntityStatus::IronGolemThrowingUpArms)
        } else if d == 6 {
            Some(EntityStatus::TamingSpawnHeartParticles)
        } else if d == 7 {
            Some(EntityStatus::TamingSpawnSmokeParticles)
        } else if d == 8 {
            Some(EntityStatus::WolfShakingWater)
        } else if d == 9 {
            Some(EntityStatus::PlayerEatingAcceptedByServer)
        } else if d == 10 {
            Some(EntityStatus::SheepEatingGrassOrPlayTntIgniteSound)
        } else if d == 11 {
            Some(EntityStatus::IronGolemHandingOverRose)
        } else if d == 12 {
            Some(EntityStatus::VillagerMatingSpawnHeartParticles)
        } else if d == 13 {
            Some(EntityStatus::SpawnAngryVillagerParticles)
        } else if d == 14 {
            Some(EntityStatus::SpawnHappyVillagerParticles)
        } else if d == 15 {
            Some(EntityStatus::WitchSpawnMagicParticles)
        } else if d == 16 {
            Some(EntityStatus::PlayZombieConvertingIntoVillagerSound)
        } else if d == 17 {
            Some(EntityStatus::FireWorkExploding)
        } else if d == 18 {
            Some(EntityStatus::AnimalInLoveSpawnHeartParticles)
        } else if d == 19 {
            Some(EntityStatus::ResetSquidRotation)
        } else if d == 20 {
            Some(EntityStatus::SpawnExplosionParticle)
        } else if d == 21 {
            Some(EntityStatus::PlayGuardianSound)
        } else if d == 22 {
            Some(EntityStatus::EnableReducedDebugInfo)
        } else if d == 23 {
            Some(EntityStatus::DisableReducedDebugInfo)
        } else {
            None
        }
    }

    /// Reads the discriminant and matches it against the variants; one
    /// that matches none is a format error naming the enum.
    pub fn read_variant(r: &mut Reader) -> (res: Result<EntityStatus, Error>)
        ensures
            match <i8 as Decoder>::parse(old(r)@) {
                Some((d, n)) => match EntityStatus::from_discriminant(d) {
                    Some(v) => res == Ok::<EntityStatus, Error>(v) && final(r)@ == old(r)@.skip(n as int),
                    None => res == Err::<EntityStatus, Error>(
                        Error::Format(FormatError::UnknownDiscriminant { name: "EntityStatus", value: d as i64 }),
                    ),
                },
                None => res == Err::<EntityStatus, Error>(
                    field_error("EntityStatus", "discriminant", <i8 as Decoder>::parse_error(old(r)@)),
                ),
            },
    {
        let d = read_field::<i8>(r, "EntityStatus", "discriminant")?;
        if d == 1 {
            Ok(EntityStatus::ResetMobSpawnMinecartTimerOrRabbitJumpAnimation)
        } else if d == 2 {
            Ok(EntityStatus::LivingEntityHurt)
        } else if d == 3 {
            Ok(EntityStatus::LivingEntityDead)
        } else if d == 4 {
            Ok(EntityStatus::IronGolemThrowingUpArms)
        } else if d == 6 {
            Ok(EntityStatus::TamingSpawnHeartParticles)
        } else if d == 7 {
            Ok(EntityStatus::TamingSpawnSmokeParticles)
        } else if d == 8 {
            Ok(EntityStatus::WolfShakingWater)
        } else if d == 9 {
            Ok(EntityStatus::PlayerEatingAcceptedByServer)
        } else if d == 10 {
            Ok(EntityStatus::SheepEatingGrassOrPlayTntIgniteSound)
        } else if d == 11 {
            Ok(EntityStatus::IronGolemHandingOverRose)
        } else if d == 12 {
            Ok(EntityStatus::VillagerMatingSpawnHeartParticles)
        } else if d == 13 {
            Ok(EntityStatus::SpawnAngryVillagerParticles)
        } else if d == 14 {
            Ok(EntityStatus::SpawnHappyVillagerParticles)
        } else if d == 15 {
            Ok(EntityStatus::WitchSpawnMagicParticles)
        } else if d == 16 {
            Ok(EntityStatus::PlayZombieConvertingIntoVillagerSound)
        } else if d == 17 {
            Ok(EntityStatus::FireWorkExploding)
        } else if d == 18 {
            Ok(EntityStatus::AnimalInLoveSpawnHeartParticles)
        } else if d == 19 {
            Ok(EntityStatus::ResetSquidRotation)
        } else if d == 20 {
            Ok(EntityStatus::SpawnExplosionParticle)
        } else if d == 21 {
            Ok(EntityStatus::PlayGuardianSound)
        } else if d == 22 {
            Ok(EntityStatus::EnableReducedDebugInfo)
        } else if d == 23 {
            Ok(EntityStatus::DisableReducedDebugInfo)
        } else {
            Err(Error::Format(FormatError::UnknownDiscriminant { name: "EntityStatus", value: d as i64 }))
        }
    }
}

impl DeepView for EntityStatus {
    type V = EntityStatus;

    open spec fn deep_view(&self) -> EntityStatus {
        *self
    }
}

impl Encoder for EntityStatus {
    open spec fn encodable(v: EntityStatus) -> bool {
        true
    }

    /// The variant's discriminant.
    open spec fn encoding(v: EntityStatus) -> Seq<u8> {
        <i8 as Encoder>::encoding(v.discriminant())
    }

    fn write_to(&self, w: &mut Vec<u8>) -> (r: Result<(), Error>) {
        let d: i8 = match self {
            EntityStatus::ResetMobSpawnMinecartTimerOrRabbitJumpAnimation => 1,
            EntityStatus::LivingEntityHurt => 2,
            EntityStatus::LivingEntityDead => 3,
            EntityStatus::IronGolemThrowingUpArms => 4,
            EntityStatus::TamingSpawnHeartParticles => 6,
            EntityStatus::TamingSpawnSmokeParticles => 7,
            EntityStatus::WolfShakingWater => 8,
            EntityStatus::PlayerEatingAcceptedByServer => 9,
            EntityStatus::SheepEatingGrassOrPlayTntIgniteSound => 10,
            EntityStatus::IronGolemHandingOverRose => 11,
            EntityStatus::VillagerMatingSpawnHeartParticles => 12,
            EntityStatus::SpawnAngryVillagerParticles => 13,
            EntityStatus::SpawnHappyVillagerParticles => 14,
            EntityStatus::WitchSpawnMagicParticles => 15,
            EntityStatus::PlayZombieConvertingIntoVillagerSound => 16,
            EntityStatus::FireWorkExploding => 17,
            EntityStatus::AnimalInLoveSpawnHeartParticles => 18,
            EntityStatus::ResetSquidRotation => 19,
            EntityStatus::SpawnExplosionParticle => 20,
            EntityStatus::PlayGuardianSound => 21,
            EntityStatus::EnableReducedDebugInfo => 22,
            EntityStatus::DisableReducedDebugInfo => 23,
        };
        d.write_to(w)
    }
}

impl Decoder for EntityStatus {
    open spec fn parse(b: Seq<u8>) -> Option<(EntityStatus, nat)> {
        match <i8 as Decoder>::parse(b) {
            Some((d, n)) => match EntityStatus::from_discriminant(d) {
                Some(v) => Some((v, n)),
                None => None,
            },
            None => None,
        }
    }

    /// The discriminant's error, or an unknown discriminant naming the enum.
    open spec fn parse_error(b: Seq<u8>) -> Error {
        match <i8 as Decoder>::parse(b) {
            None => field_error("EntityStatus", "discriminant", <i8 as Decoder>::parse_error(b)),
            Some((d, _)) => Error::Format(FormatError::UnknownDiscriminant { name: "EntityStatus", value: d as i64 }),
        }
    }

    fn read_from(r: &mut Reader) -> (res: Result<EntityStatus, Error>) {
        EntityStatus::read_variant(r)
    }
}

impl Codec for EntityStatus {
    open spec fn wire_valid(v: EntityStatus) -> bool {
        true
    }

    proof fn lemma_round_trip(v: EntityStatus, rest: Seq<u8>) {
        <i8 as Codec>::lemma_round_trip(v.discriminant(), rest);
    }
}

/// Clientbound, play: an entity plays an animation.
#[derive(Debug)]
pub struct Animation {
    pub eid: i32,
    pub animation: AnimationId,
}

impl DeepView for Animation {
    type V = (i32, AnimationId);

    open spec fn deep_view(&self) -> (i32, AnimationId) {
        (self.eid, self.animation.deep_view())
    }
}

impl Encoder for Animation {
    open spec fn encodable(v: (i32, AnimationId)) -> bool {
        <VarInt as Encoder>::encodable(v.0) && <AnimationId as Encoder>::encodable(v.1)
    }

    open spec fn encoding(v: (i32, AnimationId)) -> Seq<u8> {
        encoding2::<VarInt, AnimationId>(v.0, v.1)
    }

    fn write_to(&self, w: &mut Vec<u8>) -> (r: Result<(), Error>) {
        write2(w, &VarInt(self.eid), &self.animation)
    }
}

impl Decoder for Animation {
    open spec fn parse(b: Seq<u8>) -> Option<((i32, AnimationId), nat)> {
        match parse2::<VarInt, AnimationId>(b) {
            Some((a, b, k)) => Some(((a, b), k)),
            None => None,
        }
    }

    open spec fn parse_error(b: Seq<u8>) -> Error {
        parse2_error::<VarInt, AnimationId>(b, "Animation", "eid", "animation")
    }

    fn read_from(r: &mut Reader) -> (res: Result<Animation, Error>) {
        let (a, b) = read2::<VarInt, AnimationId>(r, "Animation", "eid", "animation")?;
        Ok(Animation { eid: a.0, animation: b })
    }
}

impl Codec for Animation {
    open spec fn wire_valid(v: (i32, AnimationId)) -> bool {
        <VarInt as Codec>::wire_valid(v.0) && <AnimationId as Codec>::wire_valid(v.1)
    }

    proof fn lemma_round_trip(v: (i32, AnimationId), rest: Seq<u8>) {
        lemma_round_trip2::<VarInt, AnimationId>(v.0, v.1, rest);
    }
}

impl Packet for Animation {
    open spec fn packet_id() -> i32 {
        0x0B
    }

    fn id() -> (r: VarInt) {
        VarInt(0x0B)
    }
}

/// Clientbound, play: an event happened to an entity.
#[derive(Debug)]
pub struct UpdateEntityStatus {
    pub eid: i32,
    pub status: EntityStatus,
}

impl DeepView for UpdateEntityStatus {
    type V = (i32, EntityStatus);

    open spec fn deep_view(&self) -> (i32, EntityStatus) {
        (self.eid.deep_view(), self.status.deep_view())
    }
}

impl Encoder for UpdateEntityStatus {
    open spec fn encodable(v: (i32, EntityStatus)) -> bool {
        <i32 as Encoder>::encodable(v.0) && <EntityStatus as Encoder>::encodable(v.1)
    }

    open spec fn encoding(v: (i32, EntityStatus)) -> Seq<u8> {
        encoding2::<i32, EntityStatus>(v.0, v.1)
    }

    fn write_to(&self, w: &mut Vec<u8>) -> (r: Result<(), Error>) {
        write2(w, &self.eid, &self.status)
    }
}

impl Decoder for UpdateEntityStatus {
    open spec fn parse(b: Seq<u8>) -> Option<((i32, EntityStatus), nat)> {
        match parse2::<i32, EntityStatus>(b) {
            Some((a, b, k)) => Some(((a, b), k)),
            None => None,
        }
    }

    open spec fn parse_error(b: Seq<u8>) -> Error {
        parse2_error::<i32, EntityStatus>(b, "UpdateEntityStatus", "eid", "status")
    }

    fn read_from(r: &mut Reader) -> (res: Result<UpdateEntityStatus, Error>) {
        let (a, b) = read2::<i32, EntityStatus>(r, "UpdateEntityStatus", "eid", "status")?;
        Ok(UpdateEntityStatus { eid: a, status: b })
    }
}

impl Codec for UpdateEntityStatus {
    open spec fn wire_valid(v: (i32, EntityStatus)) -> bool {
        <i32 as Codec>::wire_valid(v.0) && <EntityStatus as Codec>::wire_valid(v.1)
    }

    proof fn lemma_round_trip(v: (i32, EntityStatus), rest: Seq<u8>) {
        lemma_round_trip2::<i32, EntityStatus>(v.0, v.1, rest);
    }
}

impl Packet for UpdateEntityStatus {
    open spec fn packet_id() -> i32 {
        0x1A
    }

    fn id() -> (r: VarInt) {
        VarInt(0x1A)
    }
}

/// Clientbound, play: where an entity's head turns.
#[derive(Debug)]
pub struct EntityHeadLook {
    pub eid: i32,
    pub head_yaw: Angle,
}

impl DeepView for EntityHeadLook {
    type V = (i32, u8);

    open spec fn deep_view(&self) -> (i32, u8) {
        (self.eid, self.head_yaw.deep_view())
    }
}

impl Encoder for EntityHeadLook {
    open spec fn encodable(v: (i32, u8)) -> bool {
        <VarInt as Encoder>::encodable(v.0) && <Angle as Encoder>::encodable(v.1)
    }

    open spec fn encoding(v: (i32, u8)) -> Seq<u8> {
        encoding2::<VarInt, Angle>(v.0, v.1)
    }

    fn write_to(&self, w: &mut Vec<u8>) -> (r: Result<(), Error>) {
        write2(w, &VarInt(self.eid), &self.head_yaw)
    }
}

impl Decoder for EntityHeadLook {
    open spec fn parse(b: Seq<u8>) -> Option<((i32, u8), nat)> {
        match parse2::<VarInt, Angle>(b) {
            Some((a, b, k)) => Some(((a, b), k)),
            None => None,
        }
    }

    open spec fn parse_error(b: Seq<u8>) -> Error {
        parse2_error::<VarInt, Angle>(b, "EntityHeadLook", "eid", "head_yaw")
    }

    fn read_from(r: &mut Reader) -> (res: Result<EntityHeadLook, Error>) {
        let (a, b) = read2::<VarInt, Angle>(r, "EntityHeadLook", "eid", "head_yaw")?;
        Ok(EntityHeadLook { eid: a.0, head_yaw: b })
    }
}

impl Codec for EntityHeadLook {
    open spec fn wire_valid(v: (i32, u8)) -> bool {
        <VarInt as Codec>::wire_valid(v.0) && <Angle as Codec>::wire_valid(v.1)
    }

    proof fn lemma_round_trip(v: (i32, u8), rest: Seq<u8>) {
        lemma_round_trip2::<VarInt, Angle>(v.0, v.1, rest);
    }
}

impl Packet for EntityHeadLook {
    open spec fn packet_id() -> i32 {
        0x19
    }

    fn id() -> (r: VarInt) {
        VarInt(0x19)
    }
}

/// Clientbound, play: an entity turns.
#[derive(Debug)]
pub struct EntityLook {
    pub eid: i32,
    pub yaw: Angle,
    pub pitch: Angle,
    pub on_ground: bool,
}

impl DeepView for EntityLook {
    type V = (i32, u8, u8, bool);

    open spec fn deep_view(&self) -> (i32, u8, u8, bool) {
        (self.eid, self.yaw.deep_view(), self.pitch.deep_view(), self.on_ground.deep_view())
    }
}

impl Encoder for EntityLook {
    open spec fn encodable(v: (i32, u8, u8, bool)) -> bool {
        <VarInt as Encoder>::encodable(v.0) && <Angle as Encoder>::encodable(v.1) && <Angle as Encoder>::encodable(v.2) && <bool as Encoder>::encodable(v.3)
    }

    open spec fn encoding(v: (i32, u8, u8, bool)) -> Seq<u8> {
        encoding4::<VarInt, Angle, Angle, bool>(v.0, v.1, v.2, v.3)
    }

    fn write_to(&self, w: &mut Vec<u8>) -> (r: Result<(), Error>) {
        write4(w, &VarInt(self.eid), &self.yaw, &self.pitch, &self.on_ground)
    }
}

impl Decoder for EntityLook {
    open spec fn parse(b: Seq<u8>) -> Option<((i32, u8, u8, bool), nat)> {
        match parse4::<VarInt, Angle, Angle, bool>(b) {
            Some((a, b, c, d, k)) => Some(((a, b, c, d), k)),
            None => None,
        }
    }

    open spec fn parse_error(b: Seq<u8>) -> Error {
        parse4_error::<VarInt, Angle, Angle, bool>(b, "EntityLook", "eid", "yaw", "pitch", "on_ground")
    }

    fn read_from(r: &mut Reader) -> (res: Result<EntityLook, Error>) {
        let (a, b, c, d) = read4::<VarInt, Angle, Angle, bool>(r, "EntityLook", "eid", "yaw", "pitch", "on_ground")?;
        Ok(EntityLook { eid: a.0, yaw: b, pitch: c, on_ground: d })
    }
}

impl Codec for EntityLook {
    open spec fn wire_valid(v: (i32, u8, u8, bool)) -> bool {
        <VarInt as Codec>::wire_valid(v.0) && <Angle as Codec>::wire_valid(v.1) && <Angle as Codec>::wire_valid(v.2) && <bool as Codec>::wire_valid(v.3)
    }

    proof fn lemma_round_trip(v: (i32, u8, u8, bool), rest: Seq<u8>) {
        lemma_round_trip4::<VarInt, Angle, Angle, bool>(v.0, v.1, v.2, v.3, rest);
    }
}

impl Packet for EntityLook {
    open spec fn packet_id() -> i32 {
        0x16
    }

    fn id() -> (r: VarInt) {
        VarInt(0x16)
    }
}

/// Clientbound, play: entities that are gone.
#[derive(Debug)]
pub struct DestroyEntities {
    pub eids: VarIntPrefixedVec<VarInt>,
}

impl DeepView for DestroyEntities {
    type V = Seq<i32>;

    open spec fn deep_view(&self) -> Seq<i32> {
        self.eids.deep_view()
    }
}

impl Encoder for DestroyEntities {
    open spec fn encodable(v: Seq<i32>) -> bool {
        <VarIntPrefixedVec<VarInt> as Encoder>::encodable(v)
    }

    open spec fn encoding(v: Seq<i32>) -> Seq<u8> {
        <VarIntPrefixedVec<VarInt> as Encoder>::encoding(v)
    }

    fn write_to(&self, w: &mut Vec<u8>) -> (r: Result<(), Error>) {
        (&self.eids).write_to(w)
    }
}

impl Decoder for DestroyEntities {
    open spec fn parse(b: Seq<u8>) -> Option<(Seq<i32>, nat)> {
        <VarIntPrefixedVec<VarInt> as Decoder>::parse(b)
    }

    open spec fn parse_error(b: Seq<u8>) -> Error {
        field_error("DestroyEntities", "eids", <VarIntPrefixedVec<VarInt> as Decoder>::parse_error(b))
    }

    fn read_from(r: &mut Reader) -> (res: Result<DestroyEntities, Error>) {
        let a = read_field::<VarIntPrefixedVec<VarInt>>(r, "DestroyEntities", "eids")?;
        Ok(DestroyEntities { eids: a })
    }
}

impl Codec for DestroyEntities {
    open spec fn wire_valid(v: Seq<i32>) -> bool {
        <VarIntPrefixedVec<VarInt> as Codec>::wire_valid(v)
    }

    proof fn lemma_round_trip(v: Seq<i32>, rest: Seq<u8>) {
        <VarIntPrefixedVec<VarInt> as Codec>::lemma_round_trip(v, rest);
    }
}

impl Packet for DestroyEntities {
    open spec fn packet_id() -> i32 {
        0x13
    }

    fn id() -> (r: VarInt) {
        VarInt(0x13)
    }
}


/// The velocity of a spawned object, on each axis.
#[derive(Debug, Clone, Copy, PartialEq, Eq, Structural)]
pub struct SpawnObjectVelocity {
    pub x: i16,
    pub y: i16,
    pub z: i16,
}

impl DeepView for SpawnObjectVelocity {
    type V = (i16, i16, i16);

    open spec fn deep_view(&self) -> (i16, i16, i16) {
        (self.x.deep_view(), self.y.deep_view(), self.z.deep_view())
    }
}

impl Encoder for SpawnObjectVelocity {
    open spec fn encodable(v: (i16, i16, i16)) -> bool {
        <i16 as Encoder>::encodable(v.0) && <i16 as Encoder>::encodable(v.1) && <i16 as Encoder>::encodable(v.2)
    }

    open spec fn encoding(v: (i16, i16, i16)) -> Seq<u8> {
        encoding3::<i16, i16, i16>(v.0, v.1, v.2)
    }

    fn write_to(&self, w: &mut Vec<u8>) -> (r: Result<(), Error>) {
        write3(w, &self.x, &self.y, &self.z)
    }
}

impl Decoder for SpawnObjectVelocity {
    open spec fn parse(b: Seq<u8>) -> Option<((i16, i16, i16), nat)> {
        match parse3::<i16, i16, i16>(b) {
            Some((a, b, c, k)) => Some(((a, b, c), k)),
            None => None,
        }
    }

    open spec fn parse_error(b: Seq<u8>) -> Error {
        parse3_error::<i16, i16, i16>(b, "SpawnObjectVelocity", "x", "y", "z")
    }

    fn read_from(r: &mut Reader) -> (res: Result<SpawnObjectVelocity, Error>) {
        let (a, b, c) = read3::<i16, i16, i16>(r, "SpawnObjectVelocity", "x", "y", "z")?;
        Ok(SpawnObjectVelocity { x: a, y: b, z: c })
    }
}

impl Codec for SpawnObjectVelocity {
    open spec fn wire_valid(v: (i16, i16, i16)) -> bool {
        <i16 as Codec>::wire_valid(v.0) && <i16 as Codec>::wire_valid(v.1) && <i16 as Codec>::wire_valid(v.2)
    }

    proof fn lemma_round_trip(v: (i16, i16, i16), rest: Seq<u8>) {
        lemma_round_trip3::<i16, i16, i16>(v.0, v.1, v.2, rest);
    }
}


/// The data of a spawned object, with its velocity when the data is not 0.
#[derive(Debug, Clone, Copy, PartialEq, Eq)]
pub struct SpawnObjectInner {
    pub data: i32,
    pub velocity: Option<SpawnObjectVelocity>,
}

impl DeepView for SpawnObjectInner {
    type V = (i32, Option<(i16, i16, i16)>);

    open spec fn deep_view(&self) -> (i32, Option<(i16, i16, i16)>) {
        (self.data, self.velocity.deep_view())
    }
}

impl Encoder for SpawnObjectInner {
    /// A velocity is present whenever the data is not 0.
    open spec fn encodable(v: (i32, Option<(i16, i16, i16)>)) -> bool {
        v.0 != 0 ==> v.1 is Some
    }

    /// The data, then the velocity when the data is not 0.
    open spec fn encoding(v: (i32, Option<(i16, i16, i16)>)) -> Seq<u8> {
        match v.1 {
            Some(vel) => if v.0 != 0 {
                <i32 as Encoder>::encoding(v.0) + SpawnObjectVelocity::encoding(vel)
            } else {
                <i32 as Encoder>::encoding(v.0)
            },
            None => <i32 as Encoder>::encoding(v.0),
        }
    }

    fn write_to(&self, w: &mut Vec<u8>) -> (r: Result<(), Error>) {
        self.data.write_to(w)?;
        if self.data != 0 {
            let ghost mid = w@;
            match &self.velocity {
                Some(v) => {
                    v.write_to(w)?;
                    assert(w@ =~= old(w)@ + Self::encoding(self.deep_view()));
                },
                None => {
                    return Err(Error::Format(FormatError::MissingField { container: "SpawnObjectInner", field: "velocity" }));
                },
            }
        }
        Ok(())
    }
}

impl Decoder for SpawnObjectInner {
    open spec fn parse(b: Seq<u8>) -> Option<((i32, Option<(i16, i16, i16)>), nat)> {
        match <i32 as Decoder>::parse(b) {
            None => None,
            Some((d, k)) => if d == 0 {
                Some(((d, None), k))
            } else {
                match SpawnObjectVelocity::parse(b.skip(k as int)) {
                    None => None,
                    Some((vel, j)) => Some(((d, Some(vel)), k + j)),
                }
            },
        }
    }

    /// The error of the first field that fails.
    open spec fn parse_error(b: Seq<u8>) -> Error {
        match <i32 as Decoder>::parse(b) {
            None => field_error("SpawnObjectInner", "data", <i32 as Decoder>::parse_error(b)),
            Some((_, k)) => field_error(
                "SpawnObjectInner",
                "velocity",
                SpawnObjectVelocity::parse_error(b.skip(k as int)),
            ),
        }
    }

    fn read_from(r: &mut Reader) -> (res: Result<SpawnObjectInner, Error>) {
        let ghost b = r@;
        let data = read_field::<i32>(r, "SpawnObjectInner", "data")?;
        if data == 0 {
            return Ok(SpawnObjectInner { data, velocity: None });
        }
        let ghost k = (b.len() - r@.len()) as nat;
        let v = read_field::<SpawnObjectVelocity>(r, "SpawnObjectInner", "velocity")?;
        assert(r@ =~= b.skip((k + (b.skip(k as int).len() - r@.len())) as int));
        Ok(SpawnObjectInner { data, velocity: Some(v) })
    }
}

impl Codec for SpawnObjectInner {
    /// A velocity is present exactly when the data is not 0.
    open spec fn wire_valid(v: (i32, Option<(i16, i16, i16)>)) -> bool {
        v.0 != 0 <==> v.1 is Some
    }

    proof fn lemma_round_trip(v: (i32, Option<(i16, i16, i16)>), rest: Seq<u8>) {
        match v.1 {
            Some(vel) => {
                let t = SpawnObjectVelocity::encoding(vel) + rest;
                <i32 as Codec>::lemma_round_trip(v.0, t);
                SpawnObjectVelocity::lemma_round_trip(vel, rest);
                assert(Self::encoding(v) + rest =~= <i32 as Encoder>::encoding(v.0) + t);
                assert((Self::encoding(v) + rest).skip(<i32 as Encoder>::encoding(v.0).len() as int) =~= t);
            },
            None => {
                <i32 as Codec>::lemma_round_trip(v.0, rest);
            },
        }
    }
}

} // verus!
