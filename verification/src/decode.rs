//! Wire-format packet codec: pure parsing and serialization between
//! datagram bytes and typed packets.  No I/O, no state.
//!
//! Every datagram is one packet: a two-byte big-endian opcode (high byte
//! zero) followed by an opcode-specific body.  Block numbers and error
//! codes are big-endian 16-bit fields; text fields are NUL-terminated and
//! decoded leniently, so a malformed-but-framed request never fails on
//! bad character data.
use vstd::prelude::*;

use vstd::string::StringSliceAdditionalSpecFns;
use vstd::utf8::decode_utf8;
use vstd::utf8::encode_scalar;
use vstd::utf8::encode_utf8;
use vstd::utf8::valid_utf8;

verus! {

/// Whether a request asks to read or to write the named file.
#[derive(Clone, Copy, Debug, PartialEq, Eq, Structural)]
pub enum AccessType {
    Read,
    Write,
}

/// A parsed read or write request: which access is asked for, the file
/// to transfer, and the transfer mode.
#[derive(Clone, Debug, PartialEq)]
pub struct Request {
    access: AccessType,
    filename: String,
    mode: String,
}

/// Ghost image of a `Request`.
#[verifier::ext_equal]
pub struct RequestV {
    pub access: AccessType,
    pub filename: Seq<char>,
    pub mode: Seq<char>,
}

impl View for Request {
    type V = RequestV;

    closed spec fn view(&self) -> RequestV {
        RequestV { access: self.access, filename: self.filename@, mode: self.mode@ }
    }
}

impl Request {
    pub fn new(access: AccessType, filename: String, mode: String) -> (r: Request)
        ensures
            r@ == (RequestV { access, filename: filename@, mode: mode@ }),
    {
        Request { access, filename, mode }
    }

    /// Which access the request asks for.
    pub fn access_type(&self) -> (r: AccessType)
        ensures
            r == self@.access,
    {
        self.access
    }

    /// The name of the file the request refers to.
    pub fn filename(&self) -> (r: &String)
        ensures
            r@ == self@.filename,
    {
        &self.filename
    }

    /// The transfer mode named by the request.
    pub fn mode(&self) -> (r: &String)
        ensures
            r@ == self@.mode,
    {
        &self.mode
    }
}

/// One block-sized piece of file content, paired with its wire number.
#[derive(Clone, Debug, PartialEq)]
pub struct Block {
    pub block_num: u16,
    pub bytes: Vec<u8>,
}

/// Ghost image of a `Block`.
#[verifier::ext_equal]
pub struct BlockV {
    pub block_num: u16,
    pub bytes: Seq<u8>,
}

impl View for Block {
    type V = BlockV;

    open spec fn view(&self) -> BlockV {
        BlockV { block_num: self.block_num, bytes: self.bytes@ }
    }
}

/// A block-level message: the subtype of packet a transfer in progress
/// exchanges after the request has been accepted.
#[derive(Clone, Debug, PartialEq)]
pub enum Data {
    Data(Block),
    Ack(u16),
}

/// Ghost image of a `Data`.
#[verifier::ext_equal]
pub enum DataV {
    Data(BlockV),
    Ack(u16),
}

impl View for Data {
    type V = DataV;

    open spec fn view(&self) -> DataV {
        match self {
            Data::Data(b) => DataV::Data(b@),
            Data::Ack(n) => DataV::Ack(*n),
        }
    }
}

/// A typed packet: exactly one per datagram, in either direction.
#[derive(Clone, Debug, PartialEq)]
pub enum Packet {
    /// Opcode 1: ask to read `filename`.
    ReadRequest { filename: String, mode: String },
    /// Opcode 2: ask to write `filename`.
    WriteRequest { filename: String, mode: String },
    /// Opcode 3: one block of file content; a payload shorter than 512
    /// bytes marks the final block of a transfer.
    Data { block_num: u16, payload: Vec<u8> },
    /// Opcode 4: acknowledges the block with the same number.
    Ack { block_num: u16 },
    /// Opcode 5: the peer reports an application error; always terminal
    /// for the session that receives it.
    ErrorPacket { code: u16, message: String },
}

/// Ghost image of a `Packet`.
#[verifier::ext_equal]
pub enum PacketV {
    ReadRequest { filename: Seq<char>, mode: Seq<char> },
    WriteRequest { filename: Seq<char>, mode: Seq<char> },
    Data { block_num: u16, payload: Seq<u8> },
    Ack { block_num: u16 },
    ErrorPacket { code: u16, message: Seq<char> },
}

impl View for Packet {
    type V = PacketV;

    open spec fn view(&self) -> PacketV {
        match self {
            Packet::ReadRequest { filename, mode } => PacketV::ReadRequest {
                filename: filename@,
                mode: mode@,
            },
            Packet::WriteRequest { filename, mode } => PacketV::WriteRequest {
                filename: filename@,
                mode: mode@,
            },
            Packet::Data { block_num, payload } => PacketV::Data {
                block_num: *block_num,
                payload: payload@,
            },
            Packet::Ack { block_num } => PacketV::Ack { block_num: *block_num },
            Packet::ErrorPacket { code, message } => PacketV::ErrorPacket {
                code: *code,
                message: message@,
            },
        }
    }
}

/// Why a datagram could not be parsed, or a packet not narrowed to the
/// subtype a caller expected.
#[derive(Clone, Debug, PartialEq)]
pub enum Error {
    /// The datagram ends before the fields its opcode requires.
    Truncated,
    /// A NUL delimiter required after a text field is absent.
    MissingDelimiter,
    /// The leading two bytes name no known packet kind.
    UnknownOpcode,
    /// A well-formed packet of a subtype the caller did not expect,
    /// carried for diagnostics.
    UnexpectedPacket(Packet),
}

/// Ghost image of an `Error`.
#[verifier::ext_equal]
pub enum ErrorV {
    Truncated,
    MissingDelimiter,
    UnknownOpcode,
    UnexpectedPacket(PacketV),
}

impl View for Error {
    type V = ErrorV;

    open spec fn view(&self) -> ErrorV {
        match self {
            Error::Truncated => ErrorV::Truncated,
            Error::MissingDelimiter => ErrorV::MissingDelimiter,
            Error::UnknownOpcode => ErrorV::UnknownOpcode,
            Error::UnexpectedPacket(p) => ErrorV::UnexpectedPacket(p@),
        }
    }
}

/// Ghost image of a parse result.
pub open spec fn parsed_view(r: Result<Packet, Error>) -> Result<PacketV, ErrorV> {
    match r {
        Ok(p) => Ok(p@),
        Err(e) => Err(e@),
    }
}

/// The index of the first NUL byte, if any.
pub open spec fn find_nul(s: Seq<u8>) -> Option<int>
    decreases s.len(),
{
    if s.len() == 0 {
        None
    } else if s[0] == 0 {
        Some(0int)
    } else {
        match find_nul(s.drop_first()) {
            None => None,
            Some(i) => Some(i + 1),
        }
    }
}

/// `find_nul` returns the first NUL: the byte there is NUL and none
/// before it is; when it returns nothing, no byte is NUL.
pub proof fn lemma_find_nul(s: Seq<u8>)
    ensures
        match find_nul(s) {
            Some(i) => 0 <= i < s.len() && s[i] == 0 && (forall|j: int| 0 <= j < i ==> s[j] != 0),
            None => forall|j: int| 0 <= j < s.len() ==> s[j] != 0,
        },
    decreases s.len(),
{
    if s.len() == 0 {
    } else if s[0] == 0 {
    } else {
        let t = s.drop_first();
        lemma_find_nul(t);
        match find_nul(t) {
            Some(i) => {
                assert(s[i + 1] == t[i]);
                assert forall|j: int| 0 <= j < i + 1 implies s[j] != 0 by {
                    if j > 0 {
                        assert(s[j] == t[j - 1]);
                    }
                }
            },
            None => {
                assert forall|j: int| 0 <= j < s.len() implies s[j] != 0 by {
                    if j > 0 {
                        assert(s[j] == t[j - 1]);
                    }
                }
            },
        }
    }
}

/// A position that holds a NUL with none before it is what `find_nul`
/// returns.
pub proof fn lemma_find_nul_at(s: Seq<u8>, i: int)
    requires
        0 <= i < s.len(),
        s[i] == 0,
        forall|j: int| 0 <= j < i ==> s[j] != 0,
    ensures
        find_nul(s) == Some(i),
    decreases s.len(),
{
    if i == 0 {
    } else {
        let t = s.drop_first();
        assert(t[i - 1] == s[i]);
        assert forall|j: int| 0 <= j < i - 1 implies t[j] != 0 by {
            assert(t[j] == s[j + 1]);
        }
        lemma_find_nul_at(t, i - 1);
    }
}

/// The characters a text field's bytes stand for, where the bytes are
/// not valid UTF-8: what lossy decoding yields.  The result depends on
/// the bytes alone; nothing further is assumed of it.
pub uninterp spec fn lossy_of(b: Seq<u8>) -> Seq<char>;

/// The characters a text field's bytes stand for: exact UTF-8 decoding
/// where the bytes are valid, lossy substitution where they are not.
pub open spec fn text_of(b: Seq<u8>) -> Seq<char> {
    if valid_utf8(b) {
        decode_utf8(b)
    } else {
        lossy_of(b)
    }
}

/// Relies on `String::from_utf8_lossy`: on valid UTF-8 it returns
/// exactly the decoded characters (the standard library documents that
/// valid input passes through unchanged); on invalid input it replaces
/// ill-formed sequences by U+FFFD, a result that depends on the bytes
/// alone and is left abstract here.
#[verifier::external_body]
fn lossy_string(b: &[u8]) -> (r: String)
    ensures
        r@ == text_of(b@),
        !valid_utf8(b@) ==> r@ == lossy_of(b@),
{
    String::from_utf8_lossy(b).into_owned()
}

/// A 16-bit big-endian field.
pub open spec fn u16_be(hi: u8, lo: u8) -> u16 {
    (hi as int * 256 + lo as int) as u16
}

/// What a request body (the bytes after the opcode) parses to: two
/// NUL-terminated text fields, filename then mode; bytes after the
/// second NUL are discarded.
pub open spec fn request_spec(body: Seq<u8>, access: AccessType) -> Result<PacketV, ErrorV> {
    match find_nul(body) {
        None => Err(ErrorV::MissingDelimiter),
        Some(i) => {
            let filename = text_of(body.take(i));
            let rest = body.skip(i + 1);
            match find_nul(rest) {
                None => Err(ErrorV::MissingDelimiter),
                Some(j) => {
                    let mode = text_of(rest.take(j));
                    if access == AccessType::Read {
                        Ok(PacketV::ReadRequest { filename, mode })
                    } else {
                        Ok(PacketV::WriteRequest { filename, mode })
                    }
                },
            }
        },
    }
}

/// What a data body parses to: a block number and the whole remainder
/// of the datagram as payload.
pub open spec fn data_spec(body: Seq<u8>) -> Result<PacketV, ErrorV> {
    if body.len() < 2 {
        Err(ErrorV::Truncated)
    } else {
        Ok(PacketV::Data { block_num: u16_be(body[0], body[1]), payload: body.skip(2) })
    }
}

/// What an ack body parses to: a block number; trailing bytes are
/// discarded.
pub open spec fn ack_spec(body: Seq<u8>) -> Result<PacketV, ErrorV> {
    if body.len() < 2 {
        Err(ErrorV::Truncated)
    } else {
        Ok(PacketV::Ack { block_num: u16_be(body[0], body[1]) })
    }
}

/// What an error body parses to: a code and a NUL-terminated message;
/// trailing bytes are discarded.
pub open spec fn error_spec(body: Seq<u8>) -> Result<PacketV, ErrorV> {
    if body.len() < 2 {
        Err(ErrorV::Truncated)
    } else {
        match find_nul(body.skip(2)) {
            None => Err(ErrorV::MissingDelimiter),
            Some(i) => Ok(PacketV::ErrorPacket {
                code: u16_be(body[0], body[1]),
                message: text_of(body.skip(2).take(i)),
            }),
        }
    }
}

/// What a whole datagram parses to.  Two bytes or fewer cannot frame a
/// packet; the first two bytes, read big-endian, select the kind, so a
/// nonzero high byte always falls outside the known opcodes.
pub open spec fn decode_spec(d: Seq<u8>) -> Result<PacketV, ErrorV> {
    if d.len() <= 2 {
        Err(ErrorV::Truncated)
    } else if d[0] != 0 {
        Err(ErrorV::UnknownOpcode)
    } else if d[1] == 1 {
        request_spec(d.skip(2), AccessType::Read)
    } else if d[1] == 2 {
        request_spec(d.skip(2), AccessType::Write)
    } else if d[1] == 3 {
        data_spec(d.skip(2))
    } else if d[1] == 4 {
        ack_spec(d.skip(2))
    } else if d[1] == 5 {
        error_spec(d.skip(2))
    } else {
        Err(ErrorV::UnknownOpcode)
    }
}

/// True when a text field can be framed on the wire: it holds no NUL,
/// which the wire reserves as the field delimiter.
pub open spec fn text_ok(s: Seq<char>) -> bool {
    forall|i: int| 0 <= i < s.len() ==> s[i] != '\0'
}

/// True when every text field of the packet can be framed on the wire.
pub open spec fn packet_wf(p: PacketV) -> bool {
    match p {
        PacketV::ReadRequest { filename, mode } => text_ok(filename) && text_ok(mode),
        PacketV::WriteRequest { filename, mode } => text_ok(filename) && text_ok(mode),
        PacketV::Data { block_num, payload } => true,
        PacketV::Ack { block_num } => true,
        PacketV::ErrorPacket { code, message } => text_ok(message),
    }
}

/// The high byte of a 16-bit big-endian field.
pub open spec fn be_hi(n: u16) -> u8 {
    (n / 256) as u8
}

/// The low byte of a 16-bit big-endian field.
pub open spec fn be_lo(n: u16) -> u8 {
    (n % 256) as u8
}

/// The exact datagram that frames a packet: opcode, fixed fields, text
/// fields in UTF-8 each followed by a NUL, payload bytes verbatim.
pub open spec fn encode_spec(p: PacketV) -> Seq<u8> {
    match p {
        PacketV::ReadRequest { filename, mode } => seq![0u8, 1u8] + encode_utf8(filename)
            + seq![0u8] + encode_utf8(mode) + seq![0u8],
        PacketV::WriteRequest { filename, mode } => seq![0u8, 2u8] + encode_utf8(filename)
            + seq![0u8] + encode_utf8(mode) + seq![0u8],
        PacketV::Data { block_num, payload } => seq![0u8, 3u8, be_hi(block_num), be_lo(block_num)]
            + payload,
        PacketV::Ack { block_num } => seq![0u8, 4u8, be_hi(block_num), be_lo(block_num)],
        PacketV::ErrorPacket { code, message } => seq![0u8, 5u8, be_hi(code), be_lo(code)]
            + encode_utf8(message) + seq![0u8],
    }
}

/// Splitting a 16-bit field into bytes and reading them back is the
/// identity.
pub proof fn lemma_be_round_trip(n: u16)
    ensures
        u16_be(be_hi(n), be_lo(n)) == n,
{
    assert(n / 256 * 256 + n % 256 == n) by (nonlinear_arith);
}

/// The UTF-8 encoding of a nonzero scalar contains no NUL byte.
proof fn lemma_encode_scalar_no_nul(c: u32)
    requires
        vstd::utf8::is_scalar(c),
        c != 0,
    ensures
        forall|i: int| 0 <= i < encode_scalar(c).len() ==> encode_scalar(c)[i] != 0,
{
    if vstd::utf8::has_width_1_encoding(c) {
        assert(c <= 0x7F && c != 0 ==> (c & 0x7F) as u8 != 0) by (bit_vector);
    } else if vstd::utf8::has_width_2_encoding(c) {
        assert((0xC0u8 | ((c >> 6) & 0x1F) as u8) != 0) by (bit_vector);
        assert((0x80u8 | (c & 0x3F) as u8) != 0) by (bit_vector);
    } else if vstd::utf8::has_width_3_encoding(c) {
        assert((0xE0u8 | ((c >> 12) & 0x0F) as u8) != 0) by (bit_vector);
        assert((0x80u8 | ((c >> 6) & 0x3F) as u8) != 0) by (bit_vector);
        assert((0x80u8 | (c & 0x3F) as u8) != 0) by (bit_vector);
    } else {
        assert((0xF0u8 | ((c >> 18) & 0x7) as u8) != 0) by (bit_vector);
        assert((0x80u8 | ((c >> 12) & 0x3F) as u8) != 0) by (bit_vector);
        assert((0x80u8 | ((c >> 6) & 0x3F) as u8) != 0) by (bit_vector);
        assert((0x80u8 | (c & 0x3F) as u8) != 0) by (bit_vector);
    }
}

/// The UTF-8 encoding of a text field without NUL characters contains
/// no NUL byte.
pub proof fn lemma_encode_utf8_no_nul(s: Seq<char>)
    requires
        text_ok(s),
    ensures
        forall|i: int| 0 <= i < encode_utf8(s).len() ==> encode_utf8(s)[i] != 0,
    decreases s.len(),
{
    if s.len() > 0 {
        let c = s[0] as u32;
        vstd::utf8::char_is_scalar(s[0]);
        if c == 0 {
            assert('\0' as u32 == 0);
            vstd::utf8::char_u32_cast(s[0], 0);
            vstd::utf8::char_u32_cast('\0', 0);
            assert(false);
        }
        lemma_encode_scalar_no_nul(c);
        assert(text_ok(s.drop_first())) by {
            assert(forall|i: int| 0 <= i < s.len() - 1 ==> s.drop_first()[i] == s[i + 1]);
        }
        lemma_encode_utf8_no_nul(s.drop_first());
        assert forall|i: int| 0 <= i < encode_utf8(s).len() implies encode_utf8(s)[i] != 0 by {
            let head = encode_scalar(c);
            if i < head.len() {
                assert(encode_utf8(s)[i] == head[i]);
            } else {
                assert(encode_utf8(s)[i] == encode_utf8(s.drop_first())[i - head.len()]);
            }
        }
    }
}

/// Appends the bytes of a slice to a vector.
fn push_bytes(v: &mut Vec<u8>, b: &[u8])
    ensures
        final(v)@ == old(v)@ + b@,
{
    let mut k: usize = 0;
    while k < b.len()
        invariant
            k <= b@.len(),
            v@ == old(v)@ + b@.take(k as int),
        decreases b@.len() - k,
    {
        v.push(b[k]);
        proof {
            assert(old(v)@ + b@.take(k as int) + seq![b@[k as int]] =~= old(v)@ + b@.take(
                k + 1,
            ));
        }
        k = k + 1;
    }
    proof {
        assert(b@.take(b@.len() as int) =~= b@);
    }
}

/// Appends a 16-bit field in big-endian order.
fn push_u16(v: &mut Vec<u8>, n: u16)
    ensures
        final(v)@ == old(v)@ + seq![be_hi(n), be_lo(n)],
{
    v.push((n / 256) as u8);
    v.push((n % 256) as u8);
    proof {
        assert(old(v)@.push(be_hi(n)).push(be_lo(n)) =~= old(v)@ + seq![be_hi(n), be_lo(n)]);
    }
}

/// Appends a text field in UTF-8 followed by its NUL delimiter, and
/// carries the facts decoding needs: the field's bytes are valid UTF-8,
/// decode back to the same characters, and (when the field holds no
/// NUL character) contain no NUL byte.
fn push_text(v: &mut Vec<u8>, s: &String)
    ensures
        final(v)@ == old(v)@ + encode_utf8(s@) + seq![0u8],
        valid_utf8(encode_utf8(s@)),
        text_of(encode_utf8(s@)) == s@,
        text_ok(s@) ==> forall|i: int|
            0 <= i < encode_utf8(s@).len() ==> encode_utf8(s@)[i] != 0,
{
    push_bytes(v, s.as_str().as_bytes());
    v.push(0);
    proof {
        vstd::utf8::encode_utf8_valid_utf8(s@);
        vstd::utf8::encode_utf8_decode_utf8(s@);
        if text_ok(s@) {
            lemma_encode_utf8_no_nul(s@);
        }
        assert((old(v)@ + encode_utf8(s@)).push(0u8) =~= old(v)@ + encode_utf8(s@) + seq![0u8]);
    }
}

/// Decoding a framed request body finds the two NUL delimiters exactly
/// where encoding put them.
proof fn lemma_request_decode(d: Seq<u8>, f: Seq<char>, m: Seq<char>, op: u8)
    requires
        op == 1 || op == 2,
        d == seq![0u8, op] + encode_utf8(f) + seq![0u8] + encode_utf8(m) + seq![0u8],
        text_ok(f),
        text_ok(m),
    ensures
        decode_spec(d) == Ok::<PacketV, ErrorV>(
            if op == 1 {
                PacketV::ReadRequest { filename: f, mode: m }
            } else {
                PacketV::WriteRequest { filename: f, mode: m }
            },
        ),
{
    let fb = encode_utf8(f);
    let mb = encode_utf8(m);
    vstd::utf8::encode_utf8_valid_utf8(f);
    vstd::utf8::encode_utf8_valid_utf8(m);
    vstd::utf8::encode_utf8_decode_utf8(f);
    vstd::utf8::encode_utf8_decode_utf8(m);
    lemma_encode_utf8_no_nul(f);
    lemma_encode_utf8_no_nul(m);
    let body = d.skip(2);
    assert(body =~= fb + seq![0u8] + mb + seq![0u8]);
    assert(body[fb.len() as int] == 0);
    assert forall|j: int| 0 <= j < fb.len() implies body[j] != 0 by {
        assert(body[j] == fb[j]);
    }
    lemma_find_nul_at(body, fb.len() as int);
    assert(body.take(fb.len() as int) =~= fb);
    let rest = body.skip(fb.len() as int + 1);
    assert(rest =~= mb + seq![0u8]);
    assert(rest[mb.len() as int] == 0);
    assert forall|j: int| 0 <= j < mb.len() implies rest[j] != 0 by {
        assert(rest[j] == mb[j]);
    }
    lemma_find_nul_at(rest, mb.len() as int);
    assert(rest.take(mb.len() as int) =~= mb);
    assert(text_of(fb) == f);
    assert(text_of(mb) == m);
    assert(d.len() > 2 && d[0] == 0 && d[1] == op);
}

/// Decoding a framed data body reads back the block number and the
/// whole payload.
proof fn lemma_data_decode(d: Seq<u8>, n: u16, payload: Seq<u8>)
    requires
        d == seq![0u8, 3u8, be_hi(n), be_lo(n)] + payload,
    ensures
        decode_spec(d) == Ok::<PacketV, ErrorV>(PacketV::Data { block_num: n, payload }),
{
    lemma_be_round_trip(n);
    let body = d.skip(2);
    assert(body =~= seq![be_hi(n), be_lo(n)] + payload);
    assert(body.skip(2) =~= payload);
}

/// Decoding a framed ack body reads back the block number.
proof fn lemma_ack_decode(d: Seq<u8>, n: u16)
    requires
        d == seq![0u8, 4u8, be_hi(n), be_lo(n)],
    ensures
        decode_spec(d) == Ok::<PacketV, ErrorV>(PacketV::Ack { block_num: n }),
{
    lemma_be_round_trip(n);
    let body = d.skip(2);
    assert(body =~= seq![be_hi(n), be_lo(n)]);
}

/// Decoding a framed error body reads back the code and the message.
proof fn lemma_error_decode(d: Seq<u8>, code: u16, m: Seq<char>)
    requires
        d == seq![0u8, 5u8, be_hi(code), be_lo(code)] + encode_utf8(m) + seq![0u8],
        text_ok(m),
    ensures
        decode_spec(d) == Ok::<PacketV, ErrorV>(PacketV::ErrorPacket { code, message: m }),
{
    lemma_be_round_trip(code);
    let mb = encode_utf8(m);
    vstd::utf8::encode_utf8_valid_utf8(m);
    vstd::utf8::encode_utf8_decode_utf8(m);
    lemma_encode_utf8_no_nul(m);
    let body = d.skip(2);
    assert(body =~= seq![be_hi(code), be_lo(code)] + mb + seq![0u8]);
    let msg = body.skip(2);
    assert(msg =~= mb + seq![0u8]);
    assert(msg[mb.len() as int] == 0);
    assert forall|j: int| 0 <= j < mb.len() implies msg[j] != 0 by {
        assert(msg[j] == mb[j]);
    }
    lemma_find_nul_at(msg, mb.len() as int);
    assert(msg.take(mb.len() as int) =~= mb);
    assert(text_of(mb) == m);
}

/// Round trip: decoding the encoding of any well-formed packet yields
/// exactly that packet, for every constructible packet value.
pub proof fn lemma_round_trip(p: PacketV)
    requires
        packet_wf(p),
    ensures
        decode_spec(encode_spec(p)) == Ok::<PacketV, ErrorV>(p),
{
    match p {
        PacketV::ReadRequest { filename, mode } => {
            lemma_request_decode(encode_spec(p), filename, mode, 1);
        },
        PacketV::WriteRequest { filename, mode } => {
            lemma_request_decode(encode_spec(p), filename, mode, 2);
        },
        PacketV::Data { block_num, payload } => {
            lemma_data_decode(encode_spec(p), block_num, payload);
        },
        PacketV::Ack { block_num } => {
            lemma_ack_decode(encode_spec(p), block_num);
        },
        PacketV::ErrorPacket { code, message } => {
            lemma_error_decode(encode_spec(p), code, message);
        },
    }
}

/// Encode and decode preserve every 16-bit block number exactly, both
/// in acknowledgements and in data blocks, whatever the payload.
pub proof fn lemma_block_num_round_trip(n: u16, payload: Seq<u8>)
    ensures
        decode_spec(encode_spec(PacketV::Ack { block_num: n })) == Ok::<PacketV, ErrorV>(
            PacketV::Ack { block_num: n },
        ),
        decode_spec(encode_spec(PacketV::Data { block_num: n, payload })) == Ok::<
            PacketV,
            ErrorV,
        >(PacketV::Data { block_num: n, payload }),
{
    lemma_ack_decode(encode_spec(PacketV::Ack { block_num: n }), n);
    lemma_data_decode(encode_spec(PacketV::Data { block_num: n, payload }), n, payload);
}

/// A datagram of two bytes or fewer is always refused as truncated.
pub proof fn lemma_short_datagram(d: Seq<u8>)
    requires
        d.len() <= 2,
    ensures
        decode_spec(d) == Err::<PacketV, ErrorV>(ErrorV::Truncated),
{
}

/// A request datagram whose body holds no NUL delimiter at all is
/// always refused for its missing delimiter.
pub proof fn lemma_missing_delimiter(d: Seq<u8>)
    requires
        d.len() > 2,
        d[0] == 0,
        d[1] == 1 || d[1] == 2,
        forall|i: int| 2 <= i < d.len() ==> d[i] != 0,
    ensures
        decode_spec(d) == Err::<PacketV, ErrorV>(ErrorV::MissingDelimiter),
{
    let body = d.skip(2);
    lemma_find_nul(body);
    if find_nul(body) is Some {
        let i = find_nul(body)->Some_0;
        assert(body[i] == d[i + 2]);
    }
}

/// Scans for the next NUL byte at or after `start`, as `find_nul` does
/// on the tail of the datagram.
fn find_delim(d: &[u8], start: usize) -> (r: Option<usize>)
    requires
        start <= d@.len(),
    ensures
        match r {
            Some(i) => start <= i < d@.len() && find_nul(d@.skip(start as int)) == Some(
                i - start,
            ),
            None => find_nul(d@.skip(start as int)) is None,
        },
{
    let ghost tail = d@.skip(start as int);
    let mut k = start;
    while k < d.len()
        invariant
            start <= k <= d@.len(),
            tail == d@.skip(start as int),
            forall|j: int| start <= j < k ==> d@[j] != 0,
        decreases d@.len() - k,
    {
        if d[k] == 0 {
            proof {
                assert(tail[k - start] == d@[k as int]);
                assert forall|j: int| 0 <= j < k - start implies tail[j] != 0 by {
                    assert(tail[j] == d@[j + start]);
                }
                lemma_find_nul_at(tail, k - start);
            }
            return Some(k);
        }
        k = k + 1;
    }
    proof {
        lemma_find_nul(tail);
        if find_nul(tail) is Some {
            let i = find_nul(tail)->Some_0;
            assert(tail[i] == d@[i + start]);
        }
    }
    None
}

/// Reads the 16-bit big-endian field at `off`.
fn read_u16(d: &[u8], off: usize) -> (r: u16)
    requires
        off + 2 <= d@.len(),
    ensures
        r == u16_be(d@[off as int], d@[off as int + 1]),
{
    let hi = d[off] as u16;
    let lo = d[off + 1] as u16;
    hi * 256 + lo
}

/// Copies the bytes of `d` from `a` up to `b` into a fresh vector.
pub(crate) fn bytes_range(d: &[u8], a: usize, b: usize) -> (r: Vec<u8>)
    requires
        a <= b <= d@.len(),
    ensures
        r@ == d@.subrange(a as int, b as int),
{
    let mut v: Vec<u8> = Vec::new();
    let mut k = a;
    while k < b
        invariant
            a <= k <= b <= d@.len(),
            v@ == d@.subrange(a as int, k as int),
        decreases b - k,
    {
        v.push(d[k]);
        proof {
            assert(v@ =~= d@.subrange(a as int, k + 1));
        }
        k = k + 1;
    }
    v
}

/// Parses the two NUL-terminated text fields of a request body.
fn parse_request_body(d: &[u8], access: AccessType) -> (r: Result<Packet, Error>)
    requires
        d@.len() > 2,
    ensures
        parsed_view(r) == request_spec(d@.skip(2), access),
{
    let ghost body = d@.skip(2);
    let n = d.len();
    let i = match find_delim(d, 2) {
        None => {
            return Err(Error::MissingDelimiter);
        },
        Some(i) => i,
    };
    let filename = lossy_string(&d[2..i]);
    proof {
        assert(d@.subrange(2, i as int) =~= body.take(i - 2));
        assert(d@.skip(i + 1) =~= body.skip(i - 2 + 1));
    }
    let j = match find_delim(d, i + 1) {
        None => {
            return Err(Error::MissingDelimiter);
        },
        Some(j) => j,
    };
    let mode = lossy_string(&d[i + 1..j]);
    proof {
        assert(d@.subrange(i + 1, j as int) =~= body.skip(i - 2 + 1).take(j - (i + 1)));
    }
    if matches!(access, AccessType::Read) {
        Ok(Packet::ReadRequest { filename, mode })
    } else {
        Ok(Packet::WriteRequest { filename, mode })
    }
}

/// Parses a data body: block number, then the rest as payload.
fn parse_data_body(d: &[u8]) -> (r: Result<Packet, Error>)
    requires
        d@.len() > 2,
    ensures
        parsed_view(r) == data_spec(d@.skip(2)),
{
    if d.len() < 4 {
        return Err(Error::Truncated);
    }
    let block_num = read_u16(d, 2);
    let payload = bytes_range(d, 4, d.len());
    proof {
        assert(d@.subrange(4, d@.len() as int) =~= d@.skip(2).skip(2));
    }
    Ok(Packet::Data { block_num, payload })
}

/// Parses an ack body: a block number; trailing bytes are discarded.
fn parse_ack_body(d: &[u8]) -> (r: Result<Packet, Error>)
    requires
        d@.len() > 2,
    ensures
        parsed_view(r) == ack_spec(d@.skip(2)),
{
    if d.len() < 4 {
        return Err(Error::Truncated);
    }
    let block_num = read_u16(d, 2);
    Ok(Packet::Ack { block_num })
}

/// Parses an error body: a code, then a NUL-terminated message.
fn parse_error_body(d: &[u8]) -> (r: Result<Packet, Error>)
    requires
        d@.len() > 2,
    ensures
        parsed_view(r) == error_spec(d@.skip(2)),
{
    if d.len() < 4 {
        return Err(Error::Truncated);
    }
    let code = read_u16(d, 2);
    let message = match find_delim(d, 4) {
        None => {
            proof {
                assert(d@.skip(2).skip(2) =~= d@.skip(4));
            }
            return Err(Error::MissingDelimiter);
        },
        Some(i) => {
            proof {
                assert(d@.skip(2).skip(2) =~= d@.skip(4));
                assert(d@.subrange(4, i as int) =~= d@.skip(4).take(i - 4));
            }
            lossy_string(&d[4..i])
        },
    };
    Ok(Packet::ErrorPacket { code, message })
}

/// Ghost image of a narrowing to the request subtype: requests project
/// to `Request`, anything else is an unexpected packet.
pub open spec fn into_request_spec(p: PacketV) -> Result<RequestV, ErrorV> {
    match p {
        PacketV::ReadRequest { filename, mode } => Ok(
            RequestV { access: AccessType::Read, filename, mode },
        ),
        PacketV::WriteRequest { filename, mode } => Ok(
            RequestV { access: AccessType::Write, filename, mode },
        ),
        _ => Err(ErrorV::UnexpectedPacket(p)),
    }
}

/// Ghost image of a narrowing to the block-level subtype: data and ack
/// packets project to `Data`, anything else is an unexpected packet.
pub open spec fn into_data_spec(p: PacketV) -> Result<DataV, ErrorV> {
    match p {
        PacketV::Data { block_num, payload } => Ok(DataV::Data(BlockV { block_num, bytes: payload })),
        PacketV::Ack { block_num } => Ok(DataV::Ack(block_num)),
        _ => Err(ErrorV::UnexpectedPacket(p)),
    }
}

impl Packet {
    /// Narrows to the request subtype a dispatcher expects; narrowing
    /// anything else reports the unexpected value for diagnostics.
    pub fn into_request(self) -> (r: Result<Request, Error>)
        ensures
            (match r {
                Ok(q) => into_request_spec(self@) == Ok::<RequestV, ErrorV>(q@),
                Err(e) => into_request_spec(self@) == Err::<RequestV, ErrorV>(e@),
            }),
    {
        match self {
            Packet::ReadRequest { filename, mode } => Ok(
                Request { access: AccessType::Read, filename, mode },
            ),
            Packet::WriteRequest { filename, mode } => Ok(
                Request { access: AccessType::Write, filename, mode },
            ),
            other => Err(Error::UnexpectedPacket(other)),
        }
    }

    /// Narrows to the block-level subtype a transfer expects; narrowing
    /// anything else reports the unexpected value for diagnostics.
    pub fn into_data(self) -> (r: Result<Data, Error>)
        ensures
            (match r {
                Ok(data) => into_data_spec(self@) == Ok::<DataV, ErrorV>(data@),
                Err(e) => into_data_spec(self@) == Err::<DataV, ErrorV>(e@),
            }),
    {
        match self {
            Packet::Data { block_num, payload } => Ok(Data::Data(Block { block_num, bytes: payload })),
            Packet::Ack { block_num } => Ok(Data::Ack(block_num)),
            other => Err(Error::UnexpectedPacket(other)),
        }
    }

    /// Serializes the packet into the one datagram that frames it;
    /// decoding that datagram yields the packet back whenever its text
    /// fields can be framed.
    pub fn to_bytes(&self) -> (r: Vec<u8>)
        ensures
            r@ == encode_spec(self@),
            packet_wf(self@) ==> decode_spec(r@) == Ok::<PacketV, ErrorV>(self@),
    {
        let mut v: Vec<u8> = Vec::new();
        match self {
            Packet::ReadRequest { filename, mode } => {
                v.push(0);
                v.push(1);
                push_text(&mut v, filename);
                push_text(&mut v, mode);
                proof {
                    assert(v@ =~= encode_spec(self@));
                }
            },
            Packet::WriteRequest { filename, mode } => {
                v.push(0);
                v.push(2);
                push_text(&mut v, filename);
                push_text(&mut v, mode);
                proof {
                    assert(v@ =~= encode_spec(self@));
                }
            },
            Packet::Data { block_num, payload } => {
                v.push(0);
                v.push(3);
                push_u16(&mut v, *block_num);
                push_bytes(&mut v, payload.as_slice());
                proof {
                    assert(v@ =~= encode_spec(self@));
                }
            },
            Packet::Ack { block_num } => {
                v.push(0);
                v.push(4);
                push_u16(&mut v, *block_num);
                proof {
                    assert(v@ =~= encode_spec(self@));
                }
            },
            Packet::ErrorPacket { code, message } => {
                v.push(0);
                v.push(5);
                push_u16(&mut v, *code);
                push_text(&mut v, message);
                proof {
                    assert(v@ =~= encode_spec(self@));
                }
            },
        }
        proof {
            if packet_wf(self@) {
                lemma_round_trip(self@);
            }
        }
        v
    }

    /// Parses one datagram into the packet it frames, reading nothing
    /// past the supplied bytes and never failing on bad text encoding.
    pub fn from_bytes(d: &[u8]) -> (r: Result<Packet, Error>)
        ensures
            parsed_view(r) == decode_spec(d@),
    {
        if d.len() <= 2 {
            return Err(Error::Truncated);
        }
        if d[0] != 0 {
            return Err(Error::UnknownOpcode);
        }
        let op = d[1];
        if op == 1 {
            parse_request_body(d, AccessType::Read)
        } else if op == 2 {
            parse_request_body(d, AccessType::Write)
        } else if op == 3 {
            parse_data_body(d)
        } else if op == 4 {
            parse_ack_body(d)
        } else if op == 5 {
            parse_error_body(d)
        } else {
            Err(Error::UnknownOpcode)
        }
    }
}

/// What a client-side decoder yields for one datagram: the block-level
/// message it frames, or why it could not be narrowed to one.
pub open spec fn client_item_spec(d: Seq<u8>) -> Result<DataV, ErrorV> {
    match decode_spec(d) {
        Ok(p) => into_data_spec(p),
        Err(e) => Err(e),
    }
}

/// What a server-side decoder yields for one datagram: the request it
/// frames, or why it could not be narrowed to one.
pub open spec fn server_item_spec(d: Seq<u8>) -> Result<RequestV, ErrorV> {
    match decode_spec(d) {
        Ok(p) => into_request_spec(p),
        Err(e) => Err(e),
    }
}

/// Ghost image of a narrowed block-level parse result.
pub open spec fn data_parsed_view(r: Result<Data, Error>) -> Result<DataV, ErrorV> {
    match r {
        Ok(data) => Ok(data@),
        Err(e) => Err(e@),
    }
}

/// Decodes the block-level side of a transfer: each datagram yields a
/// data block or an ack, and a data block shorter than the full block
/// size ends the stream.
pub struct TftpClient {
    received_end: bool,
}

impl TftpClient {
    /// True once a final (short) data block has been seen; afterwards
    /// the decoder yields nothing further.
    pub closed spec fn done(&self) -> bool {
        self.received_end
    }

    pub fn new() -> (c: TftpClient)
        ensures
            !c.done(),
    {
        TftpClient { received_end: false }
    }

    /// Decodes one datagram into a block-level message.  Yields nothing
    /// once the stream has ended; otherwise yields exactly what the
    /// datagram frames, and ends the stream on a short data block.
    pub fn decode(&mut self, buf: &[u8]) -> (r: Option<Result<Data, Error>>)
        ensures
            old(self).done() ==> r is None && final(self).done(),
            !old(self).done() ==> (match r {
                Some(item) => data_parsed_view(item) == client_item_spec(buf@),
                None => false,
            }),
            final(self).done() == (old(self).done() || (match client_item_spec(buf@) {
                Ok(DataV::Data(b)) => b.bytes.len() < 512,
                _ => false,
            })),
    {
        if self.received_end {
            return None;
        }
        match Packet::from_bytes(buf) {
            Err(e) => Some(Err(e)),
            Ok(packet) => match packet.into_data() {
                Err(e) => Some(Err(e)),
                Ok(data) => {
                    if let Data::Data(block) = &data {
                        if block.bytes.len() < 512 {
                            self.received_end = true;
                        }
                    }
                    Some(Ok(data))
                },
            },
        }
    }
}

/// Decodes the request side of the well-known port: each datagram
/// yields the request it frames, or why it could not be one.
pub struct TftpServer {}

impl TftpServer {
    pub fn new() -> TftpServer {
        TftpServer {  }
    }

    /// Decodes one datagram into a request.
    pub fn decode(&self, buf: &[u8]) -> (r: Result<Request, Error>)
        ensures
            (match r {
                Ok(q) => server_item_spec(buf@) == Ok::<RequestV, ErrorV>(q@),
                Err(e) => server_item_spec(buf@) == Err::<RequestV, ErrorV>(e@),
            }),
    {
        match Packet::from_bytes(buf) {
            Err(e) => Err(e),
            Ok(packet) => packet.into_request(),
        }
    }
}

} // verus!