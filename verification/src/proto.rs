//! ADB wire codec: the 24-byte little-endian message header, the command
//! constants, payload framing, and the inbound frame accumulator.

use vstd::prelude::*;
use vstd::bytes::*;

verus! {

/// Largest payload a single ADB message may carry, in bytes.
pub const MAXDATA: u32 = 256 * 1024;

/// Protocol version advertised in the CNXN handshake.
pub const ADB_VERSION: u32 = 0x01000001;

pub const A_CNXN: u32 = 0x4e584e43;
pub const A_AUTH: u32 = 0x48545541;
pub const A_OPEN: u32 = 0x4e45504f;
pub const A_OKAY: u32 = 0x59414b4f;
pub const A_CLSE: u32 = 0x45534c43;
pub const A_WRTE: u32 = 0x45545257;
pub const A_STLS: u32 = 0x534c5453;

/// Errors of the wire codec.
#[derive(Clone, Copy, Debug, PartialEq, Eq, Structural)]
pub enum ProtoError {
    /// The first header word is none of the seven command ids.
    UnknownCommand { code: u32 },
    /// A payload longer than `MAXDATA`: handed to the encoder, or declared
    /// by an inbound header.
    PayloadTooLong,
}

/// An ADB command with its two command-specific arguments.
#[derive(Clone, Copy, Debug, PartialEq, Eq, Structural)]
pub enum CommandType {
    Connect { version: u32, maxdata: u32 },
    Stls { ty: u32, version: u32 },
    Auth { ty: u32, zero: u32 },
    Open { local_id: u32, zero: u32 },
    Ready { local_id: u32, remote_id: u32 },
    Write { local_id: u32, remote_id: u32 },
    Close { local_id: u32, remote_id: u32 },
}

/// Whether `c` is one of the seven command ids.
pub open spec fn is_known_code(c: u32) -> bool {
    c == A_CNXN || c == A_STLS || c == A_AUTH || c == A_OPEN || c == A_OKAY || c == A_WRTE
        || c == A_CLSE
}

/// The command a header with id `cmd` and arguments `arg0`, `arg1` decodes to.
pub open spec fn command_of(cmd: u32, arg0: u32, arg1: u32) -> CommandType
    recommends
        is_known_code(cmd),
{
    if cmd == A_CNXN {
        CommandType::Connect { version: arg0, maxdata: arg1 }
    } else if cmd == A_STLS {
        CommandType::Stls { ty: arg0, version: arg1 }
    } else if cmd == A_AUTH {
        CommandType::Auth { ty: arg0, zero: arg1 }
    } else if cmd == A_OPEN {
        CommandType::Open { local_id: arg0, zero: arg1 }
    } else if cmd == A_OKAY {
        CommandType::Ready { local_id: arg0, remote_id: arg1 }
    } else if cmd == A_WRTE {
        CommandType::Write { local_id: arg0, remote_id: arg1 }
    } else {
        CommandType::Close { local_id: arg0, remote_id: arg1 }
    }
}

impl CommandType {
    /// The 32-bit command id written at header offset 0.
    pub open spec fn code_spec(self) -> u32 {
        match self {
            CommandType::Connect { .. } => A_CNXN,
            CommandType::Stls { .. } => A_STLS,
            CommandType::Auth { .. } => A_AUTH,
            CommandType::Open { .. } => A_OPEN,
            CommandType::Ready { .. } => A_OKAY,
            CommandType::Write { .. } => A_WRTE,
            CommandType::Close { .. } => A_CLSE,
        }
    }

    /// The command-specific word written at header offset 4.
    pub open spec fn arg0_spec(self) -> u32 {
        match self {
            CommandType::Connect { version, .. } => version,
            CommandType::Stls { ty, .. } => ty,
            CommandType::Auth { ty, .. } => ty,
            CommandType::Open { local_id, .. } => local_id,
            CommandType::Ready { local_id, .. } => local_id,
            CommandType::Write { local_id, .. } => local_id,
            CommandType::Close { local_id, .. } => local_id,
        }
    }

    /// The command-specific word written at header offset 8.
    pub open spec fn arg1_spec(self) -> u32 {
        match self {
            CommandType::Connect { maxdata, .. } => maxdata,
            CommandType::Stls { version, .. } => version,
            CommandType::Auth { zero, .. } => zero,
            CommandType::Open { zero, .. } => zero,
            CommandType::Ready { remote_id, .. } => remote_id,
            CommandType::Write { remote_id, .. } => remote_id,
            CommandType::Close { remote_id, .. } => remote_id,
        }
    }

    /// The magic word of this command: its id with every bit flipped.
    pub open spec fn magic_spec(self) -> u32 {
        self.code_spec() ^ 0xffffffffu32
    }

    pub fn code(&self) -> (r: u32)
        ensures
            r == self.code_spec(),
    {
        match self {
            CommandType::Connect { .. } => A_CNXN,
            CommandType::Stls { .. } => A_STLS,
            CommandType::Auth { .. } => A_AUTH,
            CommandType::Open { .. } => A_OPEN,
            CommandType::Ready { .. } => A_OKAY,
            CommandType::Write { .. } => A_WRTE,
            CommandType::Close { .. } => A_CLSE,
        }
    }

    pub fn magic(&self) -> (r: u32)
        ensures
            r == self.magic_spec(),
    {
        self.code() ^ 0xffffffff
    }

    /// Decodes the first three header words into a command; refuses the
    /// command id if it is none of the seven known ones.
    pub fn from_parts(cmd: u32, arg0: u32, arg1: u32) -> (r: Result<CommandType, ProtoError>)
        ensures
            is_known_code(cmd) <==> r is Ok,
            r is Ok ==> r->Ok_0 == command_of(cmd, arg0, arg1),
            r is Err ==> r->Err_0 == (ProtoError::UnknownCommand { code: cmd }),
    {
        if cmd == A_CNXN {
            Ok(CommandType::Connect { version: arg0, maxdata: arg1 })
        } else if cmd == A_STLS {
            Ok(CommandType::Stls { ty: arg0, version: arg1 })
        } else if cmd == A_AUTH {
            Ok(CommandType::Auth { ty: arg0, zero: arg1 })
        } else if cmd == A_OPEN {
            Ok(CommandType::Open { local_id: arg0, zero: arg1 })
        } else if cmd == A_OKAY {
            Ok(CommandType::Ready { local_id: arg0, remote_id: arg1 })
        } else if cmd == A_WRTE {
            Ok(CommandType::Write { local_id: arg0, remote_id: arg1 })
        } else if cmd == A_CLSE {
            Ok(CommandType::Close { local_id: arg0, remote_id: arg1 })
        } else {
            Err(ProtoError::UnknownCommand { code: cmd })
        }
    }
}

/// The decoded 24-byte message header.
#[derive(Clone, Copy, Debug, PartialEq, Eq, Structural)]
pub struct MetaMessage {
    pub cmd: CommandType,
    pub len: u32,
    pub crc: u32,
    pub magic: u32,
}

/// The 24 bytes a header encodes to: six little-endian 32-bit words.
pub open spec fn spec_header_bytes(m: MetaMessage) -> Seq<u8> {
    spec_u32_to_le_bytes(m.cmd.code_spec()) + spec_u32_to_le_bytes(m.cmd.arg0_spec())
        + spec_u32_to_le_bytes(m.cmd.arg1_spec()) + spec_u32_to_le_bytes(m.len)
        + spec_u32_to_le_bytes(m.crc) + spec_u32_to_le_bytes(m.magic)
}

/// The header 24 bytes decode to, or `None` when the command id is unknown.
pub open spec fn spec_decode_header(s: Seq<u8>) -> Option<MetaMessage>
    recommends
        s.len() == 24,
{
    let cmd = spec_u32_from_le_bytes(s.subrange(0, 4));
    let arg0 = spec_u32_from_le_bytes(s.subrange(4, 8));
    let arg1 = spec_u32_from_le_bytes(s.subrange(8, 12));
    let len = spec_u32_from_le_bytes(s.subrange(12, 16));
    let crc = spec_u32_from_le_bytes(s.subrange(16, 20));
    let magic = spec_u32_from_le_bytes(s.subrange(20, 24));
    if is_known_code(cmd) {
        Some(MetaMessage { cmd: command_of(cmd, arg0, arg1), len, crc, magic })
    } else {
        None
    }
}

impl MetaMessage {
    pub fn cmd(&self) -> (r: &CommandType)
        ensures
            r == self.cmd,
    {
        &self.cmd
    }

    /// Encodes the header to its 24 wire bytes.
    pub fn bytes(&self) -> (r: Vec<u8>)
        ensures
            r@ == spec_header_bytes(*self),
            r@.len() == 24,
    {
        proof {
            lemma_auto_spec_u32_to_from_le_bytes();
        }
        let mut r = u32_to_le_bytes(self.cmd.code());
        let mut w = u32_to_le_bytes(self.cmd.arg0());
        r.append(&mut w);
        let mut w = u32_to_le_bytes(self.cmd.arg1());
        r.append(&mut w);
        let mut w = u32_to_le_bytes(self.len);
        r.append(&mut w);
        let mut w = u32_to_le_bytes(self.crc);
        r.append(&mut w);
        let mut w = u32_to_le_bytes(self.magic);
        r.append(&mut w);
        r
    }
}

impl CommandType {
    pub fn arg0(&self) -> (r: u32)
        ensures
            r == self.arg0_spec(),
    {
        match *self {
            CommandType::Connect { version, .. } => version,
            CommandType::Stls { ty, .. } => ty,
            CommandType::Auth { ty, .. } => ty,
            CommandType::Open { local_id, .. } => local_id,
            CommandType::Ready { local_id, .. } => local_id,
            CommandType::Write { local_id, .. } => local_id,
            CommandType::Close { local_id, .. } => local_id,
        }
    }

    pub fn arg1(&self) -> (r: u32)
        ensures
            r == self.arg1_spec(),
    {
        match *self {
            CommandType::Connect { maxdata, .. } => maxdata,
            CommandType::Stls { version, .. } => version,
            CommandType::Auth { zero, .. } => zero,
            CommandType::Open { zero, .. } => zero,
            CommandType::Ready { remote_id, .. } => remote_id,
            CommandType::Write { remote_id, .. } => remote_id,
            CommandType::Close { remote_id, .. } => remote_id,
        }
    }
}

/// Decodes the 24 header bytes; refuses an unknown command id.  Neither the
/// magic word nor the checksum is validated, as the protocol asks.
pub fn decode_header(bytes: &[u8]) -> (r: Result<MetaMessage, ProtoError>)
    requires
        bytes@.len() == 24,
    ensures
        r is Ok <==> spec_decode_header(bytes@) is Some,
        r is Ok ==> r->Ok_0 == spec_decode_header(bytes@)->Some_0,
        r is Err ==> r->Err_0 == (ProtoError::UnknownCommand {
            code: spec_u32_from_le_bytes(bytes@.subrange(0, 4)),
        }),
{
    let cmd = u32_from_le_bytes(vstd::slice::slice_subrange(bytes, 0, 4));
    let arg0 = u32_from_le_bytes(vstd::slice::slice_subrange(bytes, 4, 8));
    let arg1 = u32_from_le_bytes(vstd::slice::slice_subrange(bytes, 8, 12));
    let len = u32_from_le_bytes(vstd::slice::slice_subrange(bytes, 12, 16));
    let crc = u32_from_le_bytes(vstd::slice::slice_subrange(bytes, 16, 20));
    let magic = u32_from_le_bytes(vstd::slice::slice_subrange(bytes, 20, 24));
    match CommandType::from_parts(cmd, arg0, arg1) {
        Ok(c) => Ok(MetaMessage { cmd: c, len, crc, magic }),
        Err(e) => Err(e),
    }
}

/// Every encoded header carries at offset 20 the command id with all bits
/// flipped, as a little-endian word.
pub proof fn lemma_header_magic(m: MetaMessage)
    requires
        m.magic == m.cmd.magic_spec(),
    ensures
        spec_header_bytes(m).subrange(20, 24) == spec_u32_to_le_bytes(
            m.cmd.code_spec() ^ 0xffffffffu32,
        ),
{
    lemma_auto_spec_u32_to_from_le_bytes();
    assert(spec_header_bytes(m).subrange(20, 24) =~= spec_u32_to_le_bytes(m.magic));
}

/// A complete wire message: a header and its payload.
#[derive(Clone, Debug)]
pub struct Message {
    pub meta: MetaMessage,
    pub data: Vec<u8>,
}

impl Message {
    /// A message is well formed when its header states the payload length,
    /// a zero checksum, and the command's magic word.
    pub open spec fn wf(self) -> bool {
        &&& self.meta.len == self.data@.len()
        &&& self.meta.len <= MAXDATA
        &&& self.meta.crc == 0
        &&& self.meta.magic == self.meta.cmd.magic_spec()
    }

    pub fn meta(&self) -> (r: &MetaMessage)
        ensures
            r == self.meta,
    {
        &self.meta
    }

    pub fn data(&self) -> (r: &Vec<u8>)
        ensures
            r == self.data,
    {
        &self.data
    }

    /// Frames `cmd` over `data`; refuses a payload longer than `MAXDATA`.
    pub fn mk_msg(cmd: CommandType, data: Vec<u8>) -> (r: Result<Message, ProtoError>)
        ensures
            r is Ok <==> data@.len() <= MAXDATA,
            r is Ok ==> r->Ok_0.wf() && r->Ok_0.meta.cmd == cmd && r->Ok_0.data == data,
            r is Err ==> r->Err_0 == ProtoError::PayloadTooLong,
    {
        if data.len() > MAXDATA as usize {
            return Err(ProtoError::PayloadTooLong);
        }
        let magic = cmd.magic();
        Ok(Message { meta: MetaMessage { cmd, len: data.len() as u32, crc: 0, magic }, data })
    }

    /// The CNXN message of the handshake, carrying the system identity.
    pub fn connect(version: u32, maxdata: u32, sysident: &[u8]) -> (r: Result<Message, ProtoError>)
        ensures
            r is Ok <==> sysident@.len() <= MAXDATA,
            r is Ok ==> r->Ok_0.wf() && r->Ok_0.meta.cmd == (CommandType::Connect {
                version,
                maxdata,
            }) && r->Ok_0.data@ == sysident@,
            r is Err ==> r->Err_0 == ProtoError::PayloadTooLong,
    {
        let data = vstd::slice::slice_to_vec(sysident);
        Self::mk_msg(CommandType::Connect { version, maxdata }, data)
    }

    /// The OKAY message granting the peer one write of credit.
    pub fn ready(local_id: u32, remote_id: u32) -> (r: Message)
        ensures
            r.wf(),
            r.meta.cmd == (CommandType::Ready { local_id, remote_id }),
            r.data@.len() == 0,
    {
        let cmd = CommandType::Ready { local_id, remote_id };
        let magic = cmd.magic();
        Message { meta: MetaMessage { cmd, len: 0, crc: 0, magic }, data: Vec::new() }
    }

    /// A WRTE message carrying one payload chunk; refuses a chunk longer
    /// than `MAXDATA`.
    pub fn write(local_id: u32, remote_id: u32, data: Vec<u8>) -> (r: Result<Message, ProtoError>)
        ensures
            r is Ok <==> data@.len() <= MAXDATA,
            r is Ok ==> r->Ok_0.wf() && r->Ok_0.meta.cmd == (CommandType::Write {
                local_id,
                remote_id,
            }) && r->Ok_0.data == data,
            r is Err ==> r->Err_0 == ProtoError::PayloadTooLong,
    {
        Self::mk_msg(CommandType::Write { local_id, remote_id }, data)
    }

    /// The CLSE message tearing a stream down (or rejecting an OPEN when
    /// `local_id` is zero).
    pub fn close(local_id: u32, remote_id: u32) -> (r: Message)
        ensures
            r.wf(),
            r.meta.cmd == (CommandType::Close { local_id, remote_id }),
            r.data@.len() == 0,
    {
        let cmd = CommandType::Close { local_id, remote_id };
        let magic = cmd.magic();
        Message { meta: MetaMessage { cmd, len: 0, crc: 0, magic }, data: Vec::new() }
    }

    /// The wire image of the message: 24 header bytes, then the payload.
    pub fn to_bytes(self) -> (r: (Vec<u8>, Vec<u8>))
        ensures
            r.0@ == spec_header_bytes(self.meta),
            r.0@.len() == 24,
            r.1 == self.data,
    {
        (self.meta.bytes(), self.data)
    }
}

/// Reassembles complete messages from the byte chunks a bulk endpoint
/// delivers.  Bytes go in with `push`; `next_msg` takes one complete message
/// off the front whenever enough bytes have arrived.
pub struct MsgAccumulator {
    pub buf: Vec<u8>,
}

impl MsgAccumulator {
    pub fn new() -> (r: MsgAccumulator)
        ensures
            r.buf@.len() == 0,
    {
        MsgAccumulator { buf: Vec::new() }
    }

    /// Appends one delivery from the endpoint.  A zero-byte delivery (the
    /// idle signal of FunctionFS, not end of stream) leaves the accumulator
    /// exactly as it was: the reader is never closed by one.
    pub fn push(&mut self, chunk: &[u8])
        ensures
            final(self).buf@ == old(self).buf@ + chunk@,
            chunk@.len() == 0 ==> final(self).buf@ == old(self).buf@,
    {
        let mut v = vstd::slice::slice_to_vec(chunk);
        self.buf.append(&mut v);
        proof {
            if chunk@.len() == 0 {
                assert(old(self).buf@ + chunk@ =~= old(self).buf@);
            }
        }
    }

    /// Takes the next complete message off the buffered bytes.
    ///
    /// Returns `Ok(None)` while fewer than a header's 24 bytes, or fewer than
    /// the header's stated payload, are buffered.  A header with an unknown
    /// command id, or one declaring a payload over `MAXDATA` (the protocol
    /// caps every payload, and the cap is what bounds this buffer), is
    /// consumed and reported as an error; the bytes after it stay buffered,
    /// so the caller may keep reading.
    pub fn next_msg(&mut self) -> (r: Result<Option<Message>, ProtoError>)
        ensures
            old(self).buf@.len() < 24 ==> r == Ok::<Option<Message>, ProtoError>(None)
                && final(self).buf@ == old(self).buf@,
            old(self).buf@.len() >= 24 && spec_decode_header(old(self).buf@.subrange(0, 24))
                is None ==> r == Err::<Option<Message>, ProtoError>(ProtoError::UnknownCommand {
                code: spec_u32_from_le_bytes(old(self).buf@.subrange(0, 4)),
            }) && final(self).buf@ == old(self).buf@.skip(24),
            (old(self).buf@.len() >= 24 && spec_decode_header(old(self).buf@.subrange(0, 24))
                is Some) ==> {
                let m = spec_decode_header(old(self).buf@.subrange(0, 24))->Some_0;
                if m.len > MAXDATA {
                    r == Err::<Option<Message>, ProtoError>(ProtoError::PayloadTooLong)
                        && final(self).buf@ == old(self).buf@.skip(24)
                } else if old(self).buf@.len() < 24 + m.len {
                    r == Ok::<Option<Message>, ProtoError>(None)
                        && final(self).buf@ == old(self).buf@
                } else {
                    &&& r is Ok
                    &&& r->Ok_0 is Some
                    &&& r->Ok_0->Some_0.meta == m
                    &&& r->Ok_0->Some_0.meta.len <= MAXDATA
                    &&& r->Ok_0->Some_0.data@ == old(self).buf@.subrange(24, 24 + m.len)
                    &&& final(self).buf@ == old(self).buf@.skip(24 + m.len)
                }
            },
    {
        if self.buf.len() < 24 {
            return Ok(None);
        }
        let meta = {
            let header = vstd::slice::slice_subrange(self.buf.as_slice(), 0, 24);
            match decode_header(header) {
                Ok(m) => m,
                Err(e) => {
                    let rest = self.buf.split_off(24);
                    self.buf = rest;
                    proof {
                        assert(self.buf@ =~= old(self).buf@.skip(24));
                        assert(old(self).buf@.subrange(0, 24).subrange(0, 4) =~= old(
                            self,
                        ).buf@.subrange(0, 4));
                    }
                    return Err(e);
                },
            }
        };
        if meta.len > MAXDATA {
            let rest = self.buf.split_off(24);
            self.buf = rest;
            proof {
                assert(self.buf@ =~= old(self).buf@.skip(24));
            }
            return Err(ProtoError::PayloadTooLong);
        }
        let len = meta.len as usize;
        if self.buf.len() - 24 < len {
            return Ok(None);
        }
        let mut payload = self.buf.split_off(24);
        let rest = payload.split_off(len);
        self.buf = rest;
        proof {
            assert(payload@ =~= old(self).buf@.subrange(24, 24 + meta.len));
            assert(self.buf@ =~= old(self).buf@.skip(24 + meta.len));
        }
        Ok(Some(Message { meta, data: payload }))
    }
}

/// Decoding inverts encoding: a header whose magic and length are well formed
/// comes back field for field.
pub proof fn lemma_header_roundtrip(m: MetaMessage)
    ensures
        spec_decode_header(spec_header_bytes(m)) == Some(m),
{
    lemma_auto_spec_u32_to_from_le_bytes();
    let s = spec_header_bytes(m);
    assert(s.subrange(0, 4) =~= spec_u32_to_le_bytes(m.cmd.code_spec()));
    assert(s.subrange(4, 8) =~= spec_u32_to_le_bytes(m.cmd.arg0_spec()));
    assert(s.subrange(8, 12) =~= spec_u32_to_le_bytes(m.cmd.arg1_spec()));
    assert(s.subrange(12, 16) =~= spec_u32_to_le_bytes(m.len));
    assert(s.subrange(16, 20) =~= spec_u32_to_le_bytes(m.crc));
    assert(s.subrange(20, 24) =~= spec_u32_to_le_bytes(m.magic));
}

/// A well-formed message survives the wire unchanged: put its header and
/// payload through the accumulator and exactly the same command, arguments
/// and payload come back, with no bytes left over.
pub proof fn lemma_message_roundtrip(m: Message)
    requires
        m.wf(),
    ensures
        ({
            let s = spec_header_bytes(m.meta) + m.data@;
            &&& s.len() == 24 + m.meta.len
            &&& spec_decode_header(s.subrange(0, 24)) == Some(m.meta)
            &&& s.subrange(24, 24 + m.meta.len as int) == m.data@
            &&& s.skip(24 + m.meta.len as int).len() == 0
        }),
{
    lemma_auto_spec_u32_to_from_le_bytes();
    let s = spec_header_bytes(m.meta) + m.data@;
    assert(s.subrange(0, 24) =~= spec_header_bytes(m.meta));
    lemma_header_roundtrip(m.meta);
    assert(s.subrange(24, 24 + m.meta.len as int) =~= m.data@);
}

} // verus!
