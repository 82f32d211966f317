//! Compression of the value argument of string commands, and decompression
//! of the replies that carry such a value back.

use vstd::prelude::*;
use std::sync::Arc;
use crate::command::{BulkStr, CmdCtx, DataCmdType, Resp};

verus! {

/// The zstd frame that `zstd::encode_all` produces for `data` at `level`.
pub uninterp spec fn zstd_encoded(data: Seq<u8>, level: int) -> Seq<u8>;

/// The bytes that `zstd::decode_all` recovers from the frames in `data`.
pub uninterp spec fn zstd_decoded(data: Seq<u8>) -> Seq<u8>;

/// Calls `zstd::encode_all` on a slice. When it succeeds, the result is the
/// frame that zstd produces for these bytes at this level; nothing is claimed
/// of when it fails.
#[verifier::external_body]
fn zstd_encode_all(data: &[u8], level: i32) -> (r: Result<Vec<u8>, std::io::Error>)
    ensures
        r matches Ok(v) ==> v@ == zstd_encoded(data@, level as int),
{
    zstd::encode_all(data, level)
}

/// Calls `zstd::decode_all` on a slice. When it succeeds, the result is what
/// zstd recovers from these bytes; nothing is claimed of when it fails.
#[verifier::external_body]
fn zstd_decode_all(data: &[u8]) -> (r: Result<Vec<u8>, std::io::Error>)
    ensures
        r matches Ok(v) ==> v@ == zstd_decoded(data@),
{
    zstd::decode_all(data)
}

/// Why a command or a reply was not processed.
#[derive(Debug)]
pub enum CompressionError {
    /// zstd failed.
    Io(std::io::Error),
    /// The command lacks the element that holds its value.
    InvalidRequest,
    /// The reply is no bulk string that could take the value.
    InvalidResp,
    /// Replies to this kind of command carry no compressed value.
    UnsupportedCmdType,
    /// The command reads or changes string values in place, which compressed
    /// values do not allow.
    RestrictedCmd,
}

impl CompressionError {
    /// A fixed description of the error.
    pub fn description(&self) -> (r: &'static str)
        ensures
            r == "compression error",
    {
        "compression error"
    }
}

/// What compression does with a command of a given kind.
pub enum CmdRule {
    /// The element at this index is the value and gets compressed.
    Value(usize),
    /// The command is refused.
    Restricted,
    /// The command passes unchanged.
    Untouched,
}

/// The rule for each kind of command: the value is element 2 of GETSET, SET
/// and SETNX and element 3 of PSETEX and SETEX; the other commands that read
/// or change string values are refused; GET and every other command pass.
pub open spec fn spec_cmd_rule(cmd_type: DataCmdType) -> CmdRule {
    match cmd_type {
        DataCmdType::GETSET | DataCmdType::SET | DataCmdType::SETNX => CmdRule::Value(2),
        DataCmdType::PSETEX | DataCmdType::SETEX => CmdRule::Value(3),
        DataCmdType::GET | DataCmdType::Others => CmdRule::Untouched,
        _ => CmdRule::Restricted,
    }
}

/// Whether replies to this kind of command carry a compressed value: those
/// to GET and GETSET do.
pub open spec fn spec_reply_has_value(cmd_type: DataCmdType) -> bool {
    cmd_type == DataCmdType::GET || cmd_type == DataCmdType::GETSET
}

/// The rule that applies to a command of kind `cmd_type`.
pub fn cmd_rule(cmd_type: DataCmdType) -> (r: CmdRule)
    ensures
        r == spec_cmd_rule(cmd_type),
{
    match cmd_type {
        DataCmdType::GETSET | DataCmdType::SET | DataCmdType::SETNX => CmdRule::Value(2),
        DataCmdType::PSETEX | DataCmdType::SETEX => CmdRule::Value(3),
        DataCmdType::APPEND
        | DataCmdType::BITCOUNT
        | DataCmdType::BITFIELD
        | DataCmdType::BITOP
        | DataCmdType::BITPOS
        | DataCmdType::DECR
        | DataCmdType::DECRBY
        | DataCmdType::GETBIT
        | DataCmdType::GETRANGE
        | DataCmdType::INCR
        | DataCmdType::INCRBY
        | DataCmdType::INCRBYFLOAT
        | DataCmdType::MGET
        | DataCmdType::MSET
        | DataCmdType::MSETNX
        | DataCmdType::SETBIT
        | DataCmdType::SETRANGE
        | DataCmdType::STRLEN => CmdRule::Restricted,
        _ => CmdRule::Untouched,
    }
}

/// Puts the outcome of compressing the element at `index` into the command:
/// a frame replaces that element, a zstd failure is reported and changes
/// nothing, and so is a command that has no such element.
pub fn store_compressed(
    cmd_ctx: &mut CmdCtx,
    index: usize,
    compressed: Result<Vec<u8>, std::io::Error>,
) -> (r: Result<(), CompressionError>)
    ensures
        final(cmd_ctx).cmd_type() == old(cmd_ctx).cmd_type(),
        match compressed {
            Ok(frame) => if index < old(cmd_ctx)@.len() {
                r is Ok && final(cmd_ctx)@ == old(cmd_ctx)@.update(index as int, frame@)
            } else {
                r == Err::<(), CompressionError>(CompressionError::InvalidRequest)
                    && final(cmd_ctx)@ == old(cmd_ctx)@
            },
            Err(e) => r == Err::<(), CompressionError>(CompressionError::Io(e)) && final(cmd_ctx)@
                == old(cmd_ctx)@,
        },
{
    match compressed {
        Ok(frame) => {
            if cmd_ctx.change_cmd_element(index, frame) {
                Ok(())
            } else {
                Err(CompressionError::InvalidRequest)
            }
        },
        Err(e) => Err(CompressionError::Io(e)),
    }
}

/// Puts the outcome of decompressing a reply's value into the reply: the
/// recovered bytes replace those of a non-nil bulk string, a zstd failure is
/// reported and changes nothing, and so is a reply that is no such string.
pub fn store_decompressed(packet: &mut Resp, decoded: Result<Vec<u8>, std::io::Error>) -> (r:
    Result<(), CompressionError>)
    ensures
        match decoded {
            Ok(bytes) => if old(packet).bulk_bytes() is Some {
                r is Ok && *final(packet) == Resp::Bulk(BulkStr::Str(bytes))
            } else {
                r == Err::<(), CompressionError>(CompressionError::InvalidResp) && *final(packet)
                    == *old(packet)
            },
            Err(e) => r == Err::<(), CompressionError>(CompressionError::Io(e)) && *final(packet)
                == *old(packet),
        },
{
    match decoded {
        Ok(bytes) => {
            if packet.change_bulk_str(bytes) {
                Ok(())
            } else {
                Err(CompressionError::InvalidResp)
            }
        },
        Err(e) => Err(CompressionError::Io(e)),
    }
}

/// Compresses the value that a command is about to store.
pub struct CmdCompressor {
    clusters_config: Arc<()>,
}

impl CmdCompressor {
    /// The shared configuration the compressor was made with.
    pub closed spec fn config(&self) -> Arc<()> {
        self.clusters_config
    }

    /// A compressor that shares `clusters_config`.
    pub fn new(clusters_config: Arc<()>) -> (r: Self)
        ensures
            r.config() == clusters_config,
    {
        Self { clusters_config }
    }

    /// Replaces the value of a storing command by its zstd frame at level 1.
    ///
    /// Commands outside the string commands, and GET, pass unchanged; the
    /// string commands that work on a value in place are refused; a storing
    /// command without a value element is invalid. Whether zstd succeeds is
    /// for zstd to say: if it does, the value element holds the frame.
    pub fn try_compressing_cmd_ctx(&self, cmd_ctx: &mut CmdCtx) -> (r: Result<
        (),
        CompressionError,
    >)
        ensures
            final(cmd_ctx).cmd_type() == old(cmd_ctx).cmd_type(),
            match spec_cmd_rule(old(cmd_ctx).cmd_type()) {
                CmdRule::Untouched => r is Ok && final(cmd_ctx)@ == old(cmd_ctx)@,
                CmdRule::Restricted => r == Err::<(), CompressionError>(
                    CompressionError::RestrictedCmd,
                ) && final(cmd_ctx)@ == old(cmd_ctx)@,
                CmdRule::Value(index) => if index < old(cmd_ctx)@.len() {
                    match r {
                        Ok(()) => final(cmd_ctx)@ == old(cmd_ctx)@.update(
                            index as int,
                            zstd_encoded(old(cmd_ctx)@[index as int], 1),
                        ),
                        Err(e) => e is Io && final(cmd_ctx)@ == old(cmd_ctx)@,
                    }
                } else {
                    r == Err::<(), CompressionError>(CompressionError::InvalidRequest)
                        && final(cmd_ctx)@ == old(cmd_ctx)@
                },
            },
    {
        let index: usize = match cmd_rule(cmd_ctx.get_data_cmd_type()) {
            CmdRule::Value(index) => index,
            CmdRule::Restricted => {
                return Err(CompressionError::RestrictedCmd);
            },
            CmdRule::Untouched => {
                return Ok(());
            },
        };
        let compressed = match cmd_ctx.get_command_element(index) {
            Some(value) => zstd_encode_all(value.as_slice(), 1),
            None => {
                return Err(CompressionError::InvalidRequest);
            },
        };
        store_compressed(cmd_ctx, index, compressed)
    }
}

/// Decompresses the value that a reply carries back.
pub struct CmdReplyDecompressor {
    clusters_config: Arc<()>,
}

impl CmdReplyDecompressor {
    /// The shared configuration the decompressor was made with.
    pub closed spec fn config(&self) -> Arc<()> {
        self.clusters_config
    }

    /// A decompressor that shares `clusters_config`.
    pub fn new(clusters_config: Arc<()>) -> (r: Self)
        ensures
            r.config() == clusters_config,
    {
        Self { clusters_config }
    }

    /// Replaces the value of a reply to GET or GETSET by what zstd recovers
    /// from it.
    ///
    /// Replies to other commands are not supported. A reply that is no
    /// non-nil bulk string passes unchanged. Whether zstd succeeds is for
    /// zstd to say: if it does, the reply holds the recovered bytes.
    pub fn decompress(&self, cmd_ctx: &CmdCtx, packet: &mut Resp) -> (r: Result<
        (),
        CompressionError,
    >)
        ensures
            !spec_reply_has_value(cmd_ctx.cmd_type()) ==> r == Err::<(), CompressionError>(
                CompressionError::UnsupportedCmdType,
            ) && *final(packet) == *old(packet),
            spec_reply_has_value(cmd_ctx.cmd_type()) ==> match old(packet).bulk_bytes() {
                None => r is Ok && *final(packet) == *old(packet),
                Some(value) => match r {
                    Ok(()) => final(packet).bulk_bytes() == Some(zstd_decoded(value)),
                    Err(e) => e is Io && *final(packet) == *old(packet),
                },
            },
    {
        match cmd_ctx.get_data_cmd_type() {
            DataCmdType::GET | DataCmdType::GETSET => {
                let decoded = match packet {
                    Resp::Bulk(BulkStr::Str(s)) => zstd_decode_all(s.as_slice()),
                    _ => {
                        return Ok(());
                    },
                };
                store_decompressed(packet, decoded)
            },
            _ => Err(CompressionError::UnsupportedCmdType),
        }
    }
}

} // verus!
