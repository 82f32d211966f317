use proxy_core::command::{BulkStr, CmdCtx, DataCmdType, Resp};
use proxy_core::compress::{
    cmd_rule, store_compressed, store_decompressed, CmdCompressor, CmdReplyDecompressor, CmdRule,
    CompressionError,
};
use proxy_core::strategy::{AtomicCompressionStrategy, CompressionStrategy};
use std::io::{Error, ErrorKind};
use std::sync::Arc;

fn cmd(cmd_type: DataCmdType, parts: &[&[u8]]) -> CmdCtx {
    CmdCtx::new(cmd_type, parts.iter().map(|p| p.to_vec()).collect())
}

fn element(ctx: &CmdCtx, index: usize) -> Vec<u8> {
    ctx.get_command_element(index).expect("element").clone()
}

#[test]
fn strategy_codes() {
    assert_eq!(CompressionStrategy::Disabled.code(), 0);
    assert_eq!(CompressionStrategy::SetGetOnly.code(), 1);
    assert_eq!(CompressionStrategy::AllowAll.code(), 2);
    assert_eq!(CompressionStrategy::from_code(0), CompressionStrategy::Disabled);
    assert_eq!(CompressionStrategy::from_code(1), CompressionStrategy::SetGetOnly);
    assert_eq!(CompressionStrategy::from_code(2), CompressionStrategy::AllowAll);
    assert_eq!(CompressionStrategy::from_code(200), CompressionStrategy::AllowAll);
}

#[test]
fn atomic_strategy_starts_disabled_and_keeps_what_is_set() {
    let cell = AtomicCompressionStrategy::new();
    assert_eq!(cell.get_strategy(), CompressionStrategy::Disabled);
    cell.set_strategy(CompressionStrategy::SetGetOnly);
    assert_eq!(cell.get_strategy(), CompressionStrategy::SetGetOnly);
    cell.set_strategy(CompressionStrategy::AllowAll);
    assert_eq!(cell.get_strategy(), CompressionStrategy::AllowAll);
    cell.set_strategy(CompressionStrategy::Disabled);
    assert_eq!(cell.get_strategy(), CompressionStrategy::Disabled);
}

#[test]
fn rules_by_command() {
    assert!(matches!(cmd_rule(DataCmdType::SET), CmdRule::Value(2)));
    assert!(matches!(cmd_rule(DataCmdType::GETSET), CmdRule::Value(2)));
    assert!(matches!(cmd_rule(DataCmdType::SETNX), CmdRule::Value(2)));
    assert!(matches!(cmd_rule(DataCmdType::SETEX), CmdRule::Value(3)));
    assert!(matches!(cmd_rule(DataCmdType::PSETEX), CmdRule::Value(3)));
    assert!(matches!(cmd_rule(DataCmdType::APPEND), CmdRule::Restricted));
    assert!(matches!(cmd_rule(DataCmdType::STRLEN), CmdRule::Restricted));
    assert!(matches!(cmd_rule(DataCmdType::MGET), CmdRule::Restricted));
    assert!(matches!(cmd_rule(DataCmdType::GET), CmdRule::Untouched));
    assert!(matches!(cmd_rule(DataCmdType::Others), CmdRule::Untouched));
}

#[test]
fn set_value_is_replaced_by_its_frame() {
    let value = b"hello hello hello hello hello hello".to_vec();
    let mut ctx = cmd(DataCmdType::SET, &[b"SET", b"key", &value]);
    let compressor = CmdCompressor::new(Arc::new(()));
    assert!(compressor.try_compressing_cmd_ctx(&mut ctx).is_ok());
    assert_eq!(element(&ctx, 0), b"SET".to_vec());
    assert_eq!(element(&ctx, 1), b"key".to_vec());
    let stored = element(&ctx, 2);
    assert_ne!(stored, value);
    assert_eq!(stored, zstd::encode_all(value.as_slice(), 1).unwrap());
    assert_eq!(zstd::decode_all(stored.as_slice()).unwrap(), value);
}

#[test]
fn setex_value_is_the_fourth_element() {
    let mut ctx = cmd(DataCmdType::SETEX, &[b"SETEX", b"key", b"10", b"value"]);
    let compressor = CmdCompressor::new(Arc::new(()));
    assert!(compressor.try_compressing_cmd_ctx(&mut ctx).is_ok());
    assert_eq!(element(&ctx, 2), b"10".to_vec());
    assert_eq!(zstd::decode_all(element(&ctx, 3).as_slice()).unwrap(), b"value".to_vec());
}

#[test]
fn restricted_and_untouched_commands() {
    let compressor = CmdCompressor::new(Arc::new(()));
    let mut append = cmd(DataCmdType::APPEND, &[b"APPEND", b"key", b"v"]);
    assert!(matches!(
        compressor.try_compressing_cmd_ctx(&mut append),
        Err(CompressionError::RestrictedCmd)
    ));
    assert_eq!(element(&append, 2), b"v".to_vec());
    let mut get = cmd(DataCmdType::GET, &[b"GET", b"key"]);
    assert!(compressor.try_compressing_cmd_ctx(&mut get).is_ok());
    assert_eq!(element(&get, 1), b"key".to_vec());
    let mut other = cmd(DataCmdType::Others, &[b"LPUSH", b"key", b"v"]);
    assert!(compressor.try_compressing_cmd_ctx(&mut other).is_ok());
    assert_eq!(element(&other, 2), b"v".to_vec());
}

#[test]
fn storing_command_without_a_value_is_invalid() {
    let compressor = CmdCompressor::new(Arc::new(()));
    let mut set = cmd(DataCmdType::SET, &[b"SET", b"key"]);
    assert!(matches!(
        compressor.try_compressing_cmd_ctx(&mut set),
        Err(CompressionError::InvalidRequest)
    ));
    let mut setex = cmd(DataCmdType::SETEX, &[b"SETEX", b"key", b"10"]);
    assert!(matches!(
        compressor.try_compressing_cmd_ctx(&mut setex),
        Err(CompressionError::InvalidRequest)
    ));
}

#[test]
fn get_reply_is_decompressed() {
    let value = b"some stored value".to_vec();
    let frame = zstd::encode_all(value.as_slice(), 1).unwrap();
    let ctx = cmd(DataCmdType::GET, &[b"GET", b"key"]);
    let mut reply = Resp::Bulk(BulkStr::Str(frame.clone()));
    let decompressor = CmdReplyDecompressor::new(Arc::new(()));
    assert!(decompressor.decompress(&ctx, &mut reply).is_ok());
    match reply {
        Resp::Bulk(BulkStr::Str(s)) => {
            assert_eq!(s, value);
            assert_ne!(s, frame);
        }
        other => panic!("unexpected {:?}", other),
    }
}

#[test]
fn reply_that_is_no_frame_fails_in_zstd() {
    let ctx = cmd(DataCmdType::GETSET, &[b"GETSET", b"key", b"v"]);
    let mut reply = Resp::Bulk(BulkStr::Str(b"plain text".to_vec()));
    let decompressor = CmdReplyDecompressor::new(Arc::new(()));
    assert!(matches!(decompressor.decompress(&ctx, &mut reply), Err(CompressionError::Io(_))));
    assert!(matches!(reply, Resp::Bulk(BulkStr::Str(ref s)) if s.as_slice() == b"plain text"));
}

#[test]
fn other_replies_pass_and_other_commands_are_unsupported() {
    let decompressor = CmdReplyDecompressor::new(Arc::new(()));
    let get = cmd(DataCmdType::GET, &[b"GET", b"key"]);
    let mut nil = Resp::Bulk(BulkStr::Nil);
    assert!(decompressor.decompress(&get, &mut nil).is_ok());
    assert!(matches!(nil, Resp::Bulk(BulkStr::Nil)));
    let mut error = Resp::Error(b"ERR".to_vec());
    assert!(decompressor.decompress(&get, &mut error).is_ok());
    assert!(matches!(error, Resp::Error(ref e) if e.as_slice() == b"ERR"));
    let set = cmd(DataCmdType::SET, &[b"SET", b"key", b"v"]);
    let mut ok = Resp::Simple(b"OK".to_vec());
    assert!(matches!(
        decompressor.decompress(&set, &mut ok),
        Err(CompressionError::UnsupportedCmdType)
    ));
}

#[test]
fn outcomes_are_stored_or_reported() {
    let mut ctx = cmd(DataCmdType::SET, &[b"SET", b"key", b"v"]);
    assert!(store_compressed(&mut ctx, 2, Ok(b"frame".to_vec())).is_ok());
    assert_eq!(element(&ctx, 2), b"frame".to_vec());
    assert!(matches!(
        store_compressed(&mut ctx, 3, Ok(b"x".to_vec())),
        Err(CompressionError::InvalidRequest)
    ));
    match store_compressed(&mut ctx, 2, Err(Error::new(ErrorKind::InvalidData, "bad"))) {
        Err(CompressionError::Io(e)) => assert_eq!(e.kind(), ErrorKind::InvalidData),
        other => panic!("unexpected {:?}", other),
    }
    assert_eq!(element(&ctx, 2), b"frame".to_vec());

    let mut reply = Resp::Integer(b"1".to_vec());
    assert!(matches!(
        store_decompressed(&mut reply, Ok(b"x".to_vec())),
        Err(CompressionError::InvalidResp)
    ));
    let mut bulk = Resp::Bulk(BulkStr::Str(b"old".to_vec()));
    assert!(store_decompressed(&mut bulk, Ok(b"new".to_vec())).is_ok());
    assert!(matches!(bulk, Resp::Bulk(BulkStr::Str(ref s)) if s.as_slice() == b"new"));
    assert!(matches!(
        store_decompressed(&mut bulk, Err(Error::new(ErrorKind::Other, "bad"))),
        Err(CompressionError::Io(_))
    ));
}

#[test]
fn command_elements_can_be_read_and_changed() {
    let mut ctx = cmd(DataCmdType::SET, &[b"SET", b"key", b"v"]);
    assert_eq!(ctx.get_data_cmd_type(), DataCmdType::SET);
    assert!(ctx.get_command_element(3).is_none());
    assert!(ctx.change_cmd_element(1, b"other".to_vec()));
    assert_eq!(element(&ctx, 1), b"other".to_vec());
    assert!(!ctx.change_cmd_element(3, b"x".to_vec()));
    let mut reply = Resp::Bulk(BulkStr::Nil);
    assert!(!reply.change_bulk_str(b"x".to_vec()));
}

#[test]
fn error_description() {
    assert_eq!(CompressionError::RestrictedCmd.description(), "compression error");
    assert_eq!(
        CompressionError::Io(Error::new(ErrorKind::Other, "x")).description(),
        "compression error"
    );
}
