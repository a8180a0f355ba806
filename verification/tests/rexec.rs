use pp::rexec::{
    check_req_size, encode_meta, parse_meta, push_buffer_size, NumError, PushProgress, Resp,
    TransError, MAX_REQ_SIZE, SIZE_16MB, TRANS_META_WIDTH,
};

#[test]
fn reply_to_a_command() {
    let ok = Resp::from_run(true, Some(0), "hi\n".to_string(), "ignored".to_string());
    assert_eq!((ok.code, ok.stdout.as_str(), ok.stderr.as_str(), ok.file_size), (0, "hi\n", "", 0));
    let bad = Resp::from_run(false, Some(2), "ignored".to_string(), "no such file".to_string());
    assert_eq!((bad.code, bad.stdout.as_str(), bad.stderr.as_str()), (2, "", "no such file"));
    let killed = Resp::from_run(false, None, String::new(), "killed".to_string());
    assert_eq!(killed.code, -1);
    let f = Resp::failure("bash: not found".to_string());
    assert_eq!((f.code, f.stderr.as_str()), (-1, "bash: not found"));
    assert_eq!(Resp::stored().stdout, "Success!");
    let s = Resp::sending(1234);
    assert_eq!((s.stdout.as_str(), s.file_size), ("Request received! sending file...", 1234));
}

#[test]
fn meta_is_zero_padded_decimal() {
    assert_eq!(TRANS_META_WIDTH, 16);
    assert_eq!(encode_meta(123), b"0000000000000123".to_vec());
    for n in [0usize, 9, 4096, 123456789] {
        assert_eq!(encode_meta(n), format!("{d:>0w$}", d = n, w = TRANS_META_WIDTH).into_bytes());
    }
}

#[test]
fn meta_round_trip() {
    for n in [0usize, 1, 10, 4096, 99999, usize::MAX] {
        assert_eq!(parse_meta(&encode_meta(n)), Ok(n));
    }
}

#[test]
fn meta_read_like_from_str() {
    let cases: [&[u8]; 9] = [b"", b"+", b"+12", b"0012", b"12a", b"-1", b" 1", b"99999999999999999999999999", &[0xff, b'1']];
    for c in cases {
        let mine = parse_meta(c);
        let std = String::from_utf8_lossy(c).parse::<usize>();
        match (&mine, &std) {
            (Ok(a), Ok(b)) => assert_eq!(a, b),
            (Err(e), Err(f)) => {
                let kind = match e {
                    NumError::Empty => std::num::IntErrorKind::Empty,
                    NumError::InvalidDigit => std::num::IntErrorKind::InvalidDigit,
                    NumError::Overflow => std::num::IntErrorKind::PosOverflow,
                };
                assert_eq!(&kind, f.kind());
                assert_eq!(TransError::BadMeta(*e).message(), f.to_string());
            }
            _ => panic!("parse_meta and from_str differ on {:?}", c),
        }
    }
}

#[test]
fn request_size_cap() {
    assert_eq!(MAX_REQ_SIZE, 4096);
    assert_eq!(check_req_size(4096), Ok(4096));
    assert_eq!(check_req_size(4097), Err(TransError::TooLarge));
    assert_eq!(TransError::TooLarge.message(), "Maybe an appack!");
}

#[test]
fn push_buffer_is_at_most_16mb() {
    assert_eq!(SIZE_16MB, 16 * 1024 * 1024);
    assert_eq!(push_buffer_size(100), 100);
    assert_eq!(push_buffer_size(SIZE_16MB + 1), SIZE_16MB);
}

#[test]
fn push_completes_when_all_bytes_arrive() {
    let mut p = PushProgress::new(10);
    assert!(!p.is_done());
    assert_eq!(p.on_recv(4), Ok(()));
    assert_eq!(p.received(), 4);
    assert_eq!(p.on_recv(6), Ok(()));
    assert!(p.is_done());
    assert_eq!(p.remaining(), 0);
}

#[test]
fn push_fails_when_the_peer_stops() {
    let mut p = PushProgress::new(10);
    assert_eq!(p.on_recv(3), Ok(()));
    let e = p.on_recv(0);
    assert_eq!(e, Err(TransError::Truncated { declared: 10, received: 3 }));
    assert_eq!(e.unwrap_err().message(), "declared_size: 10, recvd: 3");
    assert_eq!(p.remaining(), 7);
}

use pp::rexec::{transfer_start, transfer_step, Direction, TransferAction, TransferEvent, TransferState};

#[test]
fn push_transfer_goes_through() {
    let (s, width) = transfer_start();
    assert_eq!(width, TRANS_META_WIDTH);
    let (s, a) = transfer_step(s, TransferEvent::Meta(encode_meta(57)));
    assert_eq!(a, TransferAction::RecvReq(57));
    let (s, a) = transfer_step(s, TransferEvent::Req { drct: Direction::Push, file_size: 10 });
    assert_eq!(a, TransferAction::CreateFile(10));
    let (s, a) = transfer_step(s, TransferEvent::FileReady);
    assert_eq!(a, TransferAction::RecvChunk);
    let (s, a) = transfer_step(s, TransferEvent::Recv(4));
    assert_eq!(a, TransferAction::WriteThenRecv(4));
    let (s, a) = transfer_step(s, TransferEvent::Recv(6));
    assert_eq!(a, TransferAction::WriteThenReply(6));
    assert!(matches!(s, TransferState::Closed));
}

#[test]
fn empty_push_is_stored_at_once() {
    let (s, _) = transfer_start();
    let (s, _) = transfer_step(s, TransferEvent::Meta(b"2".to_vec()));
    let (s, a) = transfer_step(s, TransferEvent::Req { drct: Direction::Push, file_size: 0 });
    assert_eq!(a, TransferAction::CreateFile(0));
    let (_, a) = transfer_step(s, TransferEvent::FileReady);
    assert_eq!(a, TransferAction::ReplyStored);
}

#[test]
fn truncated_push_closes_without_reply() {
    let (s, _) = transfer_start();
    let (s, _) = transfer_step(s, TransferEvent::Meta(b"10".to_vec()));
    let (s, _) = transfer_step(s, TransferEvent::Req { drct: Direction::Push, file_size: 100 });
    let (s, _) = transfer_step(s, TransferEvent::FileReady);
    let (s, _) = transfer_step(s, TransferEvent::Recv(30));
    let (s, a) = transfer_step(s, TransferEvent::Recv(0));
    assert_eq!(a, TransferAction::Abort(TransError::Truncated { declared: 100, received: 30 }));
    assert!(matches!(s, TransferState::Closed));
}

#[test]
fn get_transfer_sends_the_file() {
    let (s, _) = transfer_start();
    let (s, _) = transfer_step(s, TransferEvent::Meta(b"0000000000000033".to_vec()));
    let (s, a) = transfer_step(s, TransferEvent::Req { drct: Direction::Get, file_size: 0 });
    assert_eq!(a, TransferAction::OpenForRead);
    let (s, a) = transfer_step(s, TransferEvent::FileSize(4242));
    assert_eq!(a, TransferAction::SendFile(4242));
    assert!(matches!(s, TransferState::Closed));
}

#[test]
fn bad_or_large_requests_are_refused() {
    let (s, _) = transfer_start();
    let (_, a) = transfer_step(s, TransferEvent::Meta(b"12x".to_vec()));
    assert_eq!(a, TransferAction::ReplyError(TransError::BadMeta(NumError::InvalidDigit)));
    let (s, _) = transfer_start();
    let (_, a) = transfer_step(s, TransferEvent::Meta(b"4097".to_vec()));
    assert_eq!(a, TransferAction::Abort(TransError::TooLarge));
    let (s, _) = transfer_start();
    let (_, a) = transfer_step(s, TransferEvent::Recv(3));
    assert_eq!(a, TransferAction::Stop);
}

#[test]
fn default_reply_and_pool_size() {
    let r = Resp::default();
    assert_eq!((r.code, r.stdout.as_str(), r.stderr.as_str(), r.file_size), (0, "", "", 0));
    assert_eq!(pp::rexec::pool_size(1), 4);
    assert_eq!(pp::rexec::pool_size(16), 16);
}
