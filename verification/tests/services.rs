use adbgadget::mux::{DispatchOutcome, Mux};
use adbgadget::proto::{CommandType, Message};
use adbgadget::shell::ShellService;
use adbgadget::svc::{parse_service_name, OpenPlan, Service};
use adbgadget::sync::{parse_u32_dec, Response, SyncError, SyncService};

fn open_msg(peer_id: u32, dest: &[u8]) -> Message {
    Message::mk_msg(CommandType::Open { local_id: peer_id, zero: 0 }, dest.to_vec()).unwrap()
}

fn sync_packet(tag: &[u8], len: u32, payload: &[u8]) -> Vec<u8> {
    let mut pkt = tag.to_vec();
    pkt.extend_from_slice(&len.to_le_bytes());
    pkt.extend_from_slice(payload);
    pkt
}

#[test]
fn service_names_parse_as_name_colon_arg() {
    assert!(matches!(parse_service_name(b"sync:\0"), OpenPlan::Sync));
    assert!(matches!(parse_service_name(b"sync:junk\0"), OpenPlan::Sync));
    match parse_service_name(b"shell:ls\0") {
        OpenPlan::Shell { cmd } => assert_eq!(cmd, b"ls".to_vec()),
        _ => panic!("expected a shell plan"),
    }
    match parse_service_name(b"shell:\0") {
        OpenPlan::Shell { cmd } => assert_eq!(cmd, Vec::<u8>::new()),
        _ => panic!("expected a shell plan"),
    }
    // the argument runs to the end: it may itself hold colons
    match parse_service_name(b"shell:a:b\0") {
        OpenPlan::Shell { cmd } => assert_eq!(cmd, b"a:b".to_vec()),
        _ => panic!("expected a shell plan"),
    }
    assert!(matches!(parse_service_name(b"frob:\0"), OpenPlan::Unknown));
    assert!(matches!(parse_service_name(b"shell\0"), OpenPlan::Unknown));
    assert!(matches!(parse_service_name(b""), OpenPlan::Unknown));
}

#[test]
fn decimal_modes_parse_within_32_bits() {
    assert_eq!(parse_u32_dec(b"0"), Some(0));
    assert_eq!(parse_u32_dec(b"33188"), Some(33188));
    assert_eq!(parse_u32_dec(b"4294967295"), Some(u32::MAX));
    assert_eq!(parse_u32_dec(b"4294967296"), None);
    assert_eq!(parse_u32_dec(b"12a"), None);
    assert_eq!(parse_u32_dec(b""), None);
    assert_eq!(parse_u32_dec(b"00042"), Some(42));
}

#[test]
fn stat_response_is_sixteen_bytes() {
    let resp = Response::Stat { mode: 0o100644, size: 5, mtime: 7 };
    let mut expected = b"STAT".to_vec();
    expected.extend_from_slice(&0o100644u32.to_le_bytes());
    expected.extend_from_slice(&5u32.to_le_bytes());
    expected.extend_from_slice(&7u32.to_le_bytes());
    assert_eq!(resp.to_bytes(), expected);
    assert_eq!(Response::Okay.to_bytes(), b"OKAY".to_vec());
    assert_eq!(Response::Fail.to_bytes(), b"FAIL".to_vec());
}

#[test]
fn sync_stat_answers_stat_or_fail() {
    let mut sv = SyncService::start();
    // "/" exists everywhere: a 16-byte STAT record comes back
    sv.handle_write(sync_packet(b"STAT", 1, b"/")).unwrap();
    let replies = sv.drain_output();
    assert_eq!(replies.len(), 1);
    assert_eq!(&replies[0][0..4], b"STAT");
    assert_eq!(replies[0].len(), 16);
    // a path that cannot exist fails
    sv.handle_write(sync_packet(b"STAT", 26, b"/no/such/path/here/at/all\0"))
        .unwrap();
    let replies = sv.drain_output();
    assert_eq!(replies, vec![b"FAIL".to_vec()]);
    assert!(!sv.is_done());
}

#[test]
fn sync_send_in_one_write_gets_one_okay() {
    let mut sv = SyncService::start();
    let mut pkt = sync_packet(b"SEND", 12, b"/tmp/x,33188");
    pkt.extend_from_slice(&sync_packet(b"DATA", 5, b"hello"));
    pkt.extend_from_slice(&sync_packet(b"DONE", 0, b""));
    sv.handle_write(pkt).unwrap();
    assert_eq!(sv.drain_output(), vec![b"OKAY".to_vec()]);
}

#[test]
fn sync_send_across_writes_waits_for_done() {
    let mut sv = SyncService::start();
    let mut first = sync_packet(b"SEND", 12, b"/tmp/x,33188");
    first.extend_from_slice(&sync_packet(b"DATA", 3, b"one"));
    sv.handle_write(first).unwrap();
    // no DONE yet: nothing to say
    assert_eq!(sv.drain_output(), Vec::<Vec<u8>>::new());
    let mut second = sync_packet(b"DATA", 3, b"two");
    second.extend_from_slice(&sync_packet(b"DONE", 7, b""));
    sv.handle_write(second).unwrap();
    assert_eq!(sv.drain_output(), vec![b"OKAY".to_vec()]);
}

#[test]
fn sync_quit_acknowledges_and_finishes() {
    let mut sv = SyncService::start();
    sv.handle_write(sync_packet(b"QUIT", 0, b"")).unwrap();
    assert_eq!(sv.drain_output(), vec![b"OKAY".to_vec()]);
    assert!(sv.is_done());
}

#[test]
fn sync_rejects_malformed_packets_without_changing_state() {
    let mut sv = SyncService::start();
    assert_eq!(
        sv.handle_write(sync_packet(b"LIST", 0, b"")),
        Err(SyncError::Malformed)
    );
    assert_eq!(sv.handle_write(b"STA".to_vec()), Err(SyncError::Malformed));
    // STAT whose length runs past the packet
    assert_eq!(
        sv.handle_write(sync_packet(b"STAT", 10, b"/x")),
        Err(SyncError::Malformed)
    );
    // SEND with a mode that is not decimal
    assert_eq!(
        sv.handle_write(sync_packet(b"SEND", 7, b"/x,rwxr")),
        Err(SyncError::Malformed)
    );
    // SEND without any comma
    assert_eq!(
        sv.handle_write(sync_packet(b"SEND", 2, b"/x")),
        Err(SyncError::Malformed)
    );
    // the machine still works afterwards
    assert!(!sv.is_done());
    sv.handle_write(sync_packet(b"QUIT", 0, b"")).unwrap();
    assert!(sv.is_done());
}

#[test]
fn handshake_completes_on_the_first_cnxn() {
    let mut mux = Mux::new();
    assert!(!mux.connected);
    mux.note_handshake(&Message::ready(1, 2));
    assert!(!mux.connected);
    let cnxn = Message::connect(0x01000001, 256 * 1024, b"host::\0").unwrap();
    mux.note_handshake(&cnxn);
    assert!(mux.connected);
}

#[test]
fn local_ids_run_from_three_and_are_never_reused() {
    let mut mux = Mux::new();
    let mut out = Vec::new();
    for expected in 3u32..6 {
        match mux.dispatch(open_msg(expected + 10, b"sync:\0"), &mut out) {
            DispatchOutcome::Opened { id } => assert_eq!(id, expected),
            _ => panic!("expected a sync stream"),
        }
    }
    // the peer closes stream 3; its id is not handed out again
    let clse = Message::close(13, 3);
    mux.dispatch(clse, &mut out);
    assert_eq!(mux.streams.len(), 2);
    match mux.dispatch(open_msg(99, b"sync:\0"), &mut out) {
        DispatchOutcome::Opened { id } => assert_eq!(id, 6),
        _ => panic!("expected a sync stream"),
    }
}

#[test]
fn unknown_service_is_rejected_and_nothing_changes() {
    let mut mux = Mux::new();
    let mut out = Vec::new();
    let before = mux.next_id;
    let r = mux.dispatch(open_msg(7, b"frob:\0"), &mut out);
    assert!(matches!(r, DispatchOutcome::Handled));
    assert_eq!(mux.streams.len(), 0);
    assert_eq!(mux.next_id, before);
    assert_eq!(out.len(), 1);
    assert!(matches!(out[0].meta.cmd, CommandType::Close { local_id: 0, remote_id: 7 }));
}

#[test]
fn unroutable_okay_is_rejected_and_the_table_kept() {
    let mut mux = Mux::new();
    let mut out = Vec::new();
    mux.dispatch(open_msg(1, b"sync:\0"), &mut out);
    out.clear();
    let stray = Message::ready(9, 99);
    mux.dispatch(stray, &mut out);
    assert_eq!(out.len(), 1);
    assert!(matches!(out[0].meta.cmd, CommandType::Close { local_id: 0, remote_id: 9 }));
    assert_eq!(mux.streams.len(), 1);
}

#[test]
fn sync_stat_over_the_wire() {
    let mut mux = Mux::new();
    let mut out = Vec::new();
    let r = mux.dispatch(open_msg(2, b"sync:\0"), &mut out);
    assert!(matches!(r, DispatchOutcome::Opened { id: 3 }));
    mux.tick_all(&mut out);
    assert_eq!(out.len(), 1);
    assert!(matches!(out[0].meta.cmd, CommandType::Ready { local_id: 3, remote_id: 2 }));
    out.clear();
    let wrte = Message::write(2, 3, sync_packet(b"STAT", 1, b"/")).unwrap();
    mux.dispatch(wrte, &mut out);
    mux.tick_all(&mut out);
    // the consumed WRTE earns a fresh OKAY, then the STAT record goes out
    assert_eq!(out.len(), 2);
    assert!(matches!(out[0].meta.cmd, CommandType::Ready { local_id: 3, remote_id: 2 }));
    assert!(matches!(out[1].meta.cmd, CommandType::Write { local_id: 3, remote_id: 2 }));
    assert_eq!(&out[1].data[0..4], b"STAT");
    assert_eq!(out[1].data.len(), 16);
}

#[test]
fn sync_quit_over_the_wire_reaps_the_stream() {
    let mut mux = Mux::new();
    let mut out = Vec::new();
    mux.dispatch(open_msg(2, b"sync:\0"), &mut out);
    mux.tick_all(&mut out);
    out.clear();
    let wrte = Message::write(2, 3, sync_packet(b"QUIT", 0, b"")).unwrap();
    mux.dispatch(wrte, &mut out);
    mux.tick_all(&mut out);
    // one OKAY for the consumed WRTE, the OKAY reply, then CLSE; reaped
    assert_eq!(out.len(), 3);
    assert!(matches!(out[0].meta.cmd, CommandType::Ready { local_id: 3, remote_id: 2 }));
    assert!(matches!(out[1].meta.cmd, CommandType::Write { local_id: 3, remote_id: 2 }));
    assert_eq!(out[1].data, b"OKAY".to_vec());
    assert!(matches!(out[2].meta.cmd, CommandType::Close { local_id: 3, remote_id: 2 }));
    assert_eq!(mux.streams.len(), 0);
}

#[test]
fn shell_stream_obeys_stop_and_wait() {
    let mut mux = Mux::new();
    let mut out = Vec::new();
    // host opens shell:ls under its id 1
    let r = mux.dispatch(open_msg(1, b"shell:ls\0"), &mut out);
    let (remote_id, cmd) = match r {
        DispatchOutcome::NeedShell { remote_id, cmd } => (remote_id, cmd),
        _ => panic!("expected a shell request"),
    };
    assert_eq!(remote_id, 1);
    assert_eq!(cmd, b"ls".to_vec());
    // stand in for the pseudo-terminal workers with plain channels
    let (in_tx, in_rx) = crossbeam_channel::unbounded::<Vec<u8>>();
    let (out_tx, out_rx) = crossbeam_channel::unbounded::<Vec<u8>>();
    let (done_tx, done_rx) = crossbeam_channel::unbounded::<()>();
    let (kill_tx, kill_rx) = crossbeam_channel::unbounded::<()>();
    let svc = ShellService::start(in_tx, out_rx, done_rx, kill_tx);
    let id = mux.open_stream(remote_id, Service::Shell(svc));
    assert_eq!(id, 3);
    // the first tick grants the initial OKAY
    mux.tick_all(&mut out);
    assert_eq!(out.len(), 1);
    assert!(matches!(out[0].meta.cmd, CommandType::Ready { local_id: 3, remote_id: 1 }));
    // child output becomes one WRTE
    out_tx.send(b"file1\nfile2\n".to_vec()).unwrap();
    out.clear();
    mux.tick_all(&mut out);
    assert_eq!(out.len(), 1);
    assert!(matches!(out[0].meta.cmd, CommandType::Write { local_id: 3, remote_id: 1 }));
    assert_eq!(out[0].data, b"file1\nfile2\n".to_vec());
    // a second chunk waits: the first WRTE is still in flight
    out_tx.send(b"more\n".to_vec()).unwrap();
    out.clear();
    mux.tick_all(&mut out);
    assert_eq!(out.len(), 0);
    // the host's OKAY re-arms the credit
    mux.dispatch(Message::ready(1, 3), &mut out);
    mux.tick_all(&mut out);
    assert_eq!(out.len(), 1);
    assert_eq!(out[0].data, b"more\n".to_vec());
    // peer input reaches the child's stdin and earns a fresh OKAY
    out.clear();
    mux.dispatch(Message::write(1, 3, b"exit\n".to_vec()).unwrap(), &mut out);
    assert_eq!(in_rx.try_recv().unwrap(), b"exit\n".to_vec());
    mux.tick_all(&mut out);
    assert_eq!(out.len(), 1);
    assert!(matches!(out[0].meta.cmd, CommandType::Ready { local_id: 3, remote_id: 1 }));
    // the child exits: the supervisor's end closes; CLSE goes out, the
    // stream is reaped, and the supervisor is asked to clean up
    drop(done_tx);
    out.clear();
    mux.tick_all(&mut out);
    assert_eq!(out.len(), 1);
    assert!(matches!(out[0].meta.cmd, CommandType::Close { local_id: 3, remote_id: 1 }));
    assert_eq!(mux.streams.len(), 0);
    assert!(kill_rx.try_recv().is_ok());
}
