//! The `sync:` service: ADB's file-sync sub-protocol as a request/response
//! state machine.  Each inbound WRTE carries one or more sync packets
//! (4-byte ASCII tag, little-endian length, then a tag-specific payload);
//! each recognized request queues one response for the next tick.

use vstd::prelude::*;
use vstd::bytes::*;

verus! {

/// The tag "STAT".
pub open spec fn stat_tag() -> Seq<u8> {
    seq![0x53u8, 0x54u8, 0x41u8, 0x54u8]
}

/// The tag "SEND".
pub open spec fn send_tag() -> Seq<u8> {
    seq![0x53u8, 0x45u8, 0x4eu8, 0x44u8]
}

/// The tag "DATA".
pub open spec fn data_tag() -> Seq<u8> {
    seq![0x44u8, 0x41u8, 0x54u8, 0x41u8]
}

/// The tag "DONE".
pub open spec fn done_tag() -> Seq<u8> {
    seq![0x44u8, 0x4fu8, 0x4eu8, 0x45u8]
}

/// The tag "QUIT".
pub open spec fn quit_tag() -> Seq<u8> {
    seq![0x51u8, 0x55u8, 0x49u8, 0x54u8]
}

/// The tag "FAIL".
pub open spec fn fail_tag() -> Seq<u8> {
    seq![0x46u8, 0x41u8, 0x49u8, 0x4cu8]
}

/// The tag "OKAY".
pub open spec fn okay_tag() -> Seq<u8> {
    seq![0x4fu8, 0x4bu8, 0x41u8, 0x59u8]
}

/// A sync response, framed by `to_bytes`.
#[derive(Clone, Copy, Debug, PartialEq, Eq, Structural)]
pub enum Response {
    Stat { mode: u32, size: u32, mtime: u32 },
    Fail,
    Okay,
}

impl Response {
    /// The wire form: `STAT` carries three little-endian words; `FAIL` and
    /// `OKAY` are their four tag bytes alone.
    pub open spec fn bytes_spec(self) -> Seq<u8> {
        match self {
            Response::Stat { mode, size, mtime } => stat_tag() + spec_u32_to_le_bytes(mode)
                + spec_u32_to_le_bytes(size) + spec_u32_to_le_bytes(mtime),
            Response::Fail => fail_tag(),
            Response::Okay => okay_tag(),
        }
    }

    /// Frames the response for one WRTE payload.
    pub fn to_bytes(self) -> (r: Vec<u8>)
        ensures
            r@ == self.bytes_spec(),
    {
        match self {
            Response::Stat { mode, size, mtime } => {
                let mut r: Vec<u8> = vec![0x53u8, 0x54u8, 0x41u8, 0x54u8];
                let mut w = u32_to_le_bytes(mode);
                r.append(&mut w);
                let mut w = u32_to_le_bytes(size);
                r.append(&mut w);
                let mut w = u32_to_le_bytes(mtime);
                r.append(&mut w);
                proof {
                    assert(r@ =~= self.bytes_spec());
                }
                r
            },
            Response::Fail => {
                let r: Vec<u8> = vec![0x46u8, 0x41u8, 0x49u8, 0x4cu8];
                proof {
                    assert(r@ =~= fail_tag());
                }
                r
            },
            Response::Okay => {
                let r: Vec<u8> = vec![0x4fu8, 0x4bu8, 0x41u8, 0x59u8];
                proof {
                    assert(r@ =~= okay_tag());
                }
                r
            },
        }
    }
}

/// A parsed sync request (ghost form, over byte sequences).
pub enum SyncReqS {
    /// `STAT` with the path to look up.
    Stat { path: Seq<u8> },
    /// A completed `SEND` transaction: its `path,mode` header was seen and a
    /// `DONE` chunk has closed it.
    Send { path: Seq<u8>, mode: u32 },
    /// `QUIT`: acknowledge and wind the stream down.
    Quit,
}

/// The parser state between WRTEs (ghost form).
pub enum SyncModeS {
    /// Expecting a packet tag.
    Normal,
    /// Inside a `SEND` transaction, expecting `DATA` or `DONE` chunks.
    Receiving { path: Seq<u8>, mode: u32 },
}

/// Every byte of `s` is an ASCII decimal digit, and there is at least one.
pub open spec fn is_digits(s: Seq<u8>) -> bool {
    &&& s.len() > 0
    &&& forall|i: int| 0 <= i < s.len() ==> 0x30u8 <= #[trigger] s[i] <= 0x39u8
}

/// The value of `s` read as a decimal number.
pub open spec fn dec_val(s: Seq<u8>) -> int
    decreases s.len(),
{
    if s.len() == 0 {
        0
    } else {
        dec_val(s.take(s.len() - 1)) * 10 + (s[s.len() - 1] - 0x30u8)
    }
}

/// A `SEND` header payload splits at its first comma into a path and a
/// decimal mode that fits 32 bits.
pub open spec fn send_header_ok(pm: Seq<u8>) -> bool {
    &&& crate::scan::has_byte(pm, 0x2cu8)
    &&& is_digits(pm.skip(crate::scan::first_occ(pm, 0x2cu8) + 1))
    &&& dec_val(pm.skip(crate::scan::first_occ(pm, 0x2cu8) + 1)) <= u32::MAX
}

/// What one WRTE payload `s`, arriving in parser state `m`, parses to: the
/// requests it completes and the state left behind, or `None` when the
/// packet is malformed (truncated, an unknown tag, or a bad `SEND` header).
pub open spec fn spec_sync_step(m: SyncModeS, s: Seq<u8>) -> Option<(Seq<SyncReqS>, SyncModeS)>
    decreases s.len(),
{
    if s.len() == 0 {
        Some((seq![], m))
    } else if s.len() < 8 {
        None
    } else {
        let tag = s.subrange(0, 4);
        let len = spec_u32_from_le_bytes(s.subrange(4, 8)) as int;
        match m {
            SyncModeS::Normal => {
                if tag == stat_tag() {
                    if s.len() >= 8 + len {
                        prepend_req(
                            SyncReqS::Stat { path: s.subrange(8, 8 + len) },
                            spec_sync_step(SyncModeS::Normal, s.skip(8 + len)),
                        )
                    } else {
                        None
                    }
                } else if tag == send_tag() {
                    if s.len() >= 8 + len && send_header_ok(s.subrange(8, 8 + len)) {
                        let pm = s.subrange(8, 8 + len);
                        let c = crate::scan::first_occ(pm, 0x2cu8);
                        spec_sync_step(
                            SyncModeS::Receiving {
                                path: pm.take(c),
                                mode: dec_val(pm.skip(c + 1)) as u32,
                            },
                            s.skip(8 + len),
                        )
                    } else {
                        None
                    }
                } else if tag == quit_tag() {
                    prepend_req(SyncReqS::Quit, spec_sync_step(SyncModeS::Normal, s.skip(8)))
                } else {
                    None
                }
            },
            SyncModeS::Receiving { path, mode } => {
                if tag == data_tag() {
                    if s.len() >= 8 + len {
                        spec_sync_step(SyncModeS::Receiving { path, mode }, s.skip(8 + len))
                    } else {
                        None
                    }
                } else if tag == done_tag() {
                    // the length word of DONE carries the file's mtime; it is
                    // read past, as the filesystem write is out of scope
                    prepend_req(
                        SyncReqS::Send { path, mode },
                        spec_sync_step(SyncModeS::Normal, s.skip(8)),
                    )
                } else {
                    None
                }
            },
        }
    }
}

/// Puts `r` in front of the requests of `rest`, when `rest` parsed.
pub open spec fn prepend_req(r: SyncReqS, rest: Option<(Seq<SyncReqS>, SyncModeS)>) -> Option<
    (Seq<SyncReqS>, SyncModeS),
> {
    match rest {
        Some((q, m)) => Some((seq![r] + q, m)),
        None => None,
    }
}

/// Copies a byte vector.
fn clone_bytes(v: &Vec<u8>) -> (r: Vec<u8>)
    ensures
        r@ == v@,
{
    vstd::slice::slice_to_vec(v.as_slice())
}

/// Reading more digits never shrinks a non-negative value.
proof fn lemma_dec_val_take_monotone(s: Seq<u8>, i: int, j: int)
    requires
        0 <= i <= j <= s.len(),
        dec_val(s.take(i)) >= 0,
        forall|k: int| i <= k < j ==> #[trigger] s[k] >= 0x30u8,
    ensures
        dec_val(s.take(i)) <= dec_val(s.take(j)),
    decreases j - i,
{
    if i < j {
        lemma_dec_val_take_monotone(s, i, j - 1);
        assert(s.take(j).take(j - 1) =~= s.take(j - 1));
        assert(dec_val(s.take(j)) == dec_val(s.take(j - 1)) * 10 + (s[j - 1] - 0x30u8));
    }
}

/// Parses an ASCII decimal number; refuses empty input, a non-digit, and a
/// value over 32 bits.
pub fn parse_u32_dec(s: &[u8]) -> (r: Option<u32>)
    ensures
        r is Some <==> is_digits(s@) && dec_val(s@) <= u32::MAX,
        r is Some ==> r->Some_0 == dec_val(s@),
{
    if s.len() == 0 {
        return None;
    }
    let mut val: u64 = 0;
    let mut i: usize = 0;
    while i < s.len()
        invariant
            0 <= i <= s@.len(),
            s@.len() > 0,
            forall|k: int| 0 <= k < i ==> 0x30u8 <= #[trigger] s@[k] <= 0x39u8,
            val == dec_val(s@.take(i as int)),
            val <= u32::MAX,
        decreases s@.len() - i,
    {
        let b = *vstd::slice::slice_index_get(s, i);
        if b < 0x30 || b > 0x39 {
            return None;
        }
        let d = (b - 0x30) as u64;
        let next = val * 10 + d;
        proof {
            assert(s@.take(i + 1).take(i as int) =~= s@.take(i as int));
            assert(dec_val(s@.take(i + 1)) == dec_val(s@.take(i as int)) * 10 + (s@[i as int]
                - 0x30u8));
        }
        if next > u32::MAX as u64 {
            proof {
                if is_digits(s@) {
                    lemma_dec_val_take_monotone(s@, i + 1, s@.len() as int);
                    assert(s@.take(s@.len() as int) =~= s@);
                }
            }
            return None;
        }
        val = next;
        i = i + 1;
    }
    proof {
        assert(s@.take(s@.len() as int) =~= s@);
    }
    Some(val as u32)
}

/// A parsed sync request.
pub enum SyncRequest {
    /// `STAT` with the path to look up.
    Stat { path: Vec<u8> },
    /// A completed `SEND` transaction.
    Send { path: Vec<u8>, mode: u32 },
    /// `QUIT`.
    Quit,
}

impl View for SyncRequest {
    type V = SyncReqS;

    open spec fn view(&self) -> SyncReqS {
        match self {
            SyncRequest::Stat { path } => SyncReqS::Stat { path: path@ },
            SyncRequest::Send { path, mode } => SyncReqS::Send { path: path@, mode: *mode },
            SyncRequest::Quit => SyncReqS::Quit,
        }
    }
}

/// The parser state between WRTEs.
pub enum SyncMode {
    Normal,
    Receiving { path: Vec<u8>, mode: u32 },
}

impl View for SyncMode {
    type V = SyncModeS;

    open spec fn view(&self) -> SyncModeS {
        match self {
            SyncMode::Normal => SyncModeS::Normal,
            SyncMode::Receiving { path, mode } => SyncModeS::Receiving {
                path: path@,
                mode: *mode,
            },
        }
    }
}

/// The views of a request list.
pub open spec fn reqs_view(v: Seq<SyncRequest>) -> Seq<SyncReqS> {
    v.map_values(|r: SyncRequest| r@)
}

/// Puts `pre` in front of the requests of `rest`, when `rest` parsed.
pub open spec fn prepend_reqs(pre: Seq<SyncReqS>, rest: Option<(Seq<SyncReqS>, SyncModeS)>) -> Option<
    (Seq<SyncReqS>, SyncModeS),
> {
    match rest {
        Some((q, m)) => Some((pre + q, m)),
        None => None,
    }
}

proof fn lemma_reqs_view_push(v: Seq<SyncRequest>, r: SyncRequest)
    ensures
        reqs_view(v.push(r)) == reqs_view(v) + seq![r@],
{
    assert(reqs_view(v.push(r)) =~= reqs_view(v) + seq![r@]);
}

/// A malformed sync packet: a protocol violation local to the stream.
#[derive(Clone, Copy, Debug, PartialEq, Eq, Structural)]
pub enum SyncError {
    Malformed,
}

/// Which of the five tags four bytes are, if any.
proof fn lemma_tag_of(t: Seq<u8>)
    requires
        t.len() == 4,
    ensures
        (t == stat_tag()) <==> (t[0] == 0x53u8 && t[1] == 0x54u8 && t[2] == 0x41u8 && t[3]
            == 0x54u8),
        (t == send_tag()) <==> (t[0] == 0x53u8 && t[1] == 0x45u8 && t[2] == 0x4eu8 && t[3]
            == 0x44u8),
        (t == data_tag()) <==> (t[0] == 0x44u8 && t[1] == 0x41u8 && t[2] == 0x54u8 && t[3]
            == 0x41u8),
        (t == done_tag()) <==> (t[0] == 0x44u8 && t[1] == 0x4fu8 && t[2] == 0x4eu8 && t[3]
            == 0x45u8),
        (t == quit_tag()) <==> (t[0] == 0x51u8 && t[1] == 0x55u8 && t[2] == 0x49u8 && t[3]
            == 0x54u8),
{
    if t[0] == 0x53u8 && t[1] == 0x54u8 && t[2] == 0x41u8 && t[3] == 0x54u8 {
        assert(t =~= stat_tag());
    }
    if t[0] == 0x53u8 && t[1] == 0x45u8 && t[2] == 0x4eu8 && t[3] == 0x44u8 {
        assert(t =~= send_tag());
    }
    if t[0] == 0x44u8 && t[1] == 0x41u8 && t[2] == 0x54u8 && t[3] == 0x41u8 {
        assert(t =~= data_tag());
    }
    if t[0] == 0x44u8 && t[1] == 0x4fu8 && t[2] == 0x4eu8 && t[3] == 0x45u8 {
        assert(t =~= done_tag());
    }
    if t[0] == 0x51u8 && t[1] == 0x55u8 && t[2] == 0x49u8 && t[3] == 0x54u8 {
        assert(t =~= quit_tag());
    }
}

/// Parses the packets of one WRTE payload, continuing from `m`: the mirror
/// of `spec_sync_step`, packet by packet.
pub fn parse_packets(m: &SyncMode, packet: &[u8]) -> (r: Result<
    (Vec<SyncRequest>, SyncMode),
    SyncError,
>)
    ensures
        r is Ok <==> spec_sync_step(m@, packet@) is Some,
        r is Ok ==> reqs_view(r->Ok_0.0@) == spec_sync_step(m@, packet@)->Some_0.0
            && r->Ok_0.1@ == spec_sync_step(m@, packet@)->Some_0.1,
{
    let mut cur: SyncMode = match m {
        SyncMode::Normal => SyncMode::Normal,
        SyncMode::Receiving { path, mode } => SyncMode::Receiving {
            path: clone_bytes(path),
            mode: *mode,
        },
    };
    let mut reqs: Vec<SyncRequest> = Vec::new();
    let mut idx: usize = 0;
    proof {
        assert(packet@.skip(0) =~= packet@);
        assert(reqs_view(reqs@) =~= Seq::<SyncReqS>::empty());
        if spec_sync_step(cur@, packet@) is Some {
            assert(Seq::<SyncReqS>::empty() + spec_sync_step(cur@, packet@)->Some_0.0
                =~= spec_sync_step(cur@, packet@)->Some_0.0);
        }
    }
    loop
        invariant
            idx <= packet@.len(),
            spec_sync_step(m@, packet@) == prepend_reqs(
                reqs_view(reqs@),
                spec_sync_step(cur@, packet@.skip(idx as int)),
            ),
        decreases packet@.len() - idx,
    {
        let ghost rem = packet@.skip(idx as int);
        let rem_len = packet.len() - idx;
        if rem_len == 0 {
            proof {
                assert(rem =~= Seq::<u8>::empty());
                assert(reqs_view(reqs@) + Seq::<SyncReqS>::empty() =~= reqs_view(reqs@));
            }
            return Ok((reqs, cur));
        }
        if rem_len < 8 {
            return Err(SyncError::Malformed);
        }
        let b0 = *vstd::slice::slice_index_get(packet, idx);
        let b1 = *vstd::slice::slice_index_get(packet, idx + 1);
        let b2 = *vstd::slice::slice_index_get(packet, idx + 2);
        let b3 = *vstd::slice::slice_index_get(packet, idx + 3);
        let len_u32 = u32_from_le_bytes(vstd::slice::slice_subrange(packet, idx + 4, idx + 8));
        let len = len_u32 as usize;
        proof {
            assert(rem.subrange(0, 4) =~= seq![b0, b1, b2, b3]);
            assert(rem.subrange(4, 8) =~= packet@.subrange(idx as int + 4, idx as int + 8));
            lemma_tag_of(rem.subrange(0, 4));
        }
        let ghost pre_reqs = reqs@;
        let ghost pre_mode = cur@;
        match cur {
            SyncMode::Normal => {
                if b0 == 0x53 && b1 == 0x54 && b2 == 0x41 && b3 == 0x54 {
                    // STAT
                    if rem_len - 8 < len {
                        return Err(SyncError::Malformed);
                    }
                    let path = vstd::slice::slice_to_vec(
                        vstd::slice::slice_subrange(packet, idx + 8, idx + 8 + len),
                    );
                    proof {
                        assert(path@ =~= rem.subrange(8, 8 + len_u32 as int));
                    }
                    reqs.push(SyncRequest::Stat { path });
                    cur = SyncMode::Normal;
                    idx = idx + 8 + len;
                    proof {
                        lemma_reqs_view_push(pre_reqs, reqs@[reqs@.len() - 1]);
                        assert(rem.skip(8 + len_u32 as int) =~= packet@.skip(idx as int));
                        if spec_sync_step(cur@, packet@.skip(idx as int)) is Some {
                            let q = spec_sync_step(cur@, packet@.skip(idx as int))->Some_0.0;
                            assert((reqs_view(pre_reqs) + seq![reqs@[reqs@.len() - 1]@]) + q
                                =~= reqs_view(pre_reqs) + (seq![reqs@[reqs@.len() - 1]@] + q));
                        }
                    }
                } else if b0 == 0x53 && b1 == 0x45 && b2 == 0x4e && b3 == 0x44 {
                    // SEND
                    if rem_len - 8 < len {
                        return Err(SyncError::Malformed);
                    }
                    let pm_slice = vstd::slice::slice_subrange(packet, idx + 8, idx + 8 + len);
                    proof {
                        assert(pm_slice@ =~= rem.subrange(8, 8 + len_u32 as int));
                    }
                    let c = match crate::scan::find_byte(pm_slice, 0x2c) {
                        Some(c) => c,
                        None => {
                            return Err(SyncError::Malformed);
                        },
                    };
                    let mode_bits = match parse_u32_dec(
                        vstd::slice::slice_subrange(pm_slice, c + 1, len),
                    ) {
                        Some(v) => v,
                        None => {
                            proof {
                                assert(pm_slice@.subrange(c as int + 1, len as int)
                                    =~= pm_slice@.skip(c as int + 1));
                            }
                            return Err(SyncError::Malformed);
                        },
                    };
                    let path = vstd::slice::slice_to_vec(
                        vstd::slice::slice_subrange(pm_slice, 0, c),
                    );
                    proof {
                        assert(pm_slice@.subrange(c as int + 1, len as int) =~= pm_slice@.skip(
                            c as int + 1,
                        ));
                        assert(path@ =~= pm_slice@.take(c as int));
                        assert(send_header_ok(pm_slice@));
                    }
                    cur = SyncMode::Receiving { path, mode: mode_bits };
                    idx = idx + 8 + len;
                    proof {
                        assert(rem.skip(8 + len_u32 as int) =~= packet@.skip(idx as int));
                    }
                } else if b0 == 0x51 && b1 == 0x55 && b2 == 0x49 && b3 == 0x54 {
                    // QUIT
                    reqs.push(SyncRequest::Quit);
                    cur = SyncMode::Normal;
                    idx = idx + 8;
                    proof {
                        lemma_reqs_view_push(pre_reqs, reqs@[reqs@.len() - 1]);
                        assert(rem.skip(8) =~= packet@.skip(idx as int));
                        if spec_sync_step(cur@, packet@.skip(idx as int)) is Some {
                            let q = spec_sync_step(cur@, packet@.skip(idx as int))->Some_0.0;
                            assert((reqs_view(pre_reqs) + seq![SyncReqS::Quit]) + q
                                =~= reqs_view(pre_reqs) + (seq![SyncReqS::Quit] + q));
                        }
                    }
                } else {
                    return Err(SyncError::Malformed);
                }
            },
            SyncMode::Receiving { path, mode } => {
                if b0 == 0x44 && b1 == 0x41 && b2 == 0x54 && b3 == 0x41 {
                    // DATA: the chunk bytes are read past; the filesystem
                    // write is out of scope
                    if rem_len - 8 < len {
                        return Err(SyncError::Malformed);
                    }
                    cur = SyncMode::Receiving { path, mode };
                    idx = idx + 8 + len;
                    proof {
                        assert(rem.skip(8 + len_u32 as int) =~= packet@.skip(idx as int));
                    }
                } else if b0 == 0x44 && b1 == 0x4f && b2 == 0x4e && b3 == 0x45 {
                    // DONE
                    reqs.push(SyncRequest::Send { path, mode });
                    cur = SyncMode::Normal;
                    idx = idx + 8;
                    proof {
                        lemma_reqs_view_push(pre_reqs, reqs@[reqs@.len() - 1]);
                        assert(rem.skip(8) =~= packet@.skip(idx as int));
                        if spec_sync_step(cur@, packet@.skip(idx as int)) is Some {
                            let q = spec_sync_step(cur@, packet@.skip(idx as int))->Some_0.0;
                            assert((reqs_view(pre_reqs) + seq![reqs@[reqs@.len() - 1]@]) + q
                                =~= reqs_view(pre_reqs) + (seq![reqs@[reqs@.len() - 1]@] + q));
                        }
                    }
                } else {
                    return Err(SyncError::Malformed);
                }
            },
        }
    }
}

/// Relies on nix::sys::stat::stat: fills a stat record for the path or
/// fails.  The outcome depends on the filesystem, so nothing is stated
/// beyond the shape; the fields passed on are st_mode, st_size and st_mtime.
#[verifier::external_body]
fn stat_file(path: &[u8]) -> (r: Option<(u32, i64, i64)>) {
    match nix::sys::stat::stat(path) {
        Ok(st) => Some((st.st_mode, st.st_size, st.st_mtime)),
        Err(_) => None,
    }
}

/// The response a STAT request gets for a given stat outcome: the record's
/// mode, size and mtime truncated to 32 bits, or FAIL.
pub open spec fn spec_stat_response(st: Option<(u32, i64, i64)>) -> Response {
    match st {
        Some(t) => Response::Stat { mode: t.0, size: t.1 as u32, mtime: t.2 as u32 },
        None => Response::Fail,
    }
}

/// Builds the STAT response from a stat outcome.
pub fn stat_response(st: Option<(u32, i64, i64)>) -> (r: Response)
    ensures
        r == spec_stat_response(st),
{
    match st {
        Some((mode, size, mtime)) => Response::Stat {
            mode,
            size: #[verifier::truncate] (size as u32),
            mtime: #[verifier::truncate] (mtime as u32),
        },
        None => Response::Fail,
    }
}

/// The response bytes one request produces, given its stat outcome (only a
/// STAT request reads the outcome).
pub open spec fn response_for(q: SyncReqS, st: Option<(u32, i64, i64)>) -> Seq<u8> {
    match q {
        SyncReqS::Stat { .. } => spec_stat_response(st).bytes_spec(),
        SyncReqS::Send { .. } => Response::Okay.bytes_spec(),
        SyncReqS::Quit => Response::Okay.bytes_spec(),
    }
}

/// The response bytes a request list produces, one per request, in order.
pub open spec fn responses_for(qs: Seq<SyncReqS>, sts: Seq<Option<(u32, i64, i64)>>) -> Seq<
    Seq<u8>,
>
    recommends
        sts.len() == qs.len(),
{
    Seq::new(qs.len(), |i: int| response_for(qs[i], sts[i]))
}

/// Whether the list holds a QUIT.
pub open spec fn has_quit(qs: Seq<SyncReqS>) -> bool {
    exists|i: int| 0 <= i < qs.len() && qs[i] is Quit
}

/// The `sync:` service: the parser state, the responses queued for the next
/// tick, and whether a QUIT has wound it down.
pub struct SyncService {
    pub mode: SyncMode,
    pub out_queue: Vec<Vec<u8>>,
    pub done: bool,
}

/// What a successful `handle_write` did, as seen from outside: the parser
/// moved as `spec_sync_step` says, a QUIT set `done`, and one response per
/// request was queued, each as `responses_for` states for some sequence of
/// stat outcomes.
pub open spec fn sync_write_ok(pre: SyncService, post: SyncService, data: Seq<u8>) -> bool {
    &&& spec_sync_step(pre.mode@, data) is Some
    &&& ({
        let (qs, m2) = spec_sync_step(pre.mode@, data)->Some_0;
        &&& post.mode@ == m2
        &&& post.done == (pre.done || has_quit(qs))
        &&& exists|sts: Seq<Option<(u32, i64, i64)>>|
            sts.len() == qs.len() && post.out_queue.deep_view() == pre.out_queue.deep_view()
                + responses_for(qs, sts)
    })
}

/// A refused `handle_write` left the service exactly as it was.
pub open spec fn sync_unchanged(pre: SyncService, post: SyncService) -> bool {
    &&& post.mode@ == pre.mode@
    &&& post.out_queue == pre.out_queue
    &&& post.done == pre.done
}

impl SyncService {
    /// Every queued response is one of the three wire forms, so at most 16
    /// bytes: far below the message payload cap.
    pub open spec fn wf(self) -> bool {
        forall|i: int|
            0 <= i < self.out_queue.deep_view().len() ==> (
            #[trigger] self.out_queue.deep_view()[i]).len() <= 16
    }
    /// A fresh service: expecting a tag, nothing queued, not done.
    pub fn start() -> (r: SyncService)
        ensures
            r.mode@ == SyncModeS::Normal,
            r.out_queue@.len() == 0,
            !r.done,
            r.wf(),
    {
        SyncService { mode: SyncMode::Normal, out_queue: Vec::new(), done: false }
    }

    /// Handles the payload of one inbound WRTE: parses its packets and
    /// queues one response per completed request, in order.  A malformed
    /// packet changes nothing and is reported, so the stream can wind the
    /// service down.  Every response is what `responses_for` states for the
    /// parsed requests and some sequence of stat outcomes; a QUIT sets
    /// `done`.
    pub fn handle_write(&mut self, data: Vec<u8>) -> (r: Result<(), SyncError>)
        ensures
            r is Ok <==> spec_sync_step(old(self).mode@, data@) is Some,
            r is Err ==> sync_unchanged(*old(self), *final(self)),
            r is Ok ==> sync_write_ok(*old(self), *final(self), data@),
            old(self).wf() ==> final(self).wf(),
    {
        let (reqs, new_mode) = match parse_packets(&self.mode, data.as_slice()) {
            Ok(pair) => pair,
            Err(e) => {
                return Err(e);
            },
        };
        self.mode = new_mode;
        let ghost qs = reqs_view(reqs@);
        let ghost old_out = self.out_queue.deep_view();
        let ghost old_done = self.done;
        let ghost mut sts: Seq<Option<(u32, i64, i64)>> = Seq::empty();
        let mut k: usize = 0;
        proof {
            assert(responses_for(qs.take(0), sts) =~= Seq::<Seq<u8>>::empty());
            assert(old_out + responses_for(qs.take(0), sts) =~= old_out);
        }
        while k < reqs.len()
            invariant
                k <= reqs@.len(),
                qs == reqs_view(reqs@),
                qs.len() == reqs@.len(),
                sts.len() == k,
                self.out_queue.deep_view() == old_out + responses_for(qs.take(k as int), sts),
                self.done == (old_done || has_quit(qs.take(k as int))),
                self.mode@ == new_mode@,
                old(self).wf() ==> self.wf(),
            decreases reqs@.len() - k,
        {
            let ghost pre_out = self.out_queue.deep_view();
            let ghost pre_sts = sts;
            let st: Option<(u32, i64, i64)>;
            let resp_bytes: Vec<u8>;
            match &reqs[k] {
                SyncRequest::Stat { path } => {
                    st = stat_file(path.as_slice());
                    let resp = stat_response(st);
                    resp_bytes = resp.to_bytes();
                },
                SyncRequest::Send { .. } => {
                    st = None;
                    resp_bytes = Response::Okay.to_bytes();
                },
                SyncRequest::Quit => {
                    st = None;
                    self.done = true;
                    resp_bytes = Response::Okay.to_bytes();
                },
            }
            proof {
                assert(qs[k as int] == reqs@[k as int]@);
                assert(resp_bytes@ == response_for(qs[k as int], st));
                lemma_auto_spec_u32_to_from_le_bytes();
                assert(resp_bytes@.len() <= 16);
            }
            self.out_queue.push(resp_bytes);
            proof {
                sts = sts.push(st);
                assert(self.out_queue.deep_view() =~~= pre_out + seq![
                    response_for(qs[k as int], st),
                ]);
                assert(responses_for(qs.take(k as int + 1), sts) =~= responses_for(
                    qs.take(k as int),
                    pre_sts,
                ) + seq![response_for(qs[k as int], st)]);
                assert(self.out_queue.deep_view() =~= old_out + responses_for(
                    qs.take(k as int + 1),
                    sts,
                ));
                assert(has_quit(qs.take(k as int + 1)) == (has_quit(qs.take(k as int))
                    || qs[k as int] is Quit)) by {
                    if has_quit(qs.take(k as int)) {
                        let i = choose|i: int|
                            0 <= i < qs.take(k as int).len() && #[trigger] qs.take(k as int)[i]
                                is Quit;
                        assert(qs.take(k as int + 1)[i] is Quit);
                    }
                    if qs[k as int] is Quit {
                        assert(qs.take(k as int + 1)[k as int] is Quit);
                    }
                    if has_quit(qs.take(k as int + 1)) {
                        let i = choose|i: int|
                            0 <= i < qs.take(k as int + 1).len() && #[trigger] qs.take(
                                k as int + 1,
                            )[i] is Quit;
                        if i < k as int {
                            assert(qs.take(k as int)[i] is Quit);
                        }
                    }
                };
            }
            k = k + 1;
        }
        proof {
            assert(qs.take(qs.len() as int) =~= qs);
        }
        Ok(())
    }

    /// Whether a QUIT has been handled: the stream should close.
    pub fn is_done(&self) -> (r: bool)
        ensures
            r == self.done,
    {
        self.done
    }

    /// Takes all queued responses, oldest first; each becomes one WRTE.
    pub fn drain_output(&mut self) -> (r: Vec<Vec<u8>>)
        ensures
            r@ == old(self).out_queue@,
            final(self).out_queue@.len() == 0,
            final(self).mode@ == old(self).mode@,
            final(self).done == old(self).done,
            final(self).wf(),
    {
        self.out_queue.split_off(0)
    }
}

} // verus!
