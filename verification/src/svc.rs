//! Services and the per-stream flow-control state machine.
//!
//! A service is what a stream carries: the interactive shell (channel
//! handles to its pseudo-terminal workers) or the in-process sync state
//! machine, as a tagged variant.  The `Stream` bridges a service to the
//! wire under a strict stop-and-wait credit scheme per direction.

use vstd::prelude::*;
use std::collections::VecDeque;
use crate::chan::BytesPoll;
use crate::proto::{CommandType, Message, MAXDATA};
use crate::shell::ShellService;
use crate::sync::{sync_unchanged, sync_write_ok, spec_sync_step, SyncService};

verus! {

/// How many output chunks one tick will take from a shell service: keeps a
/// tick bounded; the idle timer picks up whatever is left.
pub const SHELL_DRAIN_CAP: usize = 1024;

/// An error a service reports for one inbound write.
#[derive(Clone, Copy, Debug, PartialEq, Eq, Structural)]
pub enum SvcError {
    /// A malformed sync packet: a protocol violation local to the stream.
    Malformed,
    /// The shell's input side is gone: the child has exited.
    Closed,
}

/// The service a stream carries.
pub enum Service {
    Shell(ShellService),
    Sync(SyncService),
}

/// Takes up to `SHELL_DRAIN_CAP` waiting output chunks off a shell service.
/// What comes back depends on the worker threads, so nothing is stated of
/// the chunks.
fn drain_shell(sv: &ShellService) -> (r: Vec<Vec<u8>>) {
    let mut got: Vec<Vec<u8>> = Vec::new();
    let mut polls: usize = 0;
    let mut more = true;
    while more && polls < SHELL_DRAIN_CAP
        invariant
            polls <= SHELL_DRAIN_CAP,
        decreases SHELL_DRAIN_CAP - polls + (if more {
            1int
        } else {
            0int
        }),
    {
        match sv.poll_output() {
            BytesPoll::Got(c) => {
                got.push(c);
                polls = polls + 1;
            },
            BytesPoll::Empty => {
                more = false;
            },
            BytesPoll::Closed => {
                more = false;
            },
        }
    }
    got
}

impl Service {
    /// A sync service keeps its response-size bound; a shell service has no
    /// state of its own to constrain.
    pub open spec fn wf(self) -> bool {
        match self {
            Service::Sync(s) => s.wf(),
            Service::Shell(_) => true,
        }
    }

    /// Hands the payload of one inbound WRTE to the service.  For the sync
    /// service the effect is exactly the sync machine's step; for the shell
    /// the bytes go to the child's stdin and the handle itself is unchanged.
    pub fn handle_write(&mut self, data: Vec<u8>) -> (r: Result<(), SvcError>)
        requires
            old(self).wf(),
        ensures
            final(self).wf(),
            *old(self) is Shell ==> *final(self) == *old(self),
            *old(self) is Sync ==> *final(self) is Sync && ({
                let pre = (*old(self))->Sync_0;
                let post = (*final(self))->Sync_0;
                &&& (r is Ok <==> spec_sync_step(pre.mode@, data@) is Some)
                &&& (r is Ok ==> sync_write_ok(pre, post, data@))
                &&& (r is Err ==> sync_unchanged(pre, post) && r->Err_0 == SvcError::Malformed)
            }),
    {
        match self {
            Service::Shell(sv) => match sv.handle_write(data) {
                Ok(()) => Ok(()),
                Err(_) => Err(SvcError::Closed),
            },
            Service::Sync(sv) => match sv.handle_write(data) {
                Ok(()) => Ok(()),
                Err(_) => Err(SvcError::Malformed),
            },
        }
    }

    /// Takes waiting output chunks; each becomes one WRTE.  For the sync
    /// service these are exactly the queued responses, oldest first.
    pub fn drain_some(&mut self) -> (r: Vec<Vec<u8>>)
        requires
            old(self).wf(),
        ensures
            final(self).wf(),
            *old(self) is Shell ==> *final(self) == *old(self),
            *old(self) is Sync ==> *final(self) is Sync && ({
                let pre = (*old(self))->Sync_0;
                let post = (*final(self))->Sync_0;
                &&& r@ == pre.out_queue@
                &&& post.out_queue@.len() == 0
                &&& post.mode@ == pre.mode@
                &&& post.done == pre.done
            }),
    {
        match self {
            Service::Shell(sv) => drain_shell(sv),
            Service::Sync(sv) => sv.drain_output(),
        }
    }

    /// Whether the stream should be closed: for sync, a QUIT was handled;
    /// for the shell, the child has exited (which other threads decide).
    pub fn is_done(&self) -> (r: bool)
        ensures
            *self is Sync ==> r == (*self)->Sync_0.done,
    {
        match self {
            Service::Shell(sv) => sv.is_done(),
            Service::Sync(sv) => sv.is_done(),
        }
    }

    /// Tears the service down: asks the shell's supervisor to kill the
    /// child; the sync machine has nothing to release.
    pub fn close(&self) {
        match self {
            Service::Shell(sv) => sv.close(),
            Service::Sync(_) => (),
        }
    }
}

/// The name "shell".
pub open spec fn shell_name() -> Seq<u8> {
    seq![0x73u8, 0x68u8, 0x65u8, 0x6cu8, 0x6cu8]
}

/// The name "sync".
pub open spec fn sync_name() -> Seq<u8> {
    seq![0x73u8, 0x79u8, 0x6eu8, 0x63u8]
}

/// `s` without its leading NUL bytes.
pub open spec fn trim_leading_nuls(s: Seq<u8>) -> Seq<u8>
    decreases s.len(),
{
    if s.len() > 0 && s[0] == 0u8 {
        trim_leading_nuls(s.skip(1))
    } else {
        s
    }
}

/// `s` without its trailing NUL bytes.
pub open spec fn trim_trailing_nuls(s: Seq<u8>) -> Seq<u8>
    decreases s.len(),
{
    if s.len() > 0 && s[s.len() - 1] == 0u8 {
        trim_trailing_nuls(s.take(s.len() - 1))
    } else {
        s
    }
}

/// `s` without NUL bytes at either end.
pub open spec fn trim_nuls(s: Seq<u8>) -> Seq<u8> {
    trim_trailing_nuls(trim_leading_nuls(s))
}

proof fn lemma_trim_leading(s: Seq<u8>, i: int)
    requires
        0 <= i <= s.len(),
        forall|j: int| 0 <= j < i ==> s[j] == 0u8,
        i == s.len() || s[i] != 0u8,
    ensures
        trim_leading_nuls(s) == s.skip(i),
    decreases i,
{
    if i > 0 {
        lemma_trim_leading(s.skip(1), i - 1);
        assert(s.skip(1).skip(i - 1) =~= s.skip(i));
    } else {
        assert(s.skip(0) =~= s);
    }
}

proof fn lemma_trim_trailing(s: Seq<u8>, i: int)
    requires
        0 <= i <= s.len(),
        forall|j: int| i <= j < s.len() ==> s[j] == 0u8,
        i == 0 || s[i - 1] != 0u8,
    ensures
        trim_trailing_nuls(s) == s.take(i),
    decreases s.len() - i,
{
    if i < s.len() {
        lemma_trim_trailing(s.take(s.len() - 1), i);
        assert(s.take(s.len() - 1).take(i) =~= s.take(i));
    } else {
        assert(s.take(s.len() as int) =~= s);
    }
}

/// What an OPEN payload asks for (ghost form).
pub enum OpenPlanS {
    /// `shell:<cmd>`; an empty command means the login shell.
    Shell { cmd: Seq<u8> },
    /// `sync:`.
    Sync,
    /// Any other name: the OPEN is rejected.
    Unknown,
}

/// What an OPEN payload asks for.
pub enum OpenPlan {
    Shell { cmd: Vec<u8> },
    Sync,
    Unknown,
}

impl View for OpenPlan {
    type V = OpenPlanS;

    open spec fn view(&self) -> OpenPlanS {
        match self {
            OpenPlan::Shell { cmd } => OpenPlanS::Shell { cmd: cmd@ },
            OpenPlan::Sync => OpenPlanS::Sync,
            OpenPlan::Unknown => OpenPlanS::Unknown,
        }
    }
}

/// How an OPEN payload is read: NUL bytes are trimmed from both ends, the
/// rest splits at the first `:` into a name and an argument, and only the
/// names `shell` and `sync` are known.  A payload without `:` is unknown.
pub open spec fn spec_open_plan(payload: Seq<u8>) -> OpenPlanS {
    let t = trim_nuls(payload);
    if !crate::scan::has_byte(t, 0x3au8) {
        OpenPlanS::Unknown
    } else {
        let c = crate::scan::first_occ(t, 0x3au8);
        if t.take(c) == shell_name() {
            OpenPlanS::Shell { cmd: t.skip(c + 1) }
        } else if t.take(c) == sync_name() {
            OpenPlanS::Sync
        } else {
            OpenPlanS::Unknown
        }
    }
}

/// Reads an OPEN payload as `spec_open_plan` says.
pub fn parse_service_name(payload: &[u8]) -> (r: OpenPlan)
    ensures
        r@ == spec_open_plan(payload@),
{
    let mut lo: usize = 0;
    while lo < payload.len() && *vstd::slice::slice_index_get(payload, lo) == 0
        invariant
            lo <= payload@.len(),
            forall|j: int| 0 <= j < lo ==> #[trigger] payload@[j] == 0u8,
        decreases payload@.len() - lo,
    {
        lo = lo + 1;
    }
    let mut hi: usize = payload.len();
    while hi > lo && *vstd::slice::slice_index_get(payload, hi - 1) == 0
        invariant
            lo <= hi <= payload@.len(),
            forall|j: int| hi <= j < payload@.len() ==> #[trigger] payload@[j] == 0u8,
        decreases hi,
    {
        hi = hi - 1;
    }
    proof {
        lemma_trim_leading(payload@, lo as int);
        lemma_trim_trailing(payload@.skip(lo as int), hi - lo);
        assert(payload@.skip(lo as int).take(hi - lo) =~= payload@.subrange(
            lo as int,
            hi as int,
        ));
    }
    let t = vstd::slice::slice_subrange(payload, lo, hi);
    match crate::scan::find_byte(t, 0x3a) {
        None => OpenPlan::Unknown,
        Some(c) => {
            if c == 5 && *vstd::slice::slice_index_get(t, 0) == 0x73 && *vstd::slice::slice_index_get(
                t,
                1,
            ) == 0x68 && *vstd::slice::slice_index_get(t, 2) == 0x65 && *vstd::slice::slice_index_get(
                t,
                3,
            ) == 0x6c && *vstd::slice::slice_index_get(t, 4) == 0x6c {
                proof {
                    assert(t@.take(c as int) =~= shell_name());
                }
                let cmd = vstd::slice::slice_to_vec(
                    vstd::slice::slice_subrange(t, c + 1, t.len()),
                );
                proof {
                    assert(cmd@ =~= t@.skip(c as int + 1));
                }
                OpenPlan::Shell { cmd }
            } else if c == 4 && *vstd::slice::slice_index_get(t, 0) == 0x73
                && *vstd::slice::slice_index_get(t, 1) == 0x79 && *vstd::slice::slice_index_get(
                t,
                2,
            ) == 0x6e && *vstd::slice::slice_index_get(t, 3) == 0x63 {
                proof {
                    assert(t@.take(c as int) =~= sync_name());
                }
                OpenPlan::Sync
            } else {
                proof {
                    let tk = t@.take(c as int);
                    if tk == shell_name() {
                        assert(tk.len() == 5);
                        assert(tk[0] == 0x73u8 && tk[1] == 0x68u8 && tk[2] == 0x65u8 && tk[3]
                            == 0x6cu8 && tk[4] == 0x6cu8);
                        assert(t@[0] == tk[0] && t@[1] == tk[1] && t@[2] == tk[2] && t@[3] == tk[3]
                            && t@[4] == tk[4]);
                    }
                    if tk == sync_name() {
                        assert(tk.len() == 4);
                        assert(tk[0] == 0x73u8 && tk[1] == 0x79u8 && tk[2] == 0x6eu8 && tk[3]
                            == 0x63u8);
                        assert(t@[0] == tk[0] && t@[1] == tk[1] && t@[2] == tk[2] && t@[3]
                            == tk[3]);
                    }
                }
                OpenPlan::Unknown
            }
        },
    }
}


/// The ghost shape of an outbound message: its command and payload bytes.
pub struct MsgS {
    pub cmd: CommandType,
    pub data: Seq<u8>,
}

pub open spec fn msg_view(m: Message) -> MsgS {
    MsgS { cmd: m.meta.cmd, data: m.data@ }
}

pub open spec fn msgs_view(s: Seq<Message>) -> Seq<MsgS> {
    Seq::new(s.len(), |i: int| msg_view(s[i]))
}

/// The byte views of a sequence of byte vectors.
pub open spec fn views_of(v: Seq<Vec<u8>>) -> Seq<Seq<u8>> {
    Seq::new(v.len(), |i: int| v[i]@)
}

/// The WRTEs of a stream carrying the given chunks, in order.
pub open spec fn wrte_msgs(id: u32, rid: u32, cs: Seq<Seq<u8>>) -> Seq<MsgS> {
    Seq::new(cs.len(), |i: int| wrte_msg(id, rid, cs[i]))
}

/// The OKAY a stream sends: one write of credit for the peer.
pub open spec fn okay_msg(id: u32, rid: u32) -> MsgS {
    MsgS { cmd: CommandType::Ready { local_id: id, remote_id: rid }, data: Seq::empty() }
}

/// A WRTE a stream sends, carrying one service output chunk.
pub open spec fn wrte_msg(id: u32, rid: u32, c: Seq<u8>) -> MsgS {
    MsgS { cmd: CommandType::Write { local_id: id, remote_id: rid }, data: c }
}

/// The CLSE a stream sends when it winds down.
pub open spec fn clse_msg(id: u32, rid: u32) -> MsgS {
    MsgS { cmd: CommandType::Close { local_id: id, remote_id: rid }, data: Seq::empty() }
}

/// Per-stream state: the id pair, the service, WRTEs awaiting credit, the
/// one-OKAY-per-WRTE latch, the stop-and-wait credit, and the teardown flag.
///
/// The ghost counters record the frames this stream has emitted and
/// accepted; the well-formedness invariant ties them to the credit scheme.
pub struct Stream {
    pub id: u32,
    pub remote_id: u32,
    pub svc: Service,
    pub pending_msgs: VecDeque<Message>,
    pub sent_ready: bool,
    pub ok_to_write: bool,
    pub die: bool,
    /// How many OKAYs this stream has emitted (arg0 = its id).
    pub okays_emitted: Ghost<int>,
    /// How many inbound WRTEs it has accepted into its service.
    pub wrtes_accepted: Ghost<int>,
    /// How many WRTEs it has emitted.
    pub wrtes_sent: Ghost<int>,
    /// How many credit OKAYs it has received from the peer.
    pub okays_received: Ghost<int>,
    /// False once the peer sent a WRTE while no credit was outstanding.
    pub credit_respected: Ghost<bool>,
    /// Every accepted inbound payload, in arrival order.
    pub inputs: Ghost<Seq<Seq<u8>>>,
}

impl Stream {
    /// The flow-control invariant.  The count of WRTEs out on the wire
    /// never passes the OKAYs received by more than the one the cleared
    /// credit accounts for; and against a peer that respects its credit,
    /// OKAYs emitted track WRTEs accepted plus the initial grant.  Every
    /// pending message is a well-formed WRTE of this stream.
    pub open spec fn wf(self) -> bool {
        &&& self.svc.wf()
        &&& self.okays_emitted@ >= 0
        &&& self.wrtes_accepted@ >= 0
        &&& self.wrtes_sent@ >= 0
        &&& self.okays_received@ >= 0
        &&& self.wrtes_sent@ <= self.okays_received@ + (if self.ok_to_write {
            0int
        } else {
            1int
        })
        &&& (self.credit_respected@ ==> self.okays_emitted@ == self.wrtes_accepted@ + (
        if self.sent_ready {
            1int
        } else {
            0int
        }))
        &&& forall|i: int|
            0 <= i < self.pending_msgs@.len() ==> (#[trigger] self.pending_msgs@[i]).wf()
                && self.pending_msgs@[i].meta.cmd == (CommandType::Write {
                local_id: self.id,
                remote_id: self.remote_id,
            })
    }

    /// A fresh stream: credit in hand, initial OKAY still owed, nothing
    /// pending.
    pub fn new(id: u32, remote_id: u32, svc: Service) -> (r: Stream)
        requires
            svc.wf(),
        ensures
            r.wf(),
            r.id == id,
            r.remote_id == remote_id,
            r.svc == svc,
            r.pending_msgs@.len() == 0,
            !r.sent_ready,
            r.ok_to_write,
            !r.die,
            r.okays_emitted@ == 0,
            r.wrtes_accepted@ == 0,
            r.wrtes_sent@ == 0,
            r.okays_received@ == 0,
            r.credit_respected@,
            r.inputs@ == Seq::<Seq<u8>>::empty(),
    {
        Stream {
            id,
            remote_id,
            svc,
            pending_msgs: VecDeque::new(),
            sent_ready: false,
            ok_to_write: true,
            die: false,
            okays_emitted: Ghost(0),
            wrtes_accepted: Ghost(0),
            wrtes_sent: Ghost(0),
            okays_received: Ghost(0),
            credit_respected: Ghost(true),
            inputs: Ghost(Seq::empty()),
        }
    }

    /// Marks the stream for teardown: the next tick with nothing pending
    /// emits CLSE and asks to be reaped.
    pub fn schedule_death(&mut self)
        requires
            old(self).wf(),
        ensures
            final(self).wf(),
            *final(self) == (Stream { die: true, ..*old(self) }),
    {
        self.die = true;
    }
}

/// What one inbound message does to a stream.  An OKAY whose arg1 is the
/// stream's id restores the write credit; a WRTE is forwarded to the
/// service, counts as accepted, and clears the OKAY latch so the next tick
/// re-grants credit; everything else is ignored.  A service error (or a
/// WRTE sent without credit against a sync service) marks the stream to
/// die rather than failing the multiplexor.
pub open spec fn handle_rel(pre: Stream, post: Stream, msg: Message) -> bool {
    match msg.meta.cmd {
        CommandType::Ready { local_id: _, remote_id } => {
            if remote_id == pre.id {
                &&& post == (Stream {
                    ok_to_write: true,
                    okays_received: Ghost(pre.okays_received@ + 1),
                    ..pre
                })
            } else {
                post == pre
            }
        },
        CommandType::Write { .. } => {
            &&& post.id == pre.id
            &&& post.remote_id == pre.remote_id
            &&& post.pending_msgs == pre.pending_msgs
            &&& post.sent_ready == false
            &&& post.ok_to_write == pre.ok_to_write
            &&& post.inputs@ == pre.inputs@.push(msg.data@)
            &&& post.okays_emitted == pre.okays_emitted
            &&& post.wrtes_accepted@ == pre.wrtes_accepted@ + 1
            &&& post.wrtes_sent == pre.wrtes_sent
            &&& post.okays_received == pre.okays_received
            &&& post.credit_respected@ == (pre.credit_respected@ && pre.sent_ready)
            &&& (pre.die ==> post.die)
            &&& (pre.svc is Shell ==> post.svc == pre.svc)
            &&& (pre.svc is Sync ==> post.svc is Sync && ({
                let a = pre.svc->Sync_0;
                let b = post.svc->Sync_0;
                if spec_sync_step(a.mode@, msg.data@) is Some {
                    &&& sync_write_ok(a, b, msg.data@)
                    &&& post.die == pre.die
                } else {
                    &&& sync_unchanged(a, b)
                    &&& post.die
                }
            }))
        },
        _ => post == pre,
    }
}

impl Stream {
    /// Applies one routed inbound message, as `handle_rel` states.
    pub fn handle_msg(&mut self, msg: Message)
        requires
            old(self).wf(),
        ensures
            final(self).wf(),
            handle_rel(*old(self), *final(self), msg),
            final(self).id == old(self).id,
            final(self).remote_id == old(self).remote_id,
    {
        match *msg.meta.cmd() {
            CommandType::Ready { local_id: _, remote_id } => {
                if remote_id == self.id {
                    self.ok_to_write = true;
                    proof {
                        self.okays_received@ = self.okays_received@ + 1;
                    }
                }
            },
            CommandType::Write { .. } => {
                let ghost d = msg.data@;
                let was_ready = self.sent_ready;
                self.sent_ready = false;
                proof {
                    self.inputs@ = self.inputs@.push(d);
                    self.wrtes_accepted@ = self.wrtes_accepted@ + 1;
                    self.credit_respected@ = self.credit_respected@ && was_ready;
                }
                let Message { meta: _, data } = msg;
                match self.svc.handle_write(data) {
                    Ok(()) => (),
                    Err(_) => {
                        self.die = true;
                    },
                }
            },
            _ => (),
        }
    }
}

pub proof fn lemma_msgs_view_push(v: Seq<Message>, m: Message)
    ensures
        msgs_view(v.push(m)) == msgs_view(v) + seq![msg_view(m)],
{
    assert(msgs_view(v.push(m)) =~= msgs_view(v) + seq![msg_view(m)]);
}

/// The deep view of a vector of byte vectors is the view of each element.
proof fn lemma_bytes_deep_view(v: Vec<Vec<u8>>)
    ensures
        v.deep_view() == views_of(v@),
{
    assert(v.deep_view() =~~= views_of(v@));
}

/// What one tick does, given the chunks the service handed over

/// (`drained`), the service's liveness answer (`done_now`), and whether an
/// oversize chunk marked the service faulty (`svc_fault`):
///
/// 1. if the OKAY latch is clear, one OKAY goes out and the latch is set;
/// 2. the drained chunks are framed as WRTEs of this stream, in order,
///    behind whatever was already pending;
/// 3. with credit in hand and something pending, exactly the front WRTE
///    goes out and the credit is spent;
/// 4. if the service is done or the stream is marked to die, and nothing
///    is pending, one CLSE goes out and the stream asks to be reaped.
///
/// For a sync service the drained chunks are exactly its queued responses.
pub open spec fn tick_rel_w(
    pre: Stream,
    post: Stream,
    out_pre: Seq<Message>,
    out_post: Seq<Message>,
    reap: bool,
    drained: Seq<Seq<u8>>,
    done_now: bool,
    svc_fault: bool,
) -> bool {
    let granted = !pre.sent_ready;
    let okays: Seq<MsgS> = if granted {
        seq![okay_msg(pre.id, pre.remote_id)]
    } else {
        Seq::empty()
    };
    let pend1 = msgs_view(pre.pending_msgs@) + wrte_msgs(pre.id, pre.remote_id, drained);
    let send_now = pre.ok_to_write && pend1.len() > 0;
    let wrtes: Seq<MsgS> = if send_now {
        seq![pend1[0]]
    } else {
        Seq::empty()
    };
    let pend2 = if send_now {
        pend1.skip(1)
    } else {
        pend1
    };
    let dying = pre.die || svc_fault;
    let closing = (done_now || dying) && pend2.len() == 0;
    let closes: Seq<MsgS> = if closing {
        seq![clse_msg(pre.id, pre.remote_id)]
    } else {
        Seq::empty()
    };
    &&& (forall|i: int| 0 <= i < drained.len() ==> (#[trigger] drained[i]).len() <= MAXDATA)
    &&& msgs_view(out_post) == msgs_view(out_pre) + okays + wrtes + closes
    &&& msgs_view(post.pending_msgs@) == pend2
    &&& post.sent_ready == true
    &&& post.ok_to_write == (if send_now {
        false
    } else {
        pre.ok_to_write
    })
    &&& post.die == dying
    &&& reap == closing
    &&& post.id == pre.id
    &&& post.remote_id == pre.remote_id
    &&& post.inputs == pre.inputs
    &&& post.okays_emitted@ == pre.okays_emitted@ + (if granted {
        1int
    } else {
        0int
    })
    &&& post.wrtes_accepted == pre.wrtes_accepted
    &&& post.wrtes_sent@ == pre.wrtes_sent@ + (if send_now {
        1int
    } else {
        0int
    })
    &&& post.okays_received == pre.okays_received
    &&& post.credit_respected == pre.credit_respected
    &&& match (pre.svc, post.svc) {
        (Service::Sync(a), Service::Sync(b)) => {
            &&& drained == a.out_queue.deep_view()
            &&& !svc_fault
            &&& done_now == a.done
            &&& b.out_queue@.len() == 0
            &&& b.mode@ == a.mode@
            &&& b.done == a.done
        },
        (Service::Shell(a), Service::Shell(b)) => a == b,
        _ => false,
    }
}

/// One tick related its stream, for some drained chunks, liveness answer
/// and fault flag.
pub open spec fn tick_rel(
    pre: Stream,
    post: Stream,
    out_pre: Seq<Message>,
    out_post: Seq<Message>,
    reap: bool,
) -> bool {
    exists|drained: Seq<Seq<u8>>, done_now: bool, svc_fault: bool|
        tick_rel_w(pre, post, out_pre, out_post, reap, drained, done_now, svc_fault)
}

impl Stream {
    /// One tick: grants the owed OKAY, frames fresh service output, sends
    /// at most one WRTE, and winds the stream down once its service is done
    /// and its queue empty.  Appends what it emits to `out`, in order, and
    /// returns whether the stream is to be reaped.
    pub fn tick(&mut self, out: &mut Vec<Message>) -> (reap: bool)
        requires
            old(self).wf(),
        ensures
            final(self).wf(),
            tick_rel(*old(self), *final(self), old(out)@, final(out)@, reap),
            final(self).id == old(self).id,
            final(self).remote_id == old(self).remote_id,
            final(out)@.len() >= old(out)@.len(),
            final(out)@.subrange(0, old(out)@.len() as int) == old(out)@,
            forall|i: int|
                old(out)@.len() <= i < final(out)@.len() ==> (#[trigger] final(out)@[i]).wf(),
    {
        let ghost pre = *old(self);
        let ghost out0 = out@;
        // 1: the per-message credit grant back to the peer
        let granted = !self.sent_ready;
        if granted {
            let m = Message::ready(self.id, self.remote_id);
            proof {
                assert(m.data@ =~= Seq::<u8>::empty());
                assert(msg_view(m) == okay_msg(pre.id, pre.remote_id));
                lemma_msgs_view_push(out@, m);
            }
            out.push(m);
            self.sent_ready = true;
            proof {
                self.okays_emitted@ = self.okays_emitted@ + 1;
            }
        }
        let ghost out1 = out@;
        let ghost okays: Seq<MsgS> = if granted {
            seq![okay_msg(pre.id, pre.remote_id)]
        } else {
            Seq::empty()
        };
        proof {
            if granted {
                assert(msgs_view(out1) == msgs_view(out0) + okays);
            } else {
                assert(msgs_view(out1) =~= msgs_view(out0) + okays);
            }
            assert(forall|i: int| out0.len() <= i < out1.len() ==> (#[trigger] out1[i]).wf());
        }
        // 2: wrap fresh service output, one WRTE per chunk, no coalescing
        let mut chunks = self.svc.drain_some();
        let ghost svc2 = self.svc;
        let ghost chunk_views = views_of(chunks@);
        let ghost mut drained: Seq<Seq<u8>> = Seq::empty();
        let ghost mut fault: bool = false;
        let ghost mut j: int = 0;
        proof {
            if pre.svc is Sync {
                let a = pre.svc->Sync_0;
                lemma_bytes_deep_view(chunks);
                assert(chunk_views =~= a.out_queue.deep_view());
                assert(forall|i: int|
                    0 <= i < chunk_views.len() ==> (#[trigger] chunk_views[i]).len() <= MAXDATA);
            }
            assert(wrte_msgs(pre.id, pre.remote_id, drained) =~= Seq::<MsgS>::empty());
            assert(msgs_view(self.pending_msgs@) =~= msgs_view(pre.pending_msgs@) + wrte_msgs(
                pre.id,
                pre.remote_id,
                drained,
            ));
            assert(views_of(chunks@) =~= chunk_views.skip(0));
        }
        while chunks.len() > 0
            invariant
                0 <= j <= chunk_views.len(),
                views_of(chunks@) == chunk_views.skip(j),
                self.id == pre.id,
                self.remote_id == pre.remote_id,
                self.svc == svc2,
                self.svc.wf(),
                self.sent_ready == true,
                self.ok_to_write == pre.ok_to_write,
                self.die == (pre.die || fault),
                self.okays_emitted@ == pre.okays_emitted@ + (if granted {
                    1int
                } else {
                    0int
                }),
                self.wrtes_accepted == pre.wrtes_accepted,
                self.wrtes_sent == pre.wrtes_sent,
                self.okays_received == pre.okays_received,
                self.credit_respected == pre.credit_respected,
                self.inputs == pre.inputs,
                out@ == out1,
                forall|i: int| 0 <= i < drained.len() ==> (#[trigger] drained[i]).len() <= MAXDATA,
                msgs_view(self.pending_msgs@) == msgs_view(pre.pending_msgs@) + wrte_msgs(
                    pre.id,
                    pre.remote_id,
                    drained,
                ),
                forall|i: int|
                    0 <= i < self.pending_msgs@.len() ==> (#[trigger] self.pending_msgs@[i]).wf()
                        && self.pending_msgs@[i].meta.cmd == (CommandType::Write {
                        local_id: self.id,
                        remote_id: self.remote_id,
                    }),
                (forall|i: int|
                    0 <= i < chunk_views.len() ==> (#[trigger] chunk_views[i]).len()
                        <= MAXDATA) ==> (!fault && drained == chunk_views.take(j)),
            decreases chunks@.len(),
        {
            let ghost chunks_pre = chunks@;
            let c = chunks.remove(0);
            let ghost cv = c@;
            proof {
                assert(views_of(chunks_pre).len() == chunks_pre.len());
                assert(chunk_views.skip(j).len() == chunks_pre.len());
                assert(j < chunk_views.len());
                assert(cv == views_of(chunks_pre)[0]);
                assert(cv == chunk_views.skip(j)[0]);
                assert(cv == chunk_views[j]);
                assert(chunks@ =~= chunks_pre.remove(0));
                assert(views_of(chunks@).len() == chunk_views.skip(j + 1).len());
                assert forall|i: int|
                    0 <= i < views_of(chunks@).len() implies views_of(chunks@)[i]
                    == chunk_views.skip(j + 1)[i] by {
                    assert(chunks@[i] == chunks_pre[i + 1]);
                    assert(views_of(chunks_pre)[i + 1] == chunks_pre[i + 1]@);
                    assert(chunk_views.skip(j)[i + 1] == chunk_views[j + 1 + i]);
                    assert(chunk_views.skip(j + 1)[i] == chunk_views[j + 1 + i]);
                }
                assert(views_of(chunks@) =~= chunk_views.skip(j + 1));
            }
            if c.len() <= MAXDATA as usize {
                let ghost pend_pre = self.pending_msgs@;
                match Message::write(self.id, self.remote_id, c) {
                    Ok(m) => {
                        self.pending_msgs.push_back(m);
                        proof {
                            drained = drained.push(cv);
                            assert(msg_view(m) == wrte_msg(pre.id, pre.remote_id, cv));
                            assert(msgs_view(self.pending_msgs@) =~= msgs_view(pend_pre) + seq![
                                msg_view(m),
                            ]);
                            assert(msgs_view(self.pending_msgs@) =~= msgs_view(pre.pending_msgs@)
                                + wrte_msgs(pre.id, pre.remote_id, drained));
                        }
                    },
                    Err(_) => {
                        proof {
                            assert(false);
                        }
                    },
                }
            } else {
                self.die = true;
                proof {
                    fault = true;
                }
            }
            proof {
                j = j + 1;
                if forall|i: int|
                    0 <= i < chunk_views.len() ==> (#[trigger] chunk_views[i]).len() <= MAXDATA {
                    assert(chunk_views[j - 1].len() <= MAXDATA);
                    assert(chunk_views.take(j) =~= chunk_views.take(j - 1).push(
                        chunk_views[j - 1],
                    ));
                }
            }
        }
        proof {
            assert(chunk_views.skip(j).len() == 0);
            assert(j == chunk_views.len());
            if pre.svc is Sync {
                assert(chunk_views.take(j) =~= chunk_views);
            }
        }
        // 3: with credit in hand, put one pending WRTE on the wire
        let ghost pend1 = msgs_view(pre.pending_msgs@) + wrte_msgs(pre.id, pre.remote_id, drained);
        let mut sent_one = false;
        if self.ok_to_write && self.pending_msgs.len() > 0 {
            match self.pending_msgs.pop_front() {
                Some(m) => {
                    proof {
                        assert(msg_view(m) == pend1[0]);
                        lemma_msgs_view_push(out@, m);
                    }
                    out.push(m);
                    self.ok_to_write = false;
                    sent_one = true;
                    proof {
                        self.wrtes_sent@ = self.wrtes_sent@ + 1;
                        assert(msgs_view(self.pending_msgs@) =~= pend1.skip(1));
                    }
                },
                None => {
                    proof {
                        assert(false);
                    }
                },
            }
        }
        let ghost out2 = out@;
        let ghost send_now = pre.ok_to_write && pend1.len() > 0;
        let ghost wrtes: Seq<MsgS> = if send_now {
            seq![pend1[0]]
        } else {
            Seq::empty()
        };
        proof {
            assert(sent_one == send_now);
            if send_now {
                assert(msgs_view(out2) == msgs_view(out1) + wrtes);
            } else {
                assert(msgs_view(out2) =~= msgs_view(out1) + wrtes);
            }
            assert(forall|i: int| out0.len() <= i < out2.len() ==> (#[trigger] out2[i]).wf());
        }
        // 4: wind down once the service is done and nothing is pending
        let done_now = self.svc.is_done();
        let reap: bool;
        if (done_now || self.die) && self.pending_msgs.len() == 0 {
            self.svc.close();
            let m = Message::close(self.id, self.remote_id);
            proof {
                assert(m.data@ =~= Seq::<u8>::empty());
                assert(msg_view(m) == clse_msg(pre.id, pre.remote_id));
                lemma_msgs_view_push(out@, m);
            }
            out.push(m);
            reap = true;
        } else {
            reap = false;
        }
        proof {
            let closes: Seq<MsgS> = if reap {
                seq![clse_msg(pre.id, pre.remote_id)]
            } else {
                Seq::empty()
            };
            if reap {
                assert(msgs_view(out@) == msgs_view(out2) + closes);
            } else {
                assert(msgs_view(out@) =~= msgs_view(out2) + closes);
            }
            assert(msgs_view(out@) =~= msgs_view(out0) + okays + wrtes + closes);
            assert(forall|i: int| out0.len() <= i < out@.len() ==> (#[trigger] out@[i]).wf());
            assert(out@.subrange(0, out0.len() as int) =~= out0);
            assert(tick_rel_w(pre, *self, out0, out@, reap, drained, done_now, fault));
        }
        reap
    }
}


/// At most one WRTE of this stream is ever in flight: the WRTEs it has put
/// on the wire never lead the credit OKAYs it has received by more than
/// one.  This is the stop-and-wait discipline, read off the invariant.
pub proof fn lemma_one_wrte_in_flight(s: Stream)
    requires
        s.wf(),
    ensures
        s.wrtes_sent@ - s.okays_received@ <= 1,
{
}

/// Against a peer that respects its credit, the OKAYs a stream has emitted
/// equal the WRTEs it has accepted, plus one once the initial post-OPEN
/// OKAY is out (`sent_ready`); a consumed inbound WRTE clears `sent_ready`
/// until the next tick re-grants it.
pub proof fn lemma_okay_balance(s: Stream)
    requires
        s.wf(),
        s.credit_respected@,
    ensures
        s.okays_emitted@ == s.wrtes_accepted@ + (if s.sent_ready {
            1int
        } else {
            0int
        }),
{
}

/// Inbound dispatch preserves wire order: two payloads accepted one after
/// the other stand in the stream's input record in exactly that order.
/// (`handle_rel` makes every accepted WRTE append its payload.)
pub proof fn lemma_dispatch_preserves_order(s0: Stream, s1: Stream, s2: Stream, m1: Message, m2: Message)
    requires
        m1.meta.cmd is Write,
        m2.meta.cmd is Write,
        handle_rel(s0, s1, m1),
        handle_rel(s1, s2, m2),
    ensures
        s2.inputs@ == s0.inputs@ + seq![m1.data@, m2.data@],
{
    assert(s2.inputs@ =~= s0.inputs@ + seq![m1.data@, m2.data@]);
}

} // verus!

