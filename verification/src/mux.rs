//! The multiplexor: owns the stream table, allocates local ids, dispatches
//! inbound frames to streams, and ticks every stream so each can grant
//! credit, send and wind down.  It hands the frames it wants on the wire
//! back to its caller, in order, and never blocks.

use vstd::prelude::*;
use crate::proto::{CommandType, Message};
use crate::svc::{
    clse_msg, handle_rel, lemma_msgs_view_push, msg_view, msgs_view, parse_service_name,
    spec_open_plan, tick_rel, OpenPlan, OpenPlanS, Service, Stream,
};
use crate::sync::{SyncModeS, SyncService};

verus! {

/// What `dispatch` asks of its caller.
pub enum DispatchOutcome {
    /// The message was fully handled (any reply is already in `out`).
    Handled,
    /// The stream was opened; its fresh local id.
    Opened { id: u32 },
    /// The OPEN asks for a shell: spawn it and hand the service to
    /// `open_stream` with this peer id.  An empty command means the login
    /// shell.
    NeedShell { remote_id: u32, cmd: Vec<u8> },
}

/// The multiplexor state: the streams keyed by their unique local ids, the
/// next id to issue, and whether the CNXN handshake has completed.
pub struct Mux {
    pub streams: Vec<Stream>,
    pub next_id: u32,
    pub connected: bool,
    /// Every local id issued, in order.
    pub issued: Ghost<Seq<u32>>,
}

/// Nothing in the table answers to `target`.
pub open spec fn no_stream(m: Mux, target: u32) -> bool {
    forall|i: int| 0 <= i < m.streams@.len() ==> (#[trigger] m.streams@[i]).id != target
}

/// The table, ids and handshake flag are exactly as they were.
pub open spec fn mux_unchanged(pre: Mux, post: Mux) -> bool {
    &&& post.streams == pre.streams
    &&& post.next_id == pre.next_id
    &&& post.issued == pre.issued
    &&& post.connected == pre.connected
}

/// One message was routed to the stream whose id is `target`: that stream
/// stepped as `handle_rel` says and every other entry is untouched.
pub open spec fn routed_to(pre: Mux, post: Mux, target: u32, msg: Message) -> bool {
    &&& post.next_id == pre.next_id
    &&& post.issued == pre.issued
    &&& post.connected == pre.connected
    &&& exists|k: int|
        0 <= k < pre.streams@.len() && (#[trigger] pre.streams@[k]).id == target
            && post.streams@ == pre.streams@.update(k, post.streams@[k]) && handle_rel(
            pre.streams@[k],
            post.streams@[k],
            msg,
        )
}

/// OKAY and WRTE land on the stream `target` names, or are rejected with
/// `CLSE(0, arg0)` when nothing answers to it, leaving the table unchanged.
pub open spec fn route_spec(
    pre: Mux,
    post: Mux,
    msg: Message,
    target: u32,
    arg0: u32,
    out_pre: Seq<Message>,
    out_post: Seq<Message>,
) -> bool {
    if no_stream(pre, target) {
        &&& mux_unchanged(pre, post)
        &&& msgs_view(out_post) == msgs_view(out_pre).push(clse_msg(0, arg0))
    } else {
        &&& routed_to(pre, post, target, msg)
        &&& out_post == out_pre
    }
}

/// CLSE removes the stream `target` names (closing its service); an unknown
/// target is ignored.
pub open spec fn close_spec(pre: Mux, post: Mux, target: u32) -> bool {
    if no_stream(pre, target) {
        mux_unchanged(pre, post)
    } else {
        &&& post.next_id == pre.next_id
        &&& post.issued == pre.issued
        &&& post.connected == pre.connected
        &&& exists|k: int|
            0 <= k < pre.streams@.len() && (#[trigger] pre.streams@[k]).id == target
                && post.streams@ == pre.streams@.remove(k)
    }
}

/// What ticking the whole table does: the streams step one after the other,
/// in table order, each exactly as `tick_rel` states, threading `out`
/// through; survivors keep their order, and exactly the streams whose tick
/// asked to be reaped are gone.
pub open spec fn ticks_rel(
    pre: Seq<Stream>,
    post: Seq<Stream>,
    out_pre: Seq<Message>,
    out_post: Seq<Message>,
) -> bool
    decreases pre.len(),
{
    if pre.len() == 0 {
        &&& post == Seq::<Stream>::empty()
        &&& out_post == out_pre
    } else {
        exists|s1: Stream, mid: Seq<Message>, reap: bool|
            {
                &&& #[trigger] tick_rel(pre[0], s1, out_pre, mid, reap)
                &&& if reap {
                    ticks_rel(pre.skip(1), post, mid, out_post)
                } else {
                    &&& post.len() > 0
                    &&& post[0] == s1
                    &&& ticks_rel(pre.skip(1), post.skip(1), mid, out_post)
                }
            }
    }
}

/// Extends a tick chain by one more ticked stream at its end.
proof fn lemma_ticks_rel_snoc(
    pre: Seq<Stream>,
    post: Seq<Stream>,
    o0: Seq<Message>,
    o1: Seq<Message>,
    s: Stream,
    s1: Stream,
    o2: Seq<Message>,
    reap: bool,
)
    requires
        ticks_rel(pre, post, o0, o1),
        tick_rel(s, s1, o1, o2, reap),
    ensures
        reap ==> ticks_rel(pre.push(s), post, o0, o2),
        !reap ==> ticks_rel(pre.push(s), post.push(s1), o0, o2),
    decreases pre.len(),
{
    if pre.len() == 0 {
        assert(o1 == o0);
        assert(pre.push(s)[0] == s);
        assert(pre.push(s).skip(1) =~= Seq::<Stream>::empty());
        if reap {
            assert(ticks_rel(pre.push(s).skip(1), post, o2, o2));
            assert(ticks_rel(pre.push(s), post, o0, o2));
        } else {
            assert(post.push(s1)[0] == s1);
            assert(post.push(s1).skip(1) =~= Seq::<Stream>::empty());
            assert(ticks_rel(pre.push(s).skip(1), post.push(s1).skip(1), o2, o2));
            assert(ticks_rel(pre.push(s), post.push(s1), o0, o2));
        }
    } else {
        let (h1, mid0, reap0) = choose|h1: Stream, mid0: Seq<Message>, reap0: bool|
            {
                &&& #[trigger] tick_rel(pre[0], h1, o0, mid0, reap0)
                &&& if reap0 {
                    ticks_rel(pre.skip(1), post, mid0, o1)
                } else {
                    &&& post.len() > 0
                    &&& post[0] == h1
                    &&& ticks_rel(pre.skip(1), post.skip(1), mid0, o1)
                }
            };
        assert(pre.push(s).skip(1) =~= pre.skip(1).push(s));
        assert(pre.push(s)[0] == pre[0]);
        if reap0 {
            lemma_ticks_rel_snoc(pre.skip(1), post, mid0, o1, s, s1, o2, reap);
            if reap {
                assert(ticks_rel(pre.push(s), post, o0, o2));
            } else {
                assert(ticks_rel(pre.push(s), post.push(s1), o0, o2));
            }
        } else {
            lemma_ticks_rel_snoc(pre.skip(1), post.skip(1), mid0, o1, s, s1, o2, reap);
            if reap {
                assert(ticks_rel(pre.push(s), post, o0, o2));
            } else {
                assert(post.push(s1).skip(1) =~= post.skip(1).push(s1));
                assert(post.push(s1)[0] == post[0]);
                assert(ticks_rel(pre.push(s), post.push(s1), o0, o2));
            }
        }
    }
}

impl Mux {
    /// The table invariant: every stream is well formed, its id was issued
    /// (ids run from 3 up to `next_id`), and no id appears twice.
    pub open spec fn wf(self) -> bool {
        &&& self.next_id >= 3
        &&& self.issued@.len() == self.next_id - 3
        &&& (forall|i: int| 0 <= i < self.issued@.len() ==> #[trigger] self.issued@[i] == 3 + i)
        &&& (forall|i: int|
            0 <= i < self.streams@.len() ==> (#[trigger] self.streams@[i]).wf() && 3
                <= self.streams@[i].id < self.next_id)
        &&& (forall|i: int, k: int|
            0 <= i < k < self.streams@.len() ==> (#[trigger] self.streams@[i]).id != (
            #[trigger] self.streams@[k]).id)
    }

    /// A fresh multiplexor: no streams, the first id to issue is 3, the
    /// handshake not yet seen.
    pub fn new() -> (r: Mux)
        ensures
            r.wf(),
            r.next_id == 3,
            r.streams@.len() == 0,
            !r.connected,
            r.issued@.len() == 0,
    {
        Mux { streams: Vec::new(), next_id: 3, connected: false, issued: Ghost(Seq::empty()) }
    }

    /// Handshake phase: the first inbound CNXN flips `connected`; every
    /// other message is discarded.
    pub fn note_handshake(&mut self, msg: &Message)
        requires
            old(self).wf(),
        ensures
            final(self).wf(),
            final(self).connected == (old(self).connected || msg.meta.cmd is Connect),
            final(self).streams == old(self).streams,
            final(self).next_id == old(self).next_id,
            final(self).issued == old(self).issued,
    {
        match *msg.meta.cmd() {
            CommandType::Connect { .. } => {
                self.connected = true;
            },
            _ => (),
        }
    }

    /// Issues the next local id and installs a stream for it.  Ids are
    /// issued strictly in order starting at 3 and are never reused: the id
    /// record only ever grows.
    pub fn open_stream(&mut self, remote_id: u32, svc: Service) -> (id: u32)
        requires
            old(self).wf(),
            old(self).next_id < u32::MAX,
            svc.wf(),
        ensures
            final(self).wf(),
            id == old(self).next_id,
            final(self).next_id == old(self).next_id + 1,
            final(self).issued@ == old(self).issued@.push(id),
            final(self).connected == old(self).connected,
            final(self).streams@ == old(self).streams@.push(
                final(self).streams@[final(self).streams@.len() - 1],
            ),
            ({
                let s = final(self).streams@[final(self).streams@.len() - 1];
                &&& s.id == id
                &&& s.remote_id == remote_id
                &&& s.svc == svc
                &&& !s.sent_ready
                &&& s.ok_to_write
                &&& !s.die
                &&& s.pending_msgs@.len() == 0
                &&& s.inputs@.len() == 0
            }),
    {
        let id = self.next_id;
        self.next_id = self.next_id + 1;
        proof {
            self.issued@ = self.issued@.push(id);
        }
        let s = Stream::new(id, remote_id, svc);
        self.streams.push(s);
        id
    }

    /// Looks the stream table up by local id.
    fn find_stream(&self, target: u32) -> (r: Option<usize>)
        ensures
            r is Some ==> r->Some_0 < self.streams@.len() && self.streams@[r->Some_0 as int].id
                == target,
            r is None ==> no_stream(*self, target),
    {
        let mut i: usize = 0;
        while i < self.streams.len()
            invariant
                i <= self.streams@.len(),
                forall|j: int| 0 <= j < i ==> (#[trigger] self.streams@[j]).id != target,
            decreases self.streams@.len() - i,
        {
            if self.streams[i].id == target {
                return Some(i);
            }
            i = i + 1;
        }
        None
    }

    /// Handles one inbound message past the handshake:
    ///
    /// - OPEN: a `sync:` service is installed at once under a fresh id; a
    ///   `shell:` needs its workers spawned, so the caller is asked; an
    ///   unknown name is rejected with `CLSE(0, arg0)` and no stream is
    ///   created, the next id untouched.
    /// - OKAY and WRTE go to the stream whose id is arg1; if none answers,
    ///   the reply is `CLSE(0, arg0)` and the table is unchanged.
    /// - CLSE removes the stream arg1 names and closes its service.
    /// - CNXN, AUTH and STLS are tolerated and ignored.
    pub fn dispatch(&mut self, msg: Message, out: &mut Vec<Message>) -> (r: DispatchOutcome)
        requires
            old(self).wf(),
            old(self).next_id < u32::MAX,
        ensures
            final(self).wf(),
            forall|i: int|
                old(out)@.len() <= i < final(out)@.len() ==> (#[trigger] final(out)@[i]).wf(),
            match msg.meta.cmd {
                CommandType::Open { local_id, .. } => match spec_open_plan(msg.data@) {
                    OpenPlanS::Sync => {
                        &&& r == (DispatchOutcome::Opened { id: old(self).next_id })
                        &&& final(self).next_id == old(self).next_id + 1
                        &&& final(self).issued@ == old(self).issued@.push(old(self).next_id)
                        &&& final(self).connected == old(self).connected
                        &&& final(self).streams@.len() == old(self).streams@.len() + 1
                        &&& ({
                            let s = final(self).streams@[final(self).streams@.len() - 1];
                            &&& final(self).streams@ == old(self).streams@.push(s)
                            &&& s.id == old(self).next_id
                            &&& s.remote_id == local_id
                            &&& s.svc is Sync
                            &&& s.svc->Sync_0.mode@ == SyncModeS::Normal
                            &&& s.svc->Sync_0.out_queue@.len() == 0
                            &&& !s.svc->Sync_0.done
                            &&& !s.sent_ready
                            &&& s.ok_to_write
                            &&& !s.die
                            &&& s.pending_msgs@.len() == 0
                        })
                        &&& final(out)@ == old(out)@
                    },
                    OpenPlanS::Shell { cmd } => {
                        &&& r is NeedShell
                        &&& r->NeedShell_remote_id == local_id
                        &&& r->NeedShell_cmd@ == cmd
                        &&& mux_unchanged(*old(self), *final(self))
                        &&& final(out)@ == old(out)@
                    },
                    OpenPlanS::Unknown => {
                        &&& r is Handled
                        &&& mux_unchanged(*old(self), *final(self))
                        &&& msgs_view(final(out)@) == msgs_view(old(out)@).push(
                            clse_msg(0, local_id),
                        )
                    },
                },
                CommandType::Ready { local_id, remote_id } => r is Handled && route_spec(
                    *old(self),
                    *final(self),
                    msg,
                    remote_id,
                    local_id,
                    old(out)@,
                    final(out)@,
                ),
                CommandType::Write { local_id, remote_id } => r is Handled && route_spec(
                    *old(self),
                    *final(self),
                    msg,
                    remote_id,
                    local_id,
                    old(out)@,
                    final(out)@,
                ),
                CommandType::Close { local_id: _, remote_id } => r is Handled && close_spec(
                    *old(self),
                    *final(self),
                    remote_id,
                ) && final(out)@ == old(out)@,
                _ => r is Handled && mux_unchanged(*old(self), *final(self)) && final(out)@ == old(
                    out,
                )@,
            },
    {
        let cmd = *msg.meta.cmd();
        match cmd {
            CommandType::Open { local_id, .. } => {
                match parse_service_name(msg.data().as_slice()) {
                    OpenPlan::Sync => {
                        let id = self.open_stream(local_id, Service::Sync(SyncService::start()));
                        DispatchOutcome::Opened { id }
                    },
                    OpenPlan::Shell { cmd } => DispatchOutcome::NeedShell {
                        remote_id: local_id,
                        cmd,
                    },
                    OpenPlan::Unknown => {
                        let m = Message::close(0, local_id);
                        proof {
                            assert(m.data@ =~= Seq::<u8>::empty());
                            assert(msg_view(m) == clse_msg(0, local_id));
                            lemma_msgs_view_push(out@, m);
                        }
                        out.push(m);
                        proof {
                            assert(msgs_view(out@) =~= msgs_view(old(out)@).push(
                                clse_msg(0, local_id),
                            ));
                        }
                        DispatchOutcome::Handled
                    },
                }
            },
            CommandType::Ready { local_id, remote_id } => {
                self.route(local_id, remote_id, msg, out);
                DispatchOutcome::Handled
            },
            CommandType::Write { local_id, remote_id } => {
                self.route(local_id, remote_id, msg, out);
                DispatchOutcome::Handled
            },
            CommandType::Close { local_id: _, remote_id } => {
                match self.find_stream(remote_id) {
                    Some(k) => {
                        let ghost pre_streams = self.streams@;
                        let s = self.streams.remove(k);
                        s.svc.close();
                        proof {
                            assert(self.streams@ =~= pre_streams.remove(k as int));
                        }
                    },
                    None => (),
                }
                DispatchOutcome::Handled
            },
            CommandType::Connect { .. } => DispatchOutcome::Handled,
            CommandType::Auth { .. } => DispatchOutcome::Handled,
            CommandType::Stls { .. } => DispatchOutcome::Handled,
        }
    }

    /// Routes one OKAY or WRTE to the stream whose id is `target`, or
    /// rejects it with `CLSE(0, arg0)`.
    fn route(&mut self, arg0: u32, target: u32, msg: Message, out: &mut Vec<Message>)
        requires
            old(self).wf(),
            msg.meta.cmd is Ready || msg.meta.cmd is Write,
            msg.meta.cmd.arg0_spec() == arg0,
            msg.meta.cmd.arg1_spec() == target,
        ensures
            final(self).wf(),
            route_spec(*old(self), *final(self), msg, target, arg0, old(out)@, final(out)@),
            forall|i: int|
                old(out)@.len() <= i < final(out)@.len() ==> (#[trigger] final(out)@[i]).wf(),
    {
        let ghost pre = *old(self);
        match self.find_stream(target) {
            Some(k) => {
                let mut s = self.streams.remove(k);
                s.handle_msg(msg);
                self.streams.insert(k, s);
                proof {
                    assert(self.streams@ =~= pre.streams@.update(k as int, self.streams@[k as int]));
                    assert(handle_rel(pre.streams@[k as int], self.streams@[k as int], msg));
                    assert(routed_to(pre, *self, target, msg));
                    assert forall|i: int, j: int|
                        0 <= i < j < self.streams@.len() implies (#[trigger] self.streams@[i]).id
                        != (#[trigger] self.streams@[j]).id by {
                        assert(self.streams@[i].id == pre.streams@[i].id);
                        assert(self.streams@[j].id == pre.streams@[j].id);
                    }
                }
            },
            None => {
                let m = Message::close(0, arg0);
                proof {
                    assert(m.data@ =~= Seq::<u8>::empty());
                    assert(msg_view(m) == clse_msg(0, arg0));
                    lemma_msgs_view_push(out@, m);
                }
                out.push(m);
                proof {
                    assert(msgs_view(out@) =~= msgs_view(old(out)@).push(clse_msg(0, arg0)));
                }
            },
        }
    }

    /// Ticks every stream in table order, collecting what each emits, and
    /// reaps the ones that have wound down: the table and `out` end exactly
    /// as the chain of per-stream ticks (`ticks_rel`) states.  Ids are never
    /// reissued: the id record and counter are untouched.
    pub fn tick_all(&mut self, out: &mut Vec<Message>)
        requires
            old(self).wf(),
        ensures
            final(self).wf(),
            ticks_rel(old(self).streams@, final(self).streams@, old(out)@, final(out)@),
            final(self).next_id == old(self).next_id,
            final(self).issued == old(self).issued,
            final(self).connected == old(self).connected,
            final(self).streams@.len() <= old(self).streams@.len(),
            forall|i: int|
                old(out)@.len() <= i < final(out)@.len() ==> (#[trigger] final(out)@[i]).wf(),
    {
        let ghost pre_streams = old(self).streams@;
        let ghost out0 = out@;
        let ghost mut j: int = 0;
        let mut k: usize = 0;
        proof {
            assert(pre_streams.take(0) =~= Seq::<Stream>::empty());
            assert(self.streams@.take(0) =~= Seq::<Stream>::empty());
            assert(ticks_rel(pre_streams.take(0), self.streams@.take(0), out0, out@));
        }
        while k < self.streams.len()
            invariant
                self.wf(),
                k <= self.streams@.len(),
                0 <= j <= pre_streams.len(),
                self.streams@.len() <= pre_streams.len(),
                self.streams@.skip(k as int) == pre_streams.skip(j),
                ticks_rel(pre_streams.take(j), self.streams@.take(k as int), out0, out@),
                self.next_id == old(self).next_id,
                self.issued == old(self).issued,
                self.connected == old(self).connected,
                forall|i: int| out0.len() <= i < out@.len() ==> (#[trigger] out@[i]).wf(),
            decreases self.streams@.len() - k,
        {
            let ghost cur = self.streams@;
            proof {
                assert(cur.skip(k as int).len() == pre_streams.skip(j).len());
                assert(j < pre_streams.len());
                assert(cur.skip(k as int)[0] == cur[k as int]);
                assert(pre_streams.skip(j)[0] == pre_streams[j]);
                assert(cur[k as int] == pre_streams[j]);
            }
            let mut s = self.streams.remove(k);
            let ghost s0 = s;
            let ghost out_before = out@;
            let reap = s.tick(out);
            proof {
                assert forall|i: int| out0.len() <= i < out@.len() implies (
                #[trigger] out@[i]).wf() by {
                    if i < out_before.len() {
                        assert(out@[i] == out@.subrange(0, out_before.len() as int)[i]);
                        assert(out@[i] == out_before[i]);
                    }
                }
                assert(tick_rel(pre_streams[j], s, out_before, out@, reap));
                lemma_ticks_rel_snoc(
                    pre_streams.take(j),
                    cur.take(k as int),
                    out0,
                    out_before,
                    pre_streams[j],
                    s,
                    out@,
                    reap,
                );
                assert(pre_streams.take(j).push(pre_streams[j]) =~= pre_streams.take(j + 1));
            }
            if reap {
                proof {
                    assert(self.streams@.take(k as int) =~= cur.take(k as int));
                    assert(self.streams@.skip(k as int) =~= cur.skip(k as int + 1));
                    assert(cur.skip(k as int).skip(1) =~= cur.skip(k as int + 1));
                    assert(pre_streams.skip(j).skip(1) =~= pre_streams.skip(j + 1));
                    assert(cur.skip(k as int + 1) =~= pre_streams.skip(j + 1));
                    assert(ticks_rel(
                        pre_streams.take(j + 1),
                        self.streams@.take(k as int),
                        out0,
                        out@,
                    ));
                    j = j + 1;
                    assert forall|i: int, jx: int|
                        0 <= i < jx < self.streams@.len() implies (#[trigger] self.streams@[i]).id
                        != (#[trigger] self.streams@[jx]).id by {
                        if jx < k as int {
                            assert(self.streams@[i] == cur[i]);
                            assert(self.streams@[jx] == cur[jx]);
                        } else if i < k as int {
                            assert(self.streams@[i] == cur[i]);
                            assert(self.streams@[jx] == cur[jx + 1]);
                        } else {
                            assert(self.streams@[i] == cur[i + 1]);
                            assert(self.streams@[jx] == cur[jx + 1]);
                        }
                    }
                }
            } else {
                self.streams.insert(k, s);
                proof {
                    assert(self.streams@ =~= cur.update(k as int, self.streams@[k as int]));
                    assert(self.streams@.take(k as int + 1) =~= cur.take(k as int).push(
                        self.streams@[k as int],
                    ));
                    assert(self.streams@.skip(k as int + 1) =~= cur.skip(k as int + 1));
                    assert(cur.skip(k as int).skip(1) =~= cur.skip(k as int + 1));
                    assert(pre_streams.skip(j).skip(1) =~= pre_streams.skip(j + 1));
                    assert(cur.skip(k as int + 1) =~= pre_streams.skip(j + 1));
                    assert(ticks_rel(
                        pre_streams.take(j + 1),
                        self.streams@.take(k as int + 1),
                        out0,
                        out@,
                    ));
                    j = j + 1;
                    assert forall|i: int, jx: int|
                        0 <= i < jx < self.streams@.len() implies (#[trigger] self.streams@[i]).id
                        != (#[trigger] self.streams@[jx]).id by {
                        assert(self.streams@[i].id == cur[i].id);
                        assert(self.streams@[jx].id == cur[jx].id);
                    }
                }
                k = k + 1;
            }
        }
        proof {
            assert(self.streams@.skip(k as int).len() == 0);
            assert(j == pre_streams.len());
            assert(pre_streams.take(j) =~= pre_streams);
            assert(self.streams@.take(k as int) =~= self.streams@);
        }
    }
}

/// Local ids are issued strictly increasing from 3 and never reused within
/// a connection: the record of issued ids is exactly 3, 4, 5, ... in order,
/// so no two issuances agree and the first is 3.
pub proof fn lemma_ids_monotonic(m: Mux)
    requires
        m.wf(),
    ensures
        forall|i: int, k: int| 0 <= i < k < m.issued@.len() ==> m.issued@[i] < m.issued@[k],
        m.issued@.len() > 0 ==> m.issued@[0] == 3,
{
    assert forall|i: int, k: int|
        0 <= i < k < m.issued@.len() implies m.issued@[i] < m.issued@[k] by {
        assert(m.issued@[i] == 3 + i);
        assert(m.issued@[k] == 3 + k);
    }
}

} // verus!
