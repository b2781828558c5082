//! The `shell:` service as the stream sees it: channel handles to the
//! worker threads that run the child under a pseudo-terminal.  The workers
//! themselves (spawning the child, copying its output, killing and reaping
//! it) live outside the library; the handles carry plain byte vectors.

use vstd::prelude::*;
use crate::chan::{send_bytes, send_signal, try_recv_bytes, try_recv_signal, BytesPoll};

verus! {

/// Raised when a write cannot reach the child: its side of the input
/// channel is gone.
#[derive(Clone, Copy, Debug, PartialEq, Eq, Structural)]
pub enum ShellError {
    Closed,
}

/// A shell service handle.
///
/// `input_tx` feeds the child's stdin (consumed by the writer worker);
/// `output_rx` carries the child's output in chunks of at most `MAXDATA`
/// (produced by the reader worker); `done_rx` is never sent on — the
/// supervisor worker drops its end once the child is reaped, so a closed
/// channel is the liveness signal; a signal on `kill_tx` asks the
/// supervisor to kill the child.
pub struct ShellService {
    pub input_tx: crossbeam_channel::Sender<Vec<u8>>,
    pub output_rx: crossbeam_channel::Receiver<Vec<u8>>,
    pub done_rx: crossbeam_channel::Receiver<()>,
    pub kill_tx: crossbeam_channel::Sender<()>,
}

impl ShellService {
    /// Wires a shell service to its worker threads' channel ends.
    pub fn start(
        input_tx: crossbeam_channel::Sender<Vec<u8>>,
        output_rx: crossbeam_channel::Receiver<Vec<u8>>,
        done_rx: crossbeam_channel::Receiver<()>,
        kill_tx: crossbeam_channel::Sender<()>,
    ) -> (r: ShellService)
        ensures
            r.input_tx == input_tx,
            r.output_rx == output_rx,
            r.done_rx == done_rx,
            r.kill_tx == kill_tx,
    {
        ShellService { input_tx, output_rx, done_rx, kill_tx }
    }

    /// Forwards peer bytes to the child's stdin; fails once the writer
    /// worker is gone.
    pub fn handle_write(&self, data: Vec<u8>) -> (r: Result<(), ShellError>) {
        if send_bytes(&self.input_tx, data) {
            Ok(())
        } else {
            Err(ShellError::Closed)
        }
    }

    /// One non-blocking poll of the child's output.
    pub fn poll_output(&self) -> (r: BytesPoll) {
        try_recv_bytes(&self.output_rx)
    }

    /// Whether the child has exited: the supervisor dropped its end of the
    /// liveness channel (a stray signal is read the same way).
    pub fn is_done(&self) -> (r: bool) {
        match try_recv_signal(&self.done_rx) {
            crate::chan::SignalPoll::Got => true,
            crate::chan::SignalPoll::Closed => true,
            crate::chan::SignalPoll::Empty => false,
        }
    }

    /// Asks the supervisor to kill and reap the child.  If the supervisor
    /// is already gone, the child is too, and there is nothing to do.
    pub fn close(&self) {
        send_signal(&self.kill_tx);
    }
}

} // verus!
