use vstd::prelude::*;
use vstd::string::StringExecFns;
use crate::codec::{decodes_to, FrameCodec};
use crate::correlator::{
    delivery_of, ids_of, live, expired_ids, remaining_after, Correlator, Delivery,
    PendingRequest,
};

verus! {

/// Baud rate used when none is given.
pub const DEFAULT_BAUD_RATE: u32 = 115200;

/// Time, in milliseconds, a request waits for its response.
pub const DEFAULT_TIMEOUT_MS: u64 = 5000;

/// The typed outcomes a caller of the session can observe besides success.
#[derive(PartialEq, Eq, Structural, Clone, Copy, Debug)]
pub enum SessionError {
    /// The operation needs an open transport and there is none.
    NotConnected,
    /// Opening, reading or writing the transport failed.
    IoFailure,
    /// No frame answered the request before its deadline.
    Timeout,
    /// The request was discarded because the session was torn down.
    Cancelled,
    /// The internal delivery path closed unexpectedly.
    ChannelClosed,
    /// Auto-discovery tried every candidate without a match.
    NotFound,
}

/// The text line written to the device for `command`.
pub open spec fn wire_line(command: Seq<char>) -> Seq<char> {
    command.push('\n')
}

/// The state of one device session: connection state, the port and baud rate,
/// the frame codec of the inbound stream, the pending requests and the lines
/// waiting for the writer.
pub struct Session {
    connected: bool,
    port_name: String,
    baud_rate: u32,
    timeout_ms: u64,
    codec: FrameCodec,
    correlator: Correlator,
    outgoing: Vec<String>,
}

impl Session {
    pub closed spec fn connected(&self) -> bool {
        self.connected
    }

    pub closed spec fn port(&self) -> Seq<char> {
        self.port_name@
    }

    pub closed spec fn baud(&self) -> u32 {
        self.baud_rate
    }

    pub closed spec fn timeout(&self) -> u64 {
        self.timeout_ms
    }

    /// The pending requests, the active one first.
    pub closed spec fn pending(&self) -> Seq<PendingRequest> {
        self.correlator.pending()
    }

    pub closed spec fn next_id(&self) -> u64 {
        self.correlator.next_id()
    }

    /// Inbound bytes after the last delimiter.
    pub closed spec fn buffered(&self) -> Seq<u8> {
        self.codec.pending()
    }

    /// Lines queued for the writer, oldest first.
    pub closed spec fn outgoing(&self) -> Seq<Seq<char>> {
        self.outgoing@.map_values(|s: String| s@)
    }

    pub closed spec fn wf(&self) -> bool {
        &&& self.codec.wf()
        &&& self.correlator.wf()
        &&& !self.connected ==> self.correlator.pending().len() == 0 && self.outgoing@.len() == 0
    }

    /// A disconnected session with the default baud rate and timeout.
    pub fn new() -> (r: Session)
        ensures
            r.wf(),
            !r.connected(),
            r.port() == Seq::<char>::empty(),
            r.baud() == DEFAULT_BAUD_RATE,
            r.timeout() == DEFAULT_TIMEOUT_MS,
            r.pending() == Seq::<PendingRequest>::empty(),
            r.outgoing() == Seq::<Seq<char>>::empty(),
            r.buffered() == Seq::<u8>::empty(),
            r.next_id() == 0,
    {
        let r = Session {
            connected: false,
            port_name: String::new(),
            baud_rate: DEFAULT_BAUD_RATE,
            timeout_ms: DEFAULT_TIMEOUT_MS,
            codec: FrameCodec::new(),
            correlator: Correlator::new(),
            outgoing: Vec::new(),
        };
        assert(r.outgoing() =~= Seq::<Seq<char>>::empty());
        r
    }

    pub fn is_connected(&self) -> (r: bool)
        ensures
            r == self.connected(),
    {
        self.connected
    }

    pub fn port_name(&self) -> (r: String)
        ensures
            r@ == self.port(),
    {
        self.port_name.clone()
    }

    /// The id the next request will get.
    pub fn next_request_id(&self) -> (r: u64)
        ensures
            r == self.next_id(),
    {
        self.correlator.upcoming_id()
    }

    pub fn baud_rate(&self) -> (r: u32)
        ensures
            r == self.baud(),
    {
        self.baud_rate
    }

    pub fn timeout_ms(&self) -> (r: u64)
        ensures
            r == self.timeout(),
    {
        self.timeout_ms
    }

    /// Sets the time a request waits for its response; pending requests keep
    /// their deadlines.
    pub fn set_timeout_ms(&mut self, timeout_ms: u64)
        requires
            old(self).wf(),
        ensures
            final(self).wf(),
            final(self).timeout() == timeout_ms,
            final(self).connected() == old(self).connected(),
            final(self).port() == old(self).port(),
            final(self).baud() == old(self).baud(),
            final(self).pending() == old(self).pending(),
            final(self).next_id() == old(self).next_id(),
            final(self).outgoing() == old(self).outgoing(),
            final(self).buffered() == old(self).buffered(),
    {
        self.timeout_ms = timeout_ms;
    }

    /// Tears the session down: every pending request is cancelled, in queue
    /// order, queued lines and buffered bytes are dropped, and the session is
    /// disconnected. Returns the ids of the cancelled requests.
    pub fn disconnect(&mut self) -> (r: Vec<u64>)
        requires
            old(self).wf(),
        ensures
            final(self).wf(),
            r@ == ids_of(old(self).pending()),
            !final(self).connected(),
            final(self).pending() == Seq::<PendingRequest>::empty(),
            final(self).outgoing() == Seq::<Seq<char>>::empty(),
            final(self).buffered() == Seq::<u8>::empty(),
            final(self).next_id() == old(self).next_id(),
            final(self).port() == old(self).port(),
            final(self).baud() == old(self).baud(),
            final(self).timeout() == old(self).timeout(),
    {
        let cancelled = self.correlator.cancel_all();
        self.outgoing = Vec::new();
        self.codec = FrameCodec::new();
        self.connected = false;
        assert(self.outgoing() =~= Seq::<Seq<char>>::empty());
        cancelled
    }

    /// Records that the transport to `port_name` opened at `baud_rate`. A
    /// session that was connected is first torn down as `disconnect` does; the
    /// ids of the requests cancelled that way are returned.
    pub fn on_opened(&mut self, port_name: &str, baud_rate: u32) -> (r: Vec<u64>)
        requires
            old(self).wf(),
        ensures
            final(self).wf(),
            r@ == ids_of(old(self).pending()),
            final(self).connected(),
            final(self).port() == port_name@,
            final(self).baud() == baud_rate,
            final(self).timeout() == old(self).timeout(),
            final(self).pending() == Seq::<PendingRequest>::empty(),
            final(self).outgoing() == Seq::<Seq<char>>::empty(),
            final(self).buffered() == Seq::<u8>::empty(),
            final(self).next_id() == old(self).next_id(),
    {
        let cancelled = self.disconnect();
        self.port_name = String::from_str(port_name);
        self.baud_rate = baud_rate;
        self.connected = true;
        cancelled
    }

    /// Issues `command` at time `now`. Disconnected: fails with `NotConnected`
    /// and changes nothing, so no line is written. Connected: queues a pending
    /// request with deadline `now + timeout` and the command's line for the
    /// writer, and returns the request's id.
    pub fn send(&mut self, command: &str, now: u64) -> (r: Result<u64, SessionError>)
        requires
            old(self).wf(),
            old(self).next_id() < u64::MAX,
        ensures
            final(self).wf(),
            !old(self).connected() ==> r == Err::<u64, SessionError>(SessionError::NotConnected)
                && *final(self) == *old(self),
            old(self).connected() ==> {
                &&& r == Ok::<u64, SessionError>(old(self).next_id())
                &&& final(self).pending().len() == old(self).pending().len() + 1
                &&& final(self).pending().drop_last() == old(self).pending()
                &&& final(self).pending().last().id == old(self).next_id()
                &&& final(self).pending().last().command@ == command@
                &&& final(self).pending().last().deadline == crate::correlator::deadline_of(
                    now,
                    old(self).timeout(),
                )
                &&& final(self).next_id() == old(self).next_id() + 1
                &&& final(self).outgoing() == old(self).outgoing().push(wire_line(command@))
                &&& final(self).connected()
                &&& final(self).port() == old(self).port()
                &&& final(self).baud() == old(self).baud()
                &&& final(self).timeout() == old(self).timeout()
                &&& final(self).buffered() == old(self).buffered()
            },
    {
        if !self.connected {
            return Err(SessionError::NotConnected);
        }
        let ghost q = self.pending();
        let id = self.correlator.submit(String::from_str(command), now, self.timeout_ms);
        assert(self.pending().drop_last() =~= q);
        let mut line = String::from_str(command);
        line.append("\n");
        proof {
            reveal_strlit("\n");
            assert(line@ =~= wire_line(command@));
        }
        let ghost out = self.outgoing();
        self.outgoing.push(line);
        assert(self.outgoing() =~= out.push(wire_line(command@)));
        Ok(id)
    }

    /// Hands the writer every queued line, oldest first, and empties the queue.
    pub fn take_outgoing(&mut self) -> (r: Vec<String>)
        requires
            old(self).wf(),
        ensures
            final(self).wf(),
            r@.map_values(|s: String| s@) == old(self).outgoing(),
            final(self).outgoing() == Seq::<Seq<char>>::empty(),
            final(self).connected() == old(self).connected(),
            final(self).port() == old(self).port(),
            final(self).baud() == old(self).baud(),
            final(self).timeout() == old(self).timeout(),
            final(self).pending() == old(self).pending(),
            final(self).next_id() == old(self).next_id(),
            final(self).buffered() == old(self).buffered(),
    {
        let mut lines: Vec<String> = Vec::new();
        std::mem::swap(&mut lines, &mut self.outgoing);
        assert(self.outgoing() =~= Seq::<Seq<char>>::empty());
        lines
    }

    /// Hands one inbound frame to the active request, if any.
    pub fn deliver(&mut self, frame: String) -> (r: Delivery)
        requires
            old(self).wf(),
        ensures
            final(self).wf(),
            r == delivery_of(old(self).pending(), frame, 0),
            final(self).pending() == remaining_after(old(self).pending(), 1),
            final(self).next_id() == old(self).next_id(),
            final(self).connected() == old(self).connected(),
            final(self).port() == old(self).port(),
            final(self).baud() == old(self).baud(),
            final(self).timeout() == old(self).timeout(),
            final(self).outgoing() == old(self).outgoing(),
            final(self).buffered() == old(self).buffered(),
    {
        self.correlator.deliver(frame)
    }

    /// Feeds bytes read from the transport to the frame codec and hands each
    /// completed frame, in arrival order, to the requests in queue order.
    pub fn receive(&mut self, bytes: &[u8]) -> (r: Vec<Delivery>)
        requires
            old(self).wf(),
        ensures
            final(self).wf(),
            exists|frames: Seq<String>|
                {
                    &&& decodes_to(old(self).buffered() + bytes@, frames, final(self).buffered())
                    &&& r@.len() == frames.len()
                    &&& forall|j: int|
                        0 <= j < frames.len() ==> #[trigger] r@[j] == delivery_of(
                            old(self).pending(),
                            frames[j],
                            j,
                        )
                    &&& final(self).pending() == remaining_after(old(self).pending(), frames.len() as int)
                },
            final(self).next_id() == old(self).next_id(),
            final(self).connected() == old(self).connected(),
            final(self).port() == old(self).port(),
            final(self).baud() == old(self).baud(),
            final(self).timeout() == old(self).timeout(),
            final(self).outgoing() == old(self).outgoing(),
    {
        let ghost q = self.pending();
        let mut frames = self.codec.feed(bytes);
        let ghost all = frames@;
        let mut out: Vec<Delivery> = Vec::new();
        let mut j: usize = 0;
        let n = frames.len();
        while frames.len() > 0
            invariant
                self.wf(),
                n == all.len(),
                j + frames@.len() == n,
                frames@ == all.skip(j as int),
                out@.len() == j,
                forall|i: int| 0 <= i < j ==> #[trigger] out@[i] == delivery_of(q, all[i], i),
                self.pending() == remaining_after(q, j as int),
                self.next_id() == old(self).next_id(),
                self.connected() == old(self).connected(),
                self.port() == old(self).port(),
                self.baud() == old(self).baud(),
                self.timeout() == old(self).timeout(),
                self.outgoing() == old(self).outgoing(),
                decodes_to(old(self).buffered() + bytes@, all, self.buffered()),
                !self.connected() ==> q.len() == 0,
            decreases frames@.len(),
        {
            let frame = frames.remove(0);
            assert(frame == all[j as int]);
            assert(frames@ =~= all.skip(j + 1));
            let ghost before = self.pending();
            let d = self.correlator.deliver(frame);
            assert(d == delivery_of(q, all[j as int], j as int)) by {
                if j < q.len() {
                    assert(before[0] == q[j as int]);
                }
            }
            assert(self.pending() =~= remaining_after(q, j + 1));
            out.push(d);
            j = j + 1;
        }
        assert(decodes_to(old(self).buffered() + bytes@, all, self.buffered()));
        assert(out@.len() == all.len());
        assert(self.pending() == remaining_after(q, all.len() as int));
        out
    }

    /// Removes every pending request whose deadline has passed at `now`; the
    /// returned ids, in queue order, resolve with `Timeout`.
    pub fn tick(&mut self, now: u64) -> (r: Vec<u64>)
        requires
            old(self).wf(),
        ensures
            final(self).wf(),
            r@ == expired_ids(old(self).pending(), now),
            final(self).pending() == live(old(self).pending(), now),
            final(self).next_id() == old(self).next_id(),
            final(self).connected() == old(self).connected(),
            final(self).port() == old(self).port(),
            final(self).baud() == old(self).baud(),
            final(self).timeout() == old(self).timeout(),
            final(self).outgoing() == old(self).outgoing(),
            final(self).buffered() == old(self).buffered(),
    {
        proof {
            crate::correlator::lemma_live_of_empty(old(self).pending(), now);
        }
        self.correlator.expire(now)
    }
}

} // verus!
