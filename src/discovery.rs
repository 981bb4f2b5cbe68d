use vstd::prelude::*;
use crate::text::{contains, contains_text};

verus! {

/// A serial port offered by the operating system.
#[derive(Clone, Debug)]
pub struct PortCandidate {
    pub name: String,
    /// The port is attached over USB.
    pub usb: bool,
}

/// The names of the USB ports of `ports`, in order.
pub open spec fn usb_names(ports: Seq<PortCandidate>) -> Seq<Seq<char>>
    decreases ports.len(),
{
    if ports.len() == 0 {
        Seq::empty()
    } else if ports.last().usb {
        usb_names(ports.drop_last()).push(ports.last().name@)
    } else {
        usb_names(ports.drop_last())
    }
}

/// Keeps the USB ports of `ports`, the only ones probed for the device.
pub fn usb_candidates(ports: &Vec<PortCandidate>) -> (r: Vec<String>)
    ensures
        r@.map_values(|s: String| s@) == usb_names(ports@),
{
    let mut out: Vec<String> = Vec::new();
    let mut i: usize = 0;
    while i < ports.len()
        invariant
            0 <= i <= ports@.len(),
            out@.map_values(|s: String| s@) == usb_names(ports@.subrange(0, i as int)),
        decreases ports@.len() - i,
    {
        let ghost prev = out@.map_values(|s: String| s@);
        assert(ports@.subrange(0, i + 1).drop_last() =~= ports@.subrange(0, i as int));
        if ports[i].usb {
            out.push(ports[i].name.clone());
            assert(out@.map_values(|s: String| s@) =~= prev.push(ports@[i as int].name@));
        }
        i = i + 1;
    }
    assert(ports@.subrange(0, i as int) =~= ports@);
    out
}

/// What the session has to do next while discovering the device.
#[derive(Clone, Debug, PartialEq, Eq)]
pub enum DiscoveryAction {
    /// Open this port.
    Connect(String),
    /// Send this handshake command on the open port and report the reply.
    Handshake(String),
    /// Close the open port, which is not the device.
    Disconnect,
    /// The device answers on this port; the session stays connected to it.
    Found(String),
    /// No candidate answered as the device.
    NotFound,
}

pub open spec fn is_connect(a: DiscoveryAction, port: Seq<char>) -> bool {
    a matches DiscoveryAction::Connect(p) && p@ == port
}

pub open spec fn is_handshake(a: DiscoveryAction, command: Seq<char>) -> bool {
    a matches DiscoveryAction::Handshake(h) && h@ == command
}

pub open spec fn is_found(a: DiscoveryAction, port: Seq<char>) -> bool {
    a matches DiscoveryAction::Found(p) && p@ == port
}

/// The handshake succeeded and its reply holds `identity`.
pub open spec fn identifies(reply: Option<&str>, identity: Seq<char>) -> bool {
    match reply {
        Some(t) => contains_text(t@, identity),
        None => false,
    }
}

#[derive(PartialEq, Eq, Structural, Clone, Copy, Debug)]
pub enum DiscoveryPhase {
    /// Waiting for the outcome of opening the current candidate.
    Opening,
    /// Waiting for the reply to the handshake on the current candidate.
    Probing,
    /// Waiting for the current candidate to be closed.
    Closing,
    /// The search has ended.
    Finished,
}

/// Probes candidate ports one after the other with a handshake until one
/// replies with the expected identity.
pub struct Discovery {
    candidates: Vec<String>,
    index: usize,
    phase: DiscoveryPhase,
    handshake: String,
    identity: String,
}

impl Discovery {
    pub closed spec fn candidates(&self) -> Seq<Seq<char>> {
        self.candidates@.map_values(|s: String| s@)
    }

    /// The position of the candidate being probed.
    pub closed spec fn index(&self) -> int {
        self.index as int
    }

    pub closed spec fn phase(&self) -> DiscoveryPhase {
        self.phase
    }

    pub closed spec fn handshake(&self) -> Seq<char> {
        self.handshake@
    }

    pub closed spec fn identity(&self) -> Seq<char> {
        self.identity@
    }

    pub open spec fn wf(&self) -> bool {
        self.phase() != DiscoveryPhase::Finished ==> 0 <= self.index() < self.candidates().len()
    }

    /// The action that opens the candidate at `self.index()`, or ends the search
    /// when none is left.
    pub open spec fn opening_action(&self, a: DiscoveryAction) -> bool {
        if self.index() < self.candidates().len() {
            &&& self.phase() == DiscoveryPhase::Opening
            &&& is_connect(a, self.candidates()[self.index()])
        } else {
            self.phase() == DiscoveryPhase::Finished && a == DiscoveryAction::NotFound
        }
    }

    /// A search over the USB ports of `ports`, in order, sending `handshake`
    /// and looking for `identity` in the reply. Returns the first action.
    pub fn start(ports: &Vec<PortCandidate>, handshake: &str, identity: &str) -> (r: (
        Discovery,
        DiscoveryAction,
    ))
        ensures
            r.0.wf(),
            r.0.candidates() == usb_names(ports@),
            r.0.index() == 0,
            r.0.handshake() == handshake@,
            r.0.identity() == identity@,
            r.0.opening_action(r.1),
    {
        let candidates = usb_candidates(ports);
        let mut d = Discovery {
            candidates,
            index: 0,
            phase: DiscoveryPhase::Opening,
            handshake: String::from_str(handshake),
            identity: String::from_str(identity),
        };
        let a = d.open_current();
        (d, a)
    }

    fn open_current(&mut self) -> (r: DiscoveryAction)
        requires
            old(self).index() <= old(self).candidates().len(),
        ensures
            final(self).wf(),
            final(self).candidates() == old(self).candidates(),
            final(self).index() == old(self).index(),
            final(self).handshake() == old(self).handshake(),
            final(self).identity() == old(self).identity(),
            final(self).opening_action(r),
    {
        if self.index < self.candidates.len() {
            self.phase = DiscoveryPhase::Opening;
            DiscoveryAction::Connect(self.candidates[self.index].clone())
        } else {
            self.phase = DiscoveryPhase::Finished;
            DiscoveryAction::NotFound
        }
    }

    fn advance(&mut self) -> (r: DiscoveryAction)
        requires
            old(self).wf(),
            old(self).phase() != DiscoveryPhase::Finished,
        ensures
            final(self).wf(),
            final(self).candidates() == old(self).candidates(),
            final(self).index() == old(self).index() + 1,
            final(self).handshake() == old(self).handshake(),
            final(self).identity() == old(self).identity(),
            final(self).opening_action(r),
    {
        let n = self.candidates.len();
        assert(n == self.candidates().len());
        self.index = self.index + 1;
        self.open_current()
    }

    /// Reports whether opening the current candidate succeeded: on success the
    /// handshake is sent, on failure the next candidate is tried.
    pub fn opened(&mut self, ok: bool) -> (r: DiscoveryAction)
        requires
            old(self).wf(),
            old(self).phase() == DiscoveryPhase::Opening,
        ensures
            final(self).wf(),
            final(self).candidates() == old(self).candidates(),
            final(self).handshake() == old(self).handshake(),
            final(self).identity() == old(self).identity(),
            ok ==> final(self).index() == old(self).index() && final(self).phase()
                == DiscoveryPhase::Probing && is_handshake(r, old(self).handshake()),
            !ok ==> final(self).index() == old(self).index() + 1 && final(self).opening_action(r),
    {
        if ok {
            self.phase = DiscoveryPhase::Probing;
            DiscoveryAction::Handshake(self.handshake.clone())
        } else {
            self.advance()
        }
    }

    /// Reports the reply to the handshake, `None` when the request failed. A
    /// reply that holds the identity ends the search on this candidate; any
    /// other outcome closes it.
    pub fn replied(&mut self, reply: Option<&str>) -> (r: DiscoveryAction)
        requires
            old(self).wf(),
            old(self).phase() == DiscoveryPhase::Probing,
        ensures
            final(self).wf(),
            final(self).candidates() == old(self).candidates(),
            final(self).index() == old(self).index(),
            final(self).handshake() == old(self).handshake(),
            final(self).identity() == old(self).identity(),
            identifies(reply, old(self).identity()) ==> final(self).phase()
                == DiscoveryPhase::Finished && is_found(
                r,
                old(self).candidates()[old(self).index()],
            ),
            !identifies(reply, old(self).identity()) ==> final(self).phase()
                == DiscoveryPhase::Closing && r == DiscoveryAction::Disconnect,
    {
        let found = match reply {
            Some(t) => contains(t, self.identity.as_str()),
            None => false,
        };
        if found {
            self.phase = DiscoveryPhase::Finished;
            DiscoveryAction::Found(self.candidates[self.index].clone())
        } else {
            self.phase = DiscoveryPhase::Closing;
            DiscoveryAction::Disconnect
        }
    }

    /// Reports that the current candidate was closed: the next one is tried.
    pub fn closed(&mut self) -> (r: DiscoveryAction)
        requires
            old(self).wf(),
            old(self).phase() == DiscoveryPhase::Closing,
        ensures
            final(self).wf(),
            final(self).candidates() == old(self).candidates(),
            final(self).index() == old(self).index() + 1,
            final(self).handshake() == old(self).handshake(),
            final(self).identity() == old(self).identity(),
            final(self).opening_action(r),
    {
        self.advance()
    }

    pub fn phase_now(&self) -> (r: DiscoveryPhase)
        ensures
            r == self.phase(),
    {
        self.phase
    }
}

} // verus!
