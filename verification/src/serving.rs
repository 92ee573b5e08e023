//! A running host as a whole: the accept loop, the guest slot and the session
//! of the guest that is served.

use crate::frame::Frame;
use crate::guest_loop;
use crate::host::{self, AcceptAction, AcceptEvent, AcceptLoop, HostEvent, Shared};
use crate::net::{Endpoint, SocketAddr};
use crate::session::{self, Admission, PumpAction, PumpEvent};
use vstd::prelude::*;

verus! {

/// One step of a running host.
pub enum HostStep {
    /// The accept loop took an event, and this was done about it.
    Took { ev: AcceptEvent, action: AcceptAction },
    /// The guest that is served has shaken hands, and this came of it.
    Admitted { name: String, now: u64, admission: Admission },
    /// The session took an event, and this was done about it.
    Session { ev: PumpEvent, action: PumpAction },
    /// The session has ended.
    Ended,
}

/// Where a running host stands.
pub struct HostRun {
    pub shared: Shared,
    /// The guest that was served last.
    pub current: Option<SocketAddr>,
    /// Its session is running.
    pub running: bool,
    /// It has shaken hands.
    pub admitted: bool,
    /// Its unanswered pings.
    pub missed: u32,
    /// No connection is accepted any more.
    pub stopped: bool,
}

impl HostRun {
    /// A host that has served nobody yet.
    pub open spec fn fresh(self) -> bool {
        self.shared.guest is None && self.current is None && !self.running && !self.stopped
    }

    /// The step is one that the host can take: what was done is what the accept
    /// loop, the guest slot and the session decide.
    pub open spec fn allows(self, s: HostStep) -> bool {
        match s {
            HostStep::Took { ev, action } => {
                &&& !self.stopped
                &&& host::accept_action(AcceptLoop { current: self.current }, ev, action)
                &&& ev matches AcceptEvent::Connection { busy, .. } ==> busy == self.running
            },
            HostStep::Admitted { name, now, admission } => {
                &&& self.running
                &&& !self.admitted
                &&& session::admitted(
                    self.shared,
                    Endpoint::Tcp(self.current->0),
                    name,
                    now,
                    admission,
                )
            },
            HostStep::Session { ev, action } => {
                &&& self.running
                &&& self.admitted
                &&& session::pump_action(self.missed, ev, action)
            },
            HostStep::Ended => self.running,
        }
    }

    /// Where the host stands after a step.
    pub open spec fn after(self, s: HostStep) -> HostRun {
        match s {
            HostStep::Took { action, .. } => match action {
                AcceptAction::Serve(peer) => HostRun {
                    current: Some(peer),
                    running: true,
                    admitted: false,
                    missed: 0,
                    ..self
                },
                AcceptAction::Stop { .. } => HostRun { stopped: true, ..self },
                _ => self,
            },
            HostStep::Admitted { .. } => HostRun {
                shared: self.shared.claimed(Endpoint::Tcp(self.current->0)).0,
                admitted: true,
                ..self
            },
            HostStep::Session { ev, .. } => HostRun {
                missed: session::missed_after(self.missed, ev),
                ..self
            },
            HostStep::Ended => HostRun {
                shared: self.shared.released(Endpoint::Tcp(self.current->0)),
                running: false,
                ..self
            },
        }
    }

    /// Whoever holds the slot is the guest that is served.
    pub open spec fn wf(self) -> bool {
        &&& self.running ==> self.current is Some
        &&& self.shared.guest matches Some(e) ==> self.running && self.admitted && e
            == Endpoint::Tcp(self.current->0)
    }
}

/// Where a host stands after some steps.
pub open spec fn ran(start: HostRun, steps: Seq<HostStep>) -> HostRun
    decreases steps.len(),
{
    if steps.len() == 0 {
        start
    } else {
        ran(start, steps.drop_last()).after(steps.last())
    }
}

/// Step number `i` can be taken after those before it.
pub open spec fn follows(start: HostRun, steps: Seq<HostStep>, i: int) -> bool {
    ran(start, steps.take(i)).allows(steps[i])
}

/// Steps that a host can take one after another.
pub open spec fn is_run(start: HostRun, steps: Seq<HostStep>) -> bool {
    forall|i: int| 0 <= i < steps.len() ==> #[trigger] follows(start, steps, i)
}

/// A connection is served with this step.
pub open spec fn serves(s: HostStep, peer: SocketAddr) -> bool {
    s matches HostStep::Took { action, .. } && action == AcceptAction::Serve(peer)
}

/// A step that serves some connection.
pub open spec fn serves_one(s: HostStep) -> bool {
    s matches HostStep::Took { action: AcceptAction::Serve(_), .. }
}

/// Only one guest is served at a time. From the moment that the connection of
/// `p` is served until its session ends: every other connection is turned away
/// with a logged line that names both and with a `Bye` alone, and that changes
/// nothing for the guest that is served; its pings are answered; and it is
/// reported as connected at most once, nobody else ever.
pub proof fn one_guest_at_a_time(
    start: HostRun,
    steps: Seq<HostStep>,
    p: SocketAddr,
    i: int,
    j: int,
)
    requires
        start.fresh(),
        is_run(start, steps),
        0 <= i < j < steps.len(),
        serves(steps[i], p),
        forall|k: int| i < k < j ==> !((#[trigger] steps[k]) is Ended),
    ensures
        !serves_one(steps[j]),
        steps[j] matches HostStep::Took { ev: AcceptEvent::Connection { peer, .. }, action } ==> {
            &&& action matches AcceptAction::Reject { log, reply } && log@
                == host::turned_away_text(peer, p) && reply == Frame::Bye
            &&& ran(start, steps.take(j + 1)) == ran(start, steps.take(j))
        },
        steps[j] matches HostStep::Session { ev: PumpEvent::Frame(Frame::Ping(t)), action }
            ==> action == PumpAction::Pong(t),
        steps[j] matches HostStep::Admitted { admission, .. } ==> {
            &&& admission matches Admission::Serve { event: HostEvent::GuestConnected(g), .. }
                && g.peer == Endpoint::Tcp(p)
            &&& forall|k: int| i < k < j ==> !((#[trigger] steps[k]) is Admitted)
        },
{
    assert(follows(start, steps, j));
    served_until_the_end(start, steps, p, i, j);
    slot_is_the_guests(start, steps, j);
    one_step(start, steps, j + 1);
    if steps[j] is Admitted {
        assert forall|k: int| i < k < j implies !((#[trigger] steps[k]) is Admitted) by {
            if steps[k] is Admitted {
                assert(ran(start, steps.take(j)).admitted);
            }
        }
    }
}

/// Once a session has ended, and at the start, the next connection is served.
pub proof fn the_next_guest_is_served(start: HostRun, steps: Seq<HostStep>, i: int, j: int)
    requires
        start.fresh(),
        is_run(start, steps),
        0 <= j < steps.len(),
        i == -1 || 0 <= i < j && steps[i] is Ended,
        forall|k: int| i < k < j ==> !serves_one(#[trigger] steps[k]),
    ensures
        steps[j] matches HostStep::Took { ev: AcceptEvent::Connection { peer, .. }, action }
            ==> action == AcceptAction::Serve(peer),
{
    assert(follows(start, steps, j));
    idle_until_served(start, steps, i, j);
}

/// The last of some steps can be taken after the others.
proof fn one_step(start: HostRun, steps: Seq<HostStep>, m: int)
    requires
        is_run(start, steps),
        0 < m <= steps.len(),
    ensures
        ran(start, steps.take(m - 1)).allows(steps[m - 1]),
        ran(start, steps.take(m)) == ran(start, steps.take(m - 1)).after(steps[m - 1]),
{
    assert(follows(start, steps, m - 1));
    assert(steps.take(m).drop_last() =~= steps.take(m - 1));
    assert(steps.take(m).last() == steps[m - 1]);
}

proof fn goes_on_serving(h: HostRun, s: HostStep)
    requires
        h.running,
        h.current is Some,
        h.allows(s),
        !(s is Ended),
    ensures
        h.after(s).running,
        h.after(s).current == h.current,
        h.admitted || s is Admitted ==> h.after(s).admitted,
{
}

proof fn goes_on_waiting(h: HostRun, s: HostStep)
    requires
        !h.running,
        h.allows(s),
        !serves_one(s),
    ensures
        !h.after(s).running,
{
}

proof fn served_until_the_end(
    start: HostRun,
    steps: Seq<HostStep>,
    p: SocketAddr,
    i: int,
    m: int,
)
    requires
        is_run(start, steps),
        0 <= i < m <= steps.len(),
        serves(steps[i], p),
        forall|k: int| i < k < m ==> !((#[trigger] steps[k]) is Ended),
    ensures
        ran(start, steps.take(m)).running,
        ran(start, steps.take(m)).current == Some(p),
        forall|k: int|
            i < k < m && (#[trigger] steps[k]) is Admitted ==> ran(start, steps.take(m)).admitted,
    decreases m,
{
    one_step(start, steps, m);
    if m > i + 1 {
        served_until_the_end(start, steps, p, i, m - 1);
        goes_on_serving(ran(start, steps.take(m - 1)), steps[m - 1]);
    }
}

proof fn idle_until_served(start: HostRun, steps: Seq<HostStep>, i: int, m: int)
    requires
        start.fresh(),
        is_run(start, steps),
        -1 <= i < m <= steps.len() || i == -1 && m == 0,
        i == -1 || steps[i] is Ended,
        forall|k: int| i < k < m ==> !serves_one(#[trigger] steps[k]),
    ensures
        !ran(start, steps.take(m)).running,
    decreases m,
{
    if m > 0 {
        one_step(start, steps, m);
        if m > i + 1 {
            idle_until_served(start, steps, i, m - 1);
            assert(!serves_one(steps[m - 1]));
            goes_on_waiting(ran(start, steps.take(m - 1)), steps[m - 1]);
        }
    }
}

proof fn slot_is_the_guests(start: HostRun, steps: Seq<HostStep>, m: int)
    requires
        start.fresh(),
        is_run(start, steps),
        0 <= m <= steps.len(),
    ensures
        ran(start, steps.take(m)).wf(),
    decreases m,
{
    if m > 0 {
        slot_is_the_guests(start, steps, m - 1);
        let before = ran(start, steps.take(m - 1));
        one_step(start, steps, m);
        if steps[m - 1] is Ended && before.shared.guest is Some {
            assert(guest_loop::same_endpoint(
                before.shared.guest->0,
                Endpoint::Tcp(before.current->0),
            ));
        }
    }
}

} // verus!
