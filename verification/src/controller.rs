//! The session lifecycle controller.
//!
//! One controller owns at most one live portal session. A start
//! attempt parses the specification text; on well-formed input the
//! controller hands the caller the requests for the backend's bind
//! call and waits for its outcome. A successful bind makes the session
//! active: the backend's bound list — which may differ from what was
//! requested — becomes the authoritative display, and the caller runs
//! an event pump that feeds activations, deactivations and
//! shortcuts-changed notifications back in. Stopping tears everything
//! down and says whether a session close is owed; the pump is
//! restarted for as long as a session is held.
//!
//! The controller itself performs no portal calls: it is the decision
//! core, mapping each state and event to the next state and the action
//! the caller must take.

use vstd::prelude::*;

use crate::parse::{parse_shortcuts, parse_spec, request_views, ShortcutRequest};
use crate::tracker::{
    activate_spec, bound_views, deactivate_spec, render_spec, ActivationTracker, BoundShortcut,
    BoundShortcutView, TrackerView,
};

verus! {

/// Where the controller stands in the session lifecycle.
pub enum Phase {
    /// No session: start is enabled, stop is disabled.
    Idle,
    /// The specification parsed; the bind call is in flight.
    Starting,
    /// A session is live and the event pump is running.
    Active,
}

/// The outcome of the backend's bind call, as the caller observed it.
pub enum BindOutcome {
    /// The backend bound these shortcuts; the list is authoritative
    /// and may differ in set and order from what was requested.
    Bound(Vec<BoundShortcut>),
    /// The user cancelled the portal dialog.
    Cancelled,
    /// The backend declined for another reason.
    OtherError,
    /// The bind call itself failed; the message describes the failure.
    TransportError(String),
}

/// One notification delivered by the event pump.
pub enum PumpEvent {
    /// The shortcut with this identifier began being held.
    Activated(String),
    /// The shortcut with this identifier ceased being held.
    Deactivated(String),
    /// The set of bound shortcuts changed; accepted and only logged.
    ShortcutsChanged,
}

/// Mathematical image of a [`Controller`].
#[verifier::ext_equal]
pub struct ControllerView {
    pub phase: Phase,
    pub status: Seq<char>,
    pub tracker: TrackerView,
}

/// The controller state after a start attempt on `text`, paired with
/// the requests to hand to the backend's bind call — present exactly
/// when every entry of the text is well formed.
pub open spec fn begin_start_spec(c: ControllerView, text: Seq<char>) -> (ControllerView, Option<
    Seq<crate::parse::ShortcutRequestView>,
>) {
    match parse_spec(text) {
        Option::Some(reqs) => (
            ControllerView { phase: Phase::Starting, status: c.status, tracker: c.tracker },
            Option::Some(reqs),
        ),
        Option::None => (
            ControllerView {
                phase: Phase::Idle,
                status: "Shortcut list invalid"@,
                tracker: c.tracker,
            },
            Option::None,
        ),
    }
}

/// The controller state after the backend answered the bind call. A
/// bound list makes the session active and replaces the recorded
/// shortcuts with the backend's own; every other outcome returns the
/// controller to idle with a status naming what happened.
pub open spec fn bind_result_spec(c: ControllerView, outcome: BindOutcome) -> ControllerView {
    match outcome {
        BindOutcome::Bound(list) => ControllerView {
            phase: Phase::Active,
            status: "OK"@,
            tracker: TrackerView { bound: bound_views(list@), active: c.tracker.active },
        },
        BindOutcome::Cancelled => ControllerView {
            phase: Phase::Idle,
            status: "Cancelled"@,
            tracker: c.tracker,
        },
        BindOutcome::OtherError => ControllerView {
            phase: Phase::Idle,
            status: "Other response error"@,
            tracker: c.tracker,
        },
        BindOutcome::TransportError(msg) => ControllerView {
            phase: Phase::Idle,
            status: msg@,
            tracker: c.tracker,
        },
    }
}

/// The controller state after one pump event, paired with whether the
/// event was an anomaly (a deactivation of an inactive identifier).
pub open spec fn event_spec(c: ControllerView, event: PumpEvent) -> (ControllerView, bool) {
    match event {
        PumpEvent::Activated(id) => (
            ControllerView {
                phase: c.phase,
                status: c.status,
                tracker: activate_spec(c.tracker, id@),
            },
            false,
        ),
        PumpEvent::Deactivated(id) => (
            ControllerView {
                phase: c.phase,
                status: c.status,
                tracker: deactivate_spec(c.tracker, id@).0,
            },
            deactivate_spec(c.tracker, id@).1,
        ),
        PumpEvent::ShortcutsChanged => (c, false),
    }
}

/// The controller state after a stop, paired with whether a session
/// close call is owed — it is exactly when a session was held.
pub open spec fn stop_spec(c: ControllerView) -> (ControllerView, bool) {
    (
        ControllerView {
            phase: Phase::Idle,
            status: c.status,
            tracker: TrackerView {
                bound: Seq::<BoundShortcutView>::empty(),
                active: Set::<Seq<char>>::empty(),
            },
        },
        c.phase is Active,
    )
}

/// Drives the global-shortcuts session lifecycle and owns its state.
pub struct Controller {
    phase: Phase,
    status: String,
    tracker: ActivationTracker,
}

impl View for Controller {
    type V = ControllerView;

    closed spec fn view(&self) -> ControllerView {
        ControllerView { phase: self.phase, status: self.status@, tracker: self.tracker@ }
    }
}

impl Controller {
    /// The tracker never stores duplicate active identifiers.
    pub closed spec fn wf(&self) -> bool {
        self.tracker.wf()
    }

    /// A fresh controller: idle, empty status, nothing bound or active.
    pub fn new() -> (c: Controller)
        ensures
            c.wf(),
            c@.phase is Idle,
            c@.status == Seq::<char>::empty(),
            c@.tracker.bound == Seq::<BoundShortcutView>::empty(),
            c@.tracker.active == Set::<Seq<char>>::empty(),
    {
        Controller { phase: Phase::Idle, status: String::new(), tracker: ActivationTracker::new() }
    }

    /// Whether the start action is enabled: always, except while a
    /// session is active.
    pub fn start_enabled(&self) -> (r: bool)
        ensures
            r == !(self@.phase is Active),
    {
        !matches!(self.phase, Phase::Active)
    }

    /// Whether the stop action is enabled: exactly while a session is
    /// active.
    pub fn stop_enabled(&self) -> (r: bool)
        ensures
            r == (self@.phase is Active),
    {
        matches!(self.phase, Phase::Active)
    }

    /// Whether the specification input is editable: exactly while no
    /// session is active.
    pub fn input_editable(&self) -> (r: bool)
        ensures
            r == !(self@.phase is Active),
    {
        !matches!(self.phase, Phase::Active)
    }

    /// Whether a session is currently held.
    pub fn has_session(&self) -> (r: bool)
        ensures
            r == (self@.phase is Active),
    {
        matches!(self.phase, Phase::Active)
    }

    /// The current status text.
    pub fn status_text(&self) -> (r: &str)
        ensures
            r@ == self@.status,
    {
        self.status.as_str()
    }

    /// The current activation display text.
    pub fn display_text(&self) -> (r: String)
        ensures
            r@ == render_spec(self@.tracker.bound, self@.tracker.active),
    {
        self.tracker.render()
    }

    /// Begin a start attempt from the given specification text.
    ///
    /// On well-formed input the controller moves to `Starting` and
    /// returns the parsed requests for the backend's bind call. A
    /// single malformed entry rejects the whole batch: the controller
    /// stays idle, the status reports the invalid list, and no session
    /// is created.
    pub fn begin_start(&mut self, text: &str) -> (r: Option<Vec<ShortcutRequest>>)
        requires
            old(self).wf(),
            old(self)@.phase is Idle,
        ensures
            final(self).wf(),
            final(self)@ == begin_start_spec(old(self)@, text@).0,
            match r {
                Option::Some(v) => begin_start_spec(old(self)@, text@).1 == Option::Some(
                    request_views(v@),
                ),
                Option::None => begin_start_spec(old(self)@, text@).1 is None,
            },
    {
        match parse_shortcuts(text) {
            Option::Some(requests) => {
                self.phase = Phase::Starting;
                proof {
                    assert(self@ =~= begin_start_spec(old(self)@, text@).0);
                }
                Option::Some(requests)
            },
            Option::None => {
                self.phase = Phase::Idle;
                self.status = "Shortcut list invalid".to_owned();
                proof {
                    assert(self@ =~= begin_start_spec(old(self)@, text@).0);
                }
                Option::None
            },
        }
    }

    /// Record the backend's answer to the bind call.
    ///
    /// A bound list makes the session active: the backend's list —
    /// not the requested one — becomes the recorded, displayed set of
    /// shortcuts. Every other outcome returns the controller to idle,
    /// with a status naming the cancellation or failure.
    pub fn on_bind_result(&mut self, outcome: BindOutcome)
        requires
            old(self).wf(),
            old(self)@.phase is Starting,
        ensures
            final(self).wf(),
            final(self)@ == bind_result_spec(old(self)@, outcome),
    {
        match outcome {
            BindOutcome::Bound(list) => {
                self.phase = Phase::Active;
                self.status = "OK".to_owned();
                self.tracker.set_bound(list);
                proof {
                    assert(self@ =~= bind_result_spec(old(self)@, outcome));
                }
            },
            BindOutcome::Cancelled => {
                self.phase = Phase::Idle;
                self.status = "Cancelled".to_owned();
                proof {
                    assert(self@ =~= bind_result_spec(old(self)@, outcome));
                }
            },
            BindOutcome::OtherError => {
                self.phase = Phase::Idle;
                self.status = "Other response error".to_owned();
                proof {
                    assert(self@ =~= bind_result_spec(old(self)@, outcome));
                }
            },
            BindOutcome::TransportError(msg) => {
                self.phase = Phase::Idle;
                self.status = msg;
                proof {
                    assert(self@ =~= bind_result_spec(old(self)@, outcome));
                }
            },
        }
    }

    /// Apply one event from the pump and recompute the display text.
    ///
    /// Activations and deactivations update the activation set; a
    /// shortcuts-changed notification changes nothing here and is left
    /// to the caller to log. Returns whether the event was an anomaly
    /// — a deactivation of an identifier that was not active — and
    /// the freshly recomputed display text.
    pub fn handle_event(&mut self, event: PumpEvent) -> (r: (bool, String))
        requires
            old(self).wf(),
            old(self)@.phase is Active,
        ensures
            final(self).wf(),
            final(self)@ == event_spec(old(self)@, event).0,
            r.0 == event_spec(old(self)@, event).1,
            r.1@ == render_spec(final(self)@.tracker.bound, final(self)@.tracker.active),
    {
        let anomaly = match &event {
            PumpEvent::Activated(id) => {
                self.tracker.activate(id.clone());
                proof {
                    assert(self@ =~= event_spec(old(self)@, event).0);
                }
                false
            },
            PumpEvent::Deactivated(id) => {
                let a = self.tracker.deactivate(id);
                proof {
                    assert(self@ =~= event_spec(old(self)@, event).0);
                }
                a
            },
            PumpEvent::ShortcutsChanged => {
                proof {
                    assert(self@ =~= event_spec(old(self)@, event).0);
                }
                false
            },
        };
        let display = self.tracker.render();
        (anomaly, display)
    }

    /// Stop the session.
    ///
    /// Returns whether a session was held, in which case — and only
    /// then — the caller owes the backend a best-effort close call.
    /// Afterwards the controller is idle again: nothing bound, nothing
    /// active, start enabled, stop disabled, input editable.
    pub fn stop(&mut self) -> (close: bool)
        requires
            old(self).wf(),
        ensures
            final(self).wf(),
            final(self)@ == stop_spec(old(self)@).0,
            close == stop_spec(old(self)@).1,
    {
        let close = matches!(self.phase, Phase::Active);
        self.phase = Phase::Idle;
        self.tracker.clear();
        proof {
            assert(self@ =~= stop_spec(old(self)@).0);
        }
        close
    }

    /// Decide what to do when the event pump ends on its own, for
    /// instance because a notification subscription failed: as long as
    /// a session is still held the pump is restarted, indefinitely;
    /// once the session is gone it stays down.
    pub fn pump_exited(&self) -> (restart: bool)
        ensures
            restart == (self@.phase is Active),
    {
        matches!(self.phase, Phase::Active)
    }
}

/// Law: after a successful bind, the displayed shortcut set is exactly
/// the list the backend returned — the originally requested list plays
/// no part in it.
pub proof fn lemma_display_follows_backend(c: ControllerView, list: Vec<BoundShortcut>)
    ensures
        bind_result_spec(c, BindOutcome::Bound(list)).tracker.bound == bound_views(list@),
        render_spec(
            bind_result_spec(c, BindOutcome::Bound(list)).tracker.bound,
            bind_result_spec(c, BindOutcome::Bound(list)).tracker.active,
        ) == render_spec(bound_views(list@), c.tracker.active),
{
}

/// Law: stop is idempotent with respect to external resources — a
/// stop issued when no session exists asks for no close call, and a
/// second stop changes nothing and asks for none either.
pub proof fn lemma_stop_idempotent(c: ControllerView)
    ensures
        !(c.phase is Active) ==> !stop_spec(c).1,
        !stop_spec(stop_spec(c).0).1,
        stop_spec(stop_spec(c).0).0 == stop_spec(c).0,
{
    assert(stop_spec(stop_spec(c).0).0 =~= stop_spec(c).0);
}

} // verus!
