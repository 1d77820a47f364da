//! The decisions taken while a package is built: what to do when the
//! sniffer signals a suspicious domain, when its channel closes, and when
//! the build ends. The program around this library waits for the events and
//! carries out the actions.

use vstd::prelude::*;
use crate::domains::DomainSet;

verus! {

/// Something that happened during the build.
pub enum Event {
    /// The sniffer reported a connection to `domain`.
    Signal { domain: String },
    /// The sniffer's channel closed; no more signals will come.
    SignalsClosed,
    /// The build command ended.
    BuildFinished { succeeded: bool },
}

/// The mathematical value of an [`Event`].
pub enum EventView {
    Signal { domain: Seq<char> },
    SignalsClosed,
    BuildFinished { succeeded: bool },
}

impl View for Event {
    type V = EventView;

    open spec fn view(&self) -> EventView {
        match self {
            Event::Signal { domain } => EventView::Signal { domain: domain@ },
            Event::SignalsClosed => EventView::SignalsClosed,
            Event::BuildFinished { succeeded } => EventView::BuildFinished { succeeded: *succeeded },
        }
    }
}

/// What the program should do next.
#[derive(Clone, Copy, Debug, PartialEq, Eq, Structural)]
pub enum Action {
    /// Keep waiting for events.
    Wait,
    /// Stop the build at once: the container reached a domain that is not allowed.
    StopBuild,
    /// The build is over; remove the container and write the report.
    Finish,
}

/// The state of a build being watched.
#[verifier::ext_equal]
pub struct SupervisorView {
    /// The domains signalled so far.
    pub suspicious: Set<Seq<char>>,
    /// Whether signals may still arrive.
    pub signals_open: bool,
    /// Whether stopping the build was already requested.
    pub stop_requested: bool,
    /// Whether the build has ended.
    pub finished: bool,
}

/// The state and action after one event.
pub open spec fn supervise(s: SupervisorView, e: EventView) -> (SupervisorView, Action) {
    match e {
        EventView::Signal { domain } => if s.finished {
            (s, Action::Wait)
        } else {
            (
                SupervisorView { suspicious: s.suspicious.insert(domain), stop_requested: true, ..s },
                if s.stop_requested {
                    Action::Wait
                } else {
                    Action::StopBuild
                },
            )
        },
        EventView::SignalsClosed => (SupervisorView { signals_open: false, ..s }, Action::Wait),
        EventView::BuildFinished { .. } => (SupervisorView { finished: true, ..s }, Action::Finish),
    }
}

/// The state after a sequence of events.
pub open spec fn supervise_all(s: SupervisorView, events: Seq<EventView>) -> SupervisorView
    decreases events.len(),
{
    if events.len() == 0 {
        s
    } else {
        supervise(supervise_all(s, events.drop_last()), events.last()).0
    }
}

/// Whether a build-finished event occurs in a sequence of events.
pub open spec fn has_finish(events: Seq<EventView>) -> bool {
    exists|j: int| 0 <= j < events.len() && #[trigger] events[j] is BuildFinished
}

/// The domains signalled in a sequence of events while the build still ran:
/// before the first build-finished event.
pub open spec fn signalled_while_running(events: Seq<EventView>) -> Set<Seq<char>> {
    Set::new(
        |d: Seq<char>|
            exists|i: int|
                0 <= i < events.len() && #[trigger] events[i] == (EventView::Signal { domain: d })
                    && !has_finish(events.take(i)),
    )
}

/// The state at the start of a build.
pub open spec fn initial_supervision() -> SupervisorView {
    SupervisorView {
        suspicious: Set::empty(),
        signals_open: true,
        stop_requested: false,
        finished: false,
    }
}

/// The build counts as ended exactly when it had ended before or a
/// build-finished event came.
pub proof fn lemma_finished_after(s: SupervisorView, events: Seq<EventView>)
    ensures
        supervise_all(s, events).finished == (s.finished || has_finish(events)),
    decreases events.len(),
{
    if events.len() > 0 {
        let init = events.drop_last();
        lemma_finished_after(s, init);
        if has_finish(init) {
            let j = choose|j: int| 0 <= j < init.len() && #[trigger] init[j] is BuildFinished;
            assert(events[j] is BuildFinished);
        }
        if has_finish(events) && !(events.last() is BuildFinished) {
            let j = choose|j: int| 0 <= j < events.len() && #[trigger] events[j] is BuildFinished;
            assert(init[j] is BuildFinished);
        }
        if events.last() is BuildFinished {
            assert(events[events.len() - 1] is BuildFinished);
        }
    }
}

/// The report holds exactly the domains signalled while the build ran:
/// starting from a build that has not ended, after any sequence of events
/// the suspicious domains are those known before and those of the signals
/// that came before the build ended.
pub proof fn law_report_holds_every_signalled_domain(s: SupervisorView, events: Seq<EventView>)
    requires
        !s.finished,
    ensures
        supervise_all(s, events).suspicious == s.suspicious.union(signalled_while_running(events)),
    decreases events.len(),
{
    if events.len() == 0 {
        assert(signalled_while_running(events) =~= Set::empty());
        assert(s.suspicious.union(signalled_while_running(events)) =~= s.suspicious);
    } else {
        let init = events.drop_last();
        let n = events.len() - 1;
        law_report_holds_every_signalled_domain(s, init);
        lemma_finished_after(s, init);
        assert(events.take(n) =~= init);
        let new_set = match events.last() {
            EventView::Signal { domain } => if has_finish(init) {
                signalled_while_running(init)
            } else {
                signalled_while_running(init).insert(domain)
            },
            _ => signalled_while_running(init),
        };
        assert(signalled_while_running(events) =~= new_set) by {
            assert forall|d: Seq<char>| signalled_while_running(events).contains(d) implies new_set.contains(d) by {
                let i = choose|i: int|
                    0 <= i < events.len() && #[trigger] events[i] == (EventView::Signal { domain: d })
                        && !has_finish(events.take(i));
                if i < n {
                    assert(init[i] == events[i]);
                    assert(init.take(i) =~= events.take(i));
                }
            }
            assert forall|d: Seq<char>| new_set.contains(d) implies signalled_while_running(events).contains(d) by {
                if signalled_while_running(init).contains(d) {
                    let i = choose|i: int|
                        0 <= i < init.len() && #[trigger] init[i] == (EventView::Signal { domain: d })
                            && !has_finish(init.take(i));
                    assert(events[i] == init[i]);
                    assert(init.take(i) =~= events.take(i));
                } else {
                    assert(events[n] == (EventView::Signal { domain: d }));
                }
            }
        }
        assert(supervise_all(s, events).suspicious =~= s.suspicious.union(signalled_while_running(events)));
    }
}

/// The build is stopped at the first signal that arrives while it runs, and
/// stopping is requested only once: every later signal is answered with
/// `Wait`. A signal after the build ended changes nothing.
pub proof fn law_first_signal_stops_build(s: SupervisorView, events: Seq<EventView>, d: Seq<char>)
    ensures
        !s.stop_requested && !s.finished ==> supervise(s, EventView::Signal { domain: d }).1
            == Action::StopBuild,
        !supervise_all(s, events).finished ==> supervise_all(
            s,
            events.push(EventView::Signal { domain: d }),
        ).stop_requested,
        s.finished ==> supervise(s, EventView::Signal { domain: d }) == (s, Action::Wait),
        supervise_all(s, events).stop_requested ==> supervise(
            supervise_all(s, events),
            EventView::Signal { domain: d },
        ).1 == Action::Wait,
{
    assert(events.push(EventView::Signal { domain: d }).drop_last() =~= events);
}

/// Signals keep being received until the sniffer's channel closes: only a
/// channel-closed event stops listening; a signal, or the end of the build,
/// leaves it as it was.
pub proof fn law_only_channel_close_stops_listening(s: SupervisorView, e: EventView)
    ensures
        supervise(s, e).0.signals_open == (s.signals_open && !(e is SignalsClosed)),
{
}

/// The decisions of one build.
pub struct Supervisor {
    suspicious: DomainSet,
    signals_open: bool,
    stop_requested: bool,
    finished: bool,
}

impl View for Supervisor {
    type V = SupervisorView;

    closed spec fn view(&self) -> SupervisorView {
        SupervisorView {
            suspicious: self.suspicious@,
            signals_open: self.signals_open,
            stop_requested: self.stop_requested,
            finished: self.finished,
        }
    }
}

impl Supervisor {
    /// The state at the start of a build.
    pub fn new() -> (s: Self)
        ensures
            s@ == initial_supervision(),
    {
        let s = Supervisor {
            suspicious: DomainSet::new(),
            signals_open: true,
            stop_requested: false,
            finished: false,
        };
        assert(s@ =~= initial_supervision());
        s
    }

    /// Takes one event and says what to do next.
    pub fn handle(&mut self, event: Event) -> (action: Action)
        ensures
            final(self)@ == supervise(old(self)@, event@).0,
            action == supervise(old(self)@, event@).1,
    {
        let ghost s0 = self@;
        match event {
            Event::Signal { domain } => {
                if self.finished {
                    return Action::Wait;
                }
                let action = if self.stop_requested {
                    Action::Wait
                } else {
                    Action::StopBuild
                };
                self.suspicious.insert(domain);
                self.stop_requested = true;
                assert(self@ =~= supervise(s0, event@).0);
                action
            },
            Event::SignalsClosed => {
                self.signals_open = false;
                assert(self@ =~= supervise(s0, event@).0);
                Action::Wait
            },
            Event::BuildFinished { .. } => {
                self.finished = true;
                assert(self@ =~= supervise(s0, event@).0);
                Action::Finish
            },
        }
    }

    /// Whether signals may still arrive.
    pub fn listening(&self) -> (open: bool)
        ensures
            open == self@.signals_open,
    {
        self.signals_open
    }

    /// The domains signalled so far, each once.
    pub fn suspicious_domains(&self) -> (v: Vec<String>)
        ensures
            crate::domains::string_views(v@).to_set() == self@.suspicious,
            crate::domains::string_views(v@).no_duplicates(),
    {
        self.suspicious.to_vec()
    }
}

} // verus!
