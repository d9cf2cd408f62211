//! The termination engine: the per-process kill state machine with
//! its graceful-then-forceful escalation, and the batch driver that
//! runs one session per target without aborting on failures.
//!
//! The engine decides; the shell around it performs. Each call of
//! [`KillEngine::on_event`] consumes one answer from the outside
//! world and returns the next step to perform. Sending the two
//! signals is the one outside action the library performs itself.

use vstd::prelude::*;
use crate::filter::IgnoreConfig;

verus! {

/// Why a target was passed over instead of killed.
#[derive(Debug, Clone, Copy, PartialEq, Eq)]
pub enum SkipReason {
    /// Its freshly resolved display name is ignored.
    IgnoredName,
    /// The port it was triggered from is ignored.
    IgnoredPort,
}

/// Why a termination failed. Failure is terminal for the one pid and
/// never fatal for a batch.
#[derive(Debug, Clone, Copy, PartialEq, Eq)]
pub enum FailCause {
    /// The forceful signal could not be sent.
    ForcefulSignalFailed,
    /// The container could neither be stopped nor removed.
    ContainerRemoveFailed,
    /// The session ended before the engine reached an outcome.
    Stalled,
}

/// The per-pid result of one termination session.
#[derive(Debug, Clone, Copy, PartialEq, Eq)]
pub enum TerminationOutcome {
    Killed,
    Skipped(SkipReason),
    Failed(FailCause),
}

impl TerminationOutcome {
    /// Does this outcome count toward aggregate success? A batch
    /// succeeds when every outcome was a kill or a skip.
    pub open spec fn is_success(self) -> bool {
        self is Killed || self is Skipped
    }
}

/// One answer from the outside world to a pending step.
#[derive(Debug, Clone)]
pub enum KillEvent {
    /// The target's display name, freshly resolved.
    NameIs { name: String },
    /// The container owning the target, if any.
    ContainerIs { id: Option<String> },
    /// Whether a requested signal could be sent.
    SignalSent { ok: bool },
    /// The fixed wait after the graceful signal has elapsed.
    Waited,
    /// Whether the target is still alive after the wait.
    AliveIs { alive: bool },
    /// Whether the container stop succeeded.
    ContainerStopped { ok: bool },
    /// Whether the forced container removal succeeded.
    ContainerRemoved { ok: bool },
}

/// Ghost form of an event.
pub ghost enum EventModel {
    Name(Seq<char>),
    Container(Option<Seq<char>>),
    Sent(bool),
    Waited,
    Alive(bool),
    Stopped(bool),
    Removed(bool),
}

impl View for KillEvent {
    type V = EventModel;

    open spec fn view(&self) -> EventModel {
        match self {
            KillEvent::NameIs { name } => EventModel::Name(name@),
            KillEvent::ContainerIs { id } => EventModel::Container(
                match id {
                    Some(s) => Some(s@),
                    None => None,
                },
            ),
            KillEvent::SignalSent { ok } => EventModel::Sent(*ok),
            KillEvent::Waited => EventModel::Waited,
            KillEvent::AliveIs { alive } => EventModel::Alive(*alive),
            KillEvent::ContainerStopped { ok } => EventModel::Stopped(*ok),
            KillEvent::ContainerRemoved { ok } => EventModel::Removed(*ok),
        }
    }
}

/// The next step of a session, for the shell to perform.
#[derive(Debug, Clone)]
pub enum KillStep {
    /// Resolve the target's display name.
    ResolveName { pid: i32 },
    /// Find the container owning the target, if any.
    LookupContainer { pid: i32 },
    /// Send the graceful or the forceful terminate signal.
    SendSignal { pid: i32, forceful: bool },
    /// Let the fixed wait window pass.
    Wait,
    /// Check whether the target is still alive.
    CheckAlive { pid: i32 },
    /// Ask the runtime to stop this container.
    StopContainer { id: String },
    /// Ask the runtime to remove this container by force.
    RemoveContainer { id: String },
    /// The session is over with this outcome.
    Done { outcome: TerminationOutcome },
    /// Nothing to do: the event did not belong to the session's
    /// current phase.
    Hold,
}

/// Ghost form of a step.
pub ghost enum StepModel {
    ResolveName(int),
    LookupContainer(int),
    SendSignal(int, bool),
    Wait,
    CheckAlive(int),
    StopContainer(Seq<char>),
    RemoveContainer(Seq<char>),
    Done(TerminationOutcome),
    Hold,
}

impl View for KillStep {
    type V = StepModel;

    open spec fn view(&self) -> StepModel {
        match self {
            KillStep::ResolveName { pid } => StepModel::ResolveName(*pid as int),
            KillStep::LookupContainer { pid } => StepModel::LookupContainer(*pid as int),
            KillStep::SendSignal { pid, forceful } => StepModel::SendSignal(
                *pid as int,
                *forceful,
            ),
            KillStep::Wait => StepModel::Wait,
            KillStep::CheckAlive { pid } => StepModel::CheckAlive(*pid as int),
            KillStep::StopContainer { id } => StepModel::StopContainer(id@),
            KillStep::RemoveContainer { id } => StepModel::RemoveContainer(id@),
            KillStep::Done { outcome } => StepModel::Done(*outcome),
            KillStep::Hold => StepModel::Hold,
        }
    }
}

/// Where a session stands between two events.
#[derive(Debug, Clone)]
pub enum KillPhase {
    /// The ignore re-check is pending: a name resolution was asked for.
    AwaitName,
    /// The container lookup is pending.
    AwaitContainer,
    /// The graceful signal's send result is pending.
    AwaitGraceful,
    /// The fixed wait window is passing.
    AwaitWait,
    /// The liveness re-check is pending.
    AwaitLiveness,
    /// The forceful signal's send result is pending.
    AwaitForceful,
    /// A container stop is pending.
    AwaitStop { id: String },
    /// A forced container removal is pending.
    AwaitRemove { id: String },
    /// The session is over.
    Finished { outcome: TerminationOutcome },
}

/// Ghost form of a phase.
pub ghost enum PhaseModel {
    AwaitName,
    AwaitContainer,
    AwaitGraceful,
    AwaitWait,
    AwaitLiveness,
    AwaitForceful,
    AwaitStop(Seq<char>),
    AwaitRemove(Seq<char>),
    Finished(TerminationOutcome),
}

impl View for KillPhase {
    type V = PhaseModel;

    open spec fn view(&self) -> PhaseModel {
        match self {
            KillPhase::AwaitName => PhaseModel::AwaitName,
            KillPhase::AwaitContainer => PhaseModel::AwaitContainer,
            KillPhase::AwaitGraceful => PhaseModel::AwaitGraceful,
            KillPhase::AwaitWait => PhaseModel::AwaitWait,
            KillPhase::AwaitLiveness => PhaseModel::AwaitLiveness,
            KillPhase::AwaitForceful => PhaseModel::AwaitForceful,
            KillPhase::AwaitStop { id } => PhaseModel::AwaitStop(id@),
            KillPhase::AwaitRemove { id } => PhaseModel::AwaitRemove(id@),
            KillPhase::Finished { outcome } => PhaseModel::Finished(*outcome),
        }
    }
}

/// Ghost form of a whole engine.
pub ghost struct EngineModel {
    pub pid: int,
    /// The port the kill was triggered from, for port-triggered kills.
    pub port: Option<int>,
    /// Whether container awareness is enabled for this session.
    pub aware: bool,
    pub phase: PhaseModel,
}

/// The transition function of the kill state machine: from the
/// session's state and one answer to the next state and the next
/// step. An answer that does not belong to the current phase changes
/// nothing and asks for nothing.
pub open spec fn spec_step(m: EngineModel, cfg: &IgnoreConfig, ev: EventModel) -> (
    EngineModel,
    StepModel,
) {
    match (m.phase, ev) {
        (PhaseModel::AwaitName, EventModel::Name(name)) => {
            if cfg.name_ignored(name) {
                let o = TerminationOutcome::Skipped(SkipReason::IgnoredName);
                (EngineModel { phase: PhaseModel::Finished(o), ..m }, StepModel::Done(o))
            } else if match m.port {
                Some(p) => cfg.port_ignored(p),
                None => false,
            } {
                let o = TerminationOutcome::Skipped(SkipReason::IgnoredPort);
                (EngineModel { phase: PhaseModel::Finished(o), ..m }, StepModel::Done(o))
            } else if m.aware {
                (
                    EngineModel { phase: PhaseModel::AwaitContainer, ..m },
                    StepModel::LookupContainer(m.pid),
                )
            } else {
                (
                    EngineModel { phase: PhaseModel::AwaitGraceful, ..m },
                    StepModel::SendSignal(m.pid, false),
                )
            }
        },
        (PhaseModel::AwaitContainer, EventModel::Container(found)) => {
            match found {
                Some(id) => (
                    EngineModel { phase: PhaseModel::AwaitStop(id), ..m },
                    StepModel::StopContainer(id),
                ),
                None => (
                    EngineModel { phase: PhaseModel::AwaitGraceful, ..m },
                    StepModel::SendSignal(m.pid, false),
                ),
            }
        },
        (PhaseModel::AwaitGraceful, EventModel::Sent(_ok)) => {
            // A failed graceful send is logged and the session goes on
            // to the wait step anyway: the process may already be gone.
            (EngineModel { phase: PhaseModel::AwaitWait, ..m }, StepModel::Wait)
        },
        (PhaseModel::AwaitWait, EventModel::Waited) => {
            (EngineModel { phase: PhaseModel::AwaitLiveness, ..m }, StepModel::CheckAlive(m.pid))
        },
        (PhaseModel::AwaitLiveness, EventModel::Alive(alive)) => {
            if alive {
                (
                    EngineModel { phase: PhaseModel::AwaitForceful, ..m },
                    StepModel::SendSignal(m.pid, true),
                )
            } else {
                let o = TerminationOutcome::Killed;
                (EngineModel { phase: PhaseModel::Finished(o), ..m }, StepModel::Done(o))
            }
        },
        (PhaseModel::AwaitForceful, EventModel::Sent(ok)) => {
            let o = if ok {
                TerminationOutcome::Killed
            } else {
                TerminationOutcome::Failed(FailCause::ForcefulSignalFailed)
            };
            (EngineModel { phase: PhaseModel::Finished(o), ..m }, StepModel::Done(o))
        },
        (PhaseModel::AwaitStop(id), EventModel::Stopped(ok)) => {
            if ok {
                let o = TerminationOutcome::Killed;
                (EngineModel { phase: PhaseModel::Finished(o), ..m }, StepModel::Done(o))
            } else {
                (
                    EngineModel { phase: PhaseModel::AwaitRemove(id), ..m },
                    StepModel::RemoveContainer(id),
                )
            }
        },
        (PhaseModel::AwaitRemove(_id), EventModel::Removed(ok)) => {
            let o = if ok {
                TerminationOutcome::Killed
            } else {
                TerminationOutcome::Failed(FailCause::ContainerRemoveFailed)
            };
            (EngineModel { phase: PhaseModel::Finished(o), ..m }, StepModel::Done(o))
        },
        _ => (m, StepModel::Hold),
    }
}

/// One termination session: the kill state machine for one pid.
pub struct KillEngine {
    pid: i32,
    port: Option<u16>,
    aware: bool,
    phase: KillPhase,
}

impl View for KillEngine {
    type V = EngineModel;

    closed spec fn view(&self) -> EngineModel {
        EngineModel {
            pid: self.pid as int,
            port: match self.port {
                Some(p) => Some(p as int),
                None => None,
            },
            aware: self.aware,
            phase: self.phase@,
        }
    }
}

impl KillEngine {
    /// The initial state of a session for `pid`.
    pub open spec fn initial(pid: int, port: Option<int>, aware: bool) -> EngineModel {
        EngineModel { pid, port, aware, phase: PhaseModel::AwaitName }
    }

    /// Begin a session: the first step is always the fresh name
    /// resolution for the ignore re-check, whatever discovery-time
    /// filtering already saw.
    pub fn new(pid: i32, port: Option<u16>, aware: bool) -> (r: (KillEngine, KillStep))
        ensures
            r.0@ == KillEngine::initial(
                pid as int,
                match port {
                    Some(p) => Some(p as int),
                    None => None,
                },
                aware,
            ),
            r.1@ == StepModel::ResolveName(pid as int),
    {
        (KillEngine { pid, port, aware, phase: KillPhase::AwaitName }, KillStep::ResolveName { pid })
    }

    /// Has the session reached its outcome, and which?
    pub fn outcome(&self) -> (r: Option<TerminationOutcome>)
        ensures
            match (r, self@.phase) {
                (Some(o1), PhaseModel::Finished(o2)) => o1 == o2,
                (None, PhaseModel::Finished(_)) => false,
                (None, _) => true,
                _ => false,
            },
    {
        match &self.phase {
            KillPhase::Finished { outcome } => Some(*outcome),
            _ => None,
        }
    }

    /// Consume one answer from the shell and return the next step,
    /// exactly as the transition function prescribes.
    pub fn on_event(&mut self, cfg: &IgnoreConfig, ev: &KillEvent) -> (step: KillStep)
        ensures
            (final(self)@, step@) == spec_step(old(self)@, cfg, ev@),
            final(self)@.pid == old(self)@.pid,
            final(self)@.port == old(self)@.port,
            final(self)@.aware == old(self)@.aware,
    {
        match (&self.phase, ev) {
            (KillPhase::AwaitName, KillEvent::NameIs { name }) => {
                if cfg.check_name(name) {
                    let o = TerminationOutcome::Skipped(SkipReason::IgnoredName);
                    self.phase = KillPhase::Finished { outcome: o };
                    KillStep::Done { outcome: o }
                } else if match self.port {
                    Some(p) => cfg.check_port(p),
                    None => false,
                } {
                    let o = TerminationOutcome::Skipped(SkipReason::IgnoredPort);
                    self.phase = KillPhase::Finished { outcome: o };
                    KillStep::Done { outcome: o }
                } else if self.aware {
                    self.phase = KillPhase::AwaitContainer;
                    KillStep::LookupContainer { pid: self.pid }
                } else {
                    self.phase = KillPhase::AwaitGraceful;
                    KillStep::SendSignal { pid: self.pid, forceful: false }
                }
            },
            (KillPhase::AwaitContainer, KillEvent::ContainerIs { id }) => {
                match id {
                    Some(id) => {
                        let step = KillStep::StopContainer { id: id.clone() };
                        self.phase = KillPhase::AwaitStop { id: id.clone() };
                        step
                    },
                    None => {
                        self.phase = KillPhase::AwaitGraceful;
                        KillStep::SendSignal { pid: self.pid, forceful: false }
                    },
                }
            },
            (KillPhase::AwaitGraceful, KillEvent::SignalSent { ok: _ }) => {
                self.phase = KillPhase::AwaitWait;
                KillStep::Wait
            },
            (KillPhase::AwaitWait, KillEvent::Waited) => {
                self.phase = KillPhase::AwaitLiveness;
                KillStep::CheckAlive { pid: self.pid }
            },
            (KillPhase::AwaitLiveness, KillEvent::AliveIs { alive }) => {
                if *alive {
                    self.phase = KillPhase::AwaitForceful;
                    KillStep::SendSignal { pid: self.pid, forceful: true }
                } else {
                    let o = TerminationOutcome::Killed;
                    self.phase = KillPhase::Finished { outcome: o };
                    KillStep::Done { outcome: o }
                }
            },
            (KillPhase::AwaitForceful, KillEvent::SignalSent { ok }) => {
                let o = if *ok {
                    TerminationOutcome::Killed
                } else {
                    TerminationOutcome::Failed(FailCause::ForcefulSignalFailed)
                };
                self.phase = KillPhase::Finished { outcome: o };
                KillStep::Done { outcome: o }
            },
            (KillPhase::AwaitStop { id }, KillEvent::ContainerStopped { ok }) => {
                if *ok {
                    let o = TerminationOutcome::Killed;
                    self.phase = KillPhase::Finished { outcome: o };
                    KillStep::Done { outcome: o }
                } else {
                    let step = KillStep::RemoveContainer { id: id.clone() };
                    let id2 = id.clone();
                    self.phase = KillPhase::AwaitRemove { id: id2 };
                    step
                }
            },
            (KillPhase::AwaitRemove { id: _ }, KillEvent::ContainerRemoved { ok }) => {
                let o = if *ok {
                    TerminationOutcome::Killed
                } else {
                    TerminationOutcome::Failed(FailCause::ContainerRemoveFailed)
                };
                self.phase = KillPhase::Finished { outcome: o };
                KillStep::Done { outcome: o }
            },
            _ => KillStep::Hold,
        }
    }
}

/// The ghost form of an exec event trace.
pub open spec fn events_view(evs: Seq<KillEvent>) -> Seq<EventModel> {
    evs.map_values(|e: KillEvent| e@)
}

/// The ghost form of an optional port.
pub open spec fn port_view(port: Option<u16>) -> Option<int> {
    match port {
        Some(p) => Some(p as int),
        None => None,
    }
}

/// A whole session at once: the state and the steps that feeding
/// `evs` into the machine one by one produces.
pub open spec fn spec_run(m: EngineModel, cfg: &IgnoreConfig, evs: Seq<EventModel>) -> (
    EngineModel,
    Seq<StepModel>,
)
    decreases evs.len(),
{
    if evs.len() == 0 {
        (m, Seq::empty())
    } else {
        let first = spec_step(m, cfg, evs.first());
        let rest = spec_run(first.0, cfg, evs.drop_first());
        (rest.0, seq![first.1] + rest.1)
    }
}

proof fn lemma_spec_run_snoc(m: EngineModel, cfg: &IgnoreConfig, evs: Seq<EventModel>, e: EventModel)
    ensures
        ({
            let whole = spec_run(m, cfg, evs.push(e));
            let prefix = spec_run(m, cfg, evs);
            let last = spec_step(prefix.0, cfg, e);
            whole.0 == last.0 && whole.1 == prefix.1.push(last.1)
        }),
    decreases evs.len(),
{
    if evs.len() == 0 {
        let s1 = spec_step(m, cfg, e);
        assert(evs.push(e).len() == 1);
        assert(evs.push(e).first() == e);
        assert(evs.push(e).drop_first() =~= Seq::<EventModel>::empty());
        assert(spec_run(s1.0, cfg, evs.push(e).drop_first()) == (s1.0, Seq::<StepModel>::empty()));
        assert(spec_run(m, cfg, evs.push(e)).0 == s1.0);
        assert(spec_run(m, cfg, evs.push(e)).1 =~= Seq::<StepModel>::empty().push(s1.1));
        assert(spec_run(m, cfg, evs) == (m, Seq::<StepModel>::empty()));
    } else {
        let s = evs.push(e);
        assert(s.first() == evs.first());
        assert(s.drop_first() =~= evs.drop_first().push(e));
        let m1 = spec_step(m, cfg, evs.first()).0;
        lemma_spec_run_snoc(m1, cfg, evs.drop_first(), e);
        let prefix = spec_run(m, cfg, evs);
        let last = spec_step(prefix.0, cfg, e);
        assert(seq![spec_step(m, cfg, s.first()).1] + spec_run(m1, cfg, evs.drop_first()).1.push(
            last.1,
        ) =~= prefix.1.push(last.1));
    }
}

/// The outcome a finished session carries; a session that ended
/// short of one counts as failed.
pub open spec fn spec_outcome_of(m: EngineModel) -> TerminationOutcome {
    match m.phase {
        PhaseModel::Finished(o) => o,
        _ => TerminationOutcome::Failed(FailCause::Stalled),
    }
}

/// The outcome of one whole session for `pid`, driven by `evs`.
pub open spec fn spec_session_outcome(
    pid: int,
    port: Option<int>,
    aware: bool,
    cfg: &IgnoreConfig,
    evs: Seq<EventModel>,
) -> TerminationOutcome {
    spec_outcome_of(spec_run(KillEngine::initial(pid, port, aware), cfg, evs).0)
}

/// Drive one session over a sequence of answers and return the
/// outcome the transition function gives that sequence.
pub fn run_session(
    pid: i32,
    port: Option<u16>,
    aware: bool,
    cfg: &IgnoreConfig,
    events: &Vec<KillEvent>,
) -> (r: TerminationOutcome)
    ensures
        r == spec_session_outcome(
            pid as int,
            port_view(port),
            aware,
            cfg,
            events_view(events@),
        ),
{
    let (mut engine, _first) = KillEngine::new(pid, port, aware);
    let ghost evs = events_view(events@);
    let ghost m0 = KillEngine::initial(pid as int, port_view(port), aware);
    let n = events.len();
    let mut i: usize = 0;
    proof {
        assert(evs.take(0) =~= Seq::<EventModel>::empty());
    }
    while i < n
        invariant
            0 <= i <= n,
            n == events@.len(),
            evs == events_view(events@),
            engine@ == spec_run(m0, cfg, evs.take(i as int)).0,
        decreases n - i,
    {
        proof {
            assert(evs.take(i + 1) =~= evs.take(i as int).push(evs[i as int]));
            lemma_spec_run_snoc(m0, cfg, evs.take(i as int), evs[i as int]);
            assert(events@[i as int]@ == evs[i as int]);
        }
        let _step = engine.on_event(cfg, &events[i]);
        i = i + 1;
    }
    proof {
        assert(evs.take(n as int) =~= evs);
    }
    match engine.outcome() {
        Some(o) => o,
        None => TerminationOutcome::Failed(FailCause::Stalled),
    }
}

/// One target of a kill batch: the pid, and the port the kill was
/// triggered from when it was port-triggered.
#[derive(Debug, Clone, Copy, PartialEq, Eq)]
pub struct KillTarget {
    pub pid: i32,
    pub port: Option<u16>,
}

/// The targets of a `KillAll`: every binding of the (already
/// filtered) snapshot, in port order, each carrying its port for the
/// kill-time ignore re-check.
pub fn plan_kill_targets(s: &crate::snapshot::Snapshot) -> (r: Vec<KillTarget>)
    ensures
        r@.len() == s.entries_view().len(),
        forall|i: int|
            0 <= i < r@.len() ==> #[trigger] r@[i].pid == s.entries_view()[i].pid && port_view(
                r@[i].port,
            ) == Some(s.entries_view()[i].port),
{
    let n = s.len();
    let mut r: Vec<KillTarget> = Vec::new();
    let mut i: usize = 0;
    while i < n
        invariant
            0 <= i <= n,
            n == s.entries_view().len(),
            r@.len() == i,
            forall|j: int|
                0 <= j < i ==> #[trigger] r@[j].pid == s.entries_view()[j].pid && port_view(
                    r@[j].port,
                ) == Some(s.entries_view()[j].port),
        decreases n - i,
    {
        let e = s.entry_at(i);
        r.push(KillTarget { pid: e.pid, port: Some(e.port) });
        i = i + 1;
    }
    r
}

/// Run one session per target over the recorded traces. The batch
/// never aborts: it yields exactly one outcome per target, each the
/// outcome of that target's own session, so a failure for one pid
/// stands in the sequence beside a kill for another.
pub fn run_batch(
    targets: &Vec<KillTarget>,
    traces: &Vec<Vec<KillEvent>>,
    aware: bool,
    cfg: &IgnoreConfig,
) -> (r: Vec<TerminationOutcome>)
    requires
        traces@.len() == targets@.len(),
    ensures
        r@.len() == targets@.len(),
        forall|i: int|
            0 <= i < targets@.len() ==> r@[i] == spec_session_outcome(
                #[trigger] targets@[i].pid as int,
                port_view(targets@[i].port),
                aware,
                cfg,
                events_view(traces@[i]@),
            ),
{
    let n = targets.len();
    let mut r: Vec<TerminationOutcome> = Vec::new();
    let mut i: usize = 0;
    while i < n
        invariant
            0 <= i <= n,
            n == targets@.len(),
            traces@.len() == targets@.len(),
            r@.len() == i,
            forall|j: int|
                0 <= j < i ==> r@[j] == spec_session_outcome(
                    #[trigger] targets@[j].pid as int,
                    port_view(targets@[j].port),
                    aware,
                    cfg,
                    events_view(traces@[j]@),
                ),
        decreases n - i,
    {
        let t = &targets[i];
        let outcome = run_session(t.pid, t.port, aware, cfg, &traces[i]);
        r.push(outcome);
        i = i + 1;
    }
    r
}

/// Aggregate success of a batch: every outcome was a kill or a skip.
pub fn batch_succeeded(outcomes: &Vec<TerminationOutcome>) -> (r: bool)
    ensures
        r == forall|i: int| 0 <= i < outcomes@.len() ==> (#[trigger] outcomes@[i]).is_success(),
{
    let n = outcomes.len();
    let mut i: usize = 0;
    while i < n
        invariant
            0 <= i <= n,
            n == outcomes@.len(),
            forall|j: int| 0 <= j < i ==> (#[trigger] outcomes@[j]).is_success(),
        decreases n - i,
    {
        match &outcomes[i] {
            TerminationOutcome::Failed(_) => { return false },
            _ => {},
        }
        i = i + 1;
    }
    true
}

/// How many signal sends of the given kind a step sequence holds.
pub open spec fn count_sends(steps: Seq<StepModel>, forceful: bool) -> nat
    decreases steps.len(),
{
    if steps.len() == 0 {
        0
    } else {
        count_sends(steps.drop_first(), forceful) + (
        if steps.first() matches StepModel::SendSignal(_, f) && f == forceful {
            1nat
        } else {
            0nat
        })
    }
}

/// The event trace of one plain (non-container) escalation: the name
/// answer, the container answer when awareness is on, the graceful
/// send result, the elapsed wait, the liveness answer, and the
/// forceful send result when the target was still alive.
pub open spec fn escalation_events(
    aware: bool,
    name: Seq<char>,
    sent_ok: bool,
    alive: bool,
    forced_ok: bool,
) -> Seq<EventModel> {
    seq![EventModel::Name(name)] + (if aware {
        seq![EventModel::Container(None)]
    } else {
        Seq::empty()
    }) + seq![EventModel::Sent(sent_ok), EventModel::Waited, EventModel::Alive(alive)] + (
    if alive {
        seq![EventModel::Sent(forced_ok)]
    } else {
        Seq::empty()
    })
}

/// The steps that escalation trace makes the engine take, in order.
pub open spec fn escalation_steps(pid: int, aware: bool, alive: bool, forced_ok: bool) -> Seq<
    StepModel,
> {
    (if aware {
        seq![StepModel::LookupContainer(pid)]
    } else {
        Seq::empty()
    }) + seq![
        StepModel::SendSignal(pid, false),
        StepModel::Wait,
        StepModel::CheckAlive(pid),
    ] + (if alive {
        seq![
            StepModel::SendSignal(pid, true),
            StepModel::Done(
                if forced_ok {
                    TerminationOutcome::Killed
                } else {
                    TerminationOutcome::Failed(FailCause::ForcefulSignalFailed)
                },
            ),
        ]
    } else {
        seq![StepModel::Done(TerminationOutcome::Killed)]
    })
}

/// Law of kill escalation. For a target that nothing ignores and no
/// container owns: when the process dies within the wait window after
/// the graceful signal, no forceful signal is sent; when it survives
/// the window, exactly one forceful signal is sent, after exactly one
/// graceful signal. The session's steps are exactly
/// [`escalation_steps`], which places the one forceful send after the
/// one graceful send.
pub proof fn lemma_kill_escalation(
    pid: int,
    port: Option<int>,
    aware: bool,
    cfg: &IgnoreConfig,
    name: Seq<char>,
    sent_ok: bool,
    alive: bool,
    forced_ok: bool,
)
    requires
        !cfg.name_ignored(name),
        match port {
            Some(p) => !cfg.port_ignored(p),
            None => true,
        },
    ensures
        ({
            let run = spec_run(
                KillEngine::initial(pid, port, aware),
                cfg,
                escalation_events(aware, name, sent_ok, alive, forced_ok),
            );
            let steps = escalation_steps(pid, aware, alive, forced_ok);
            run.1 == steps && count_sends(steps, false) == 1 && count_sends(steps, true) == (
            if alive {
                1nat
            } else {
                0nat
            }) && run.0.phase == PhaseModel::Finished(
                if !alive || forced_ok {
                    TerminationOutcome::Killed
                } else {
                    TerminationOutcome::Failed(FailCause::ForcefulSignalFailed)
                },
            )
        }),
{
    reveal_with_fuel(spec_run, 10);
    reveal_with_fuel(count_sends, 10);
    let evs = escalation_events(aware, name, sent_ok, alive, forced_ok);
    let steps = escalation_steps(pid, aware, alive, forced_ok);
    if aware {
        if alive {
            assert(evs =~= seq![
                EventModel::Name(name),
                EventModel::Container(None),
                EventModel::Sent(sent_ok),
                EventModel::Waited,
                EventModel::Alive(alive),
                EventModel::Sent(forced_ok),
            ]);
            lemma_escalation_unfold6(pid, port, aware, cfg, evs);
            assert(spec_run(KillEngine::initial(pid, port, aware), cfg, evs).1 =~= steps);
        } else {
            assert(evs =~= seq![
                EventModel::Name(name),
                EventModel::Container(None),
                EventModel::Sent(sent_ok),
                EventModel::Waited,
                EventModel::Alive(alive),
            ]);
            lemma_escalation_unfold5(pid, port, aware, cfg, evs);
            assert(spec_run(KillEngine::initial(pid, port, aware), cfg, evs).1 =~= steps);
        }
    } else {
        if alive {
            assert(evs =~= seq![
                EventModel::Name(name),
                EventModel::Sent(sent_ok),
                EventModel::Waited,
                EventModel::Alive(alive),
                EventModel::Sent(forced_ok),
            ]);
            lemma_escalation_unfold5(pid, port, aware, cfg, evs);
            assert(spec_run(KillEngine::initial(pid, port, aware), cfg, evs).1 =~= steps);
        } else {
            assert(evs =~= seq![
                EventModel::Name(name),
                EventModel::Sent(sent_ok),
                EventModel::Waited,
                EventModel::Alive(alive),
            ]);
            lemma_escalation_unfold4(pid, port, aware, cfg, evs);
            assert(spec_run(KillEngine::initial(pid, port, aware), cfg, evs).1 =~= steps);
        }
    }
    assert(count_sends(steps, false) == 1);
    assert(count_sends(steps, true) == (if alive {
        1nat
    } else {
        0nat
    }));
}

proof fn lemma_escalation_unfold4(
    pid: int,
    port: Option<int>,
    aware: bool,
    cfg: &IgnoreConfig,
    evs: Seq<EventModel>,
)
    requires
        evs.len() == 4,
    ensures
        ({
            let m0 = KillEngine::initial(pid, port, aware);
            let s1 = spec_step(m0, cfg, evs[0]);
            let s2 = spec_step(s1.0, cfg, evs[1]);
            let s3 = spec_step(s2.0, cfg, evs[2]);
            let s4 = spec_step(s3.0, cfg, evs[3]);
            spec_run(m0, cfg, evs) == (s4.0, seq![s1.1, s2.1, s3.1, s4.1])
        }),
{
    reveal_with_fuel(spec_run, 6);
    let m0 = KillEngine::initial(pid, port, aware);
    let s1 = spec_step(m0, cfg, evs[0]);
    let s2 = spec_step(s1.0, cfg, evs[1]);
    let s3 = spec_step(s2.0, cfg, evs[2]);
    let s4 = spec_step(s3.0, cfg, evs[3]);
    let t1 = evs.drop_first();
    let t2 = t1.drop_first();
    let t3 = t2.drop_first();
    let t4 = t3.drop_first();
    assert(t4.len() == 0);
    assert(t1[0] == evs[1] && t2[0] == evs[2] && t3[0] == evs[3]);
    assert(spec_run(m0, cfg, evs).1 =~= seq![s1.1, s2.1, s3.1, s4.1]);
}

proof fn lemma_escalation_unfold5(
    pid: int,
    port: Option<int>,
    aware: bool,
    cfg: &IgnoreConfig,
    evs: Seq<EventModel>,
)
    requires
        evs.len() == 5,
    ensures
        ({
            let m0 = KillEngine::initial(pid, port, aware);
            let s1 = spec_step(m0, cfg, evs[0]);
            let s2 = spec_step(s1.0, cfg, evs[1]);
            let s3 = spec_step(s2.0, cfg, evs[2]);
            let s4 = spec_step(s3.0, cfg, evs[3]);
            let s5 = spec_step(s4.0, cfg, evs[4]);
            spec_run(m0, cfg, evs) == (s5.0, seq![s1.1, s2.1, s3.1, s4.1, s5.1])
        }),
{
    reveal_with_fuel(spec_run, 7);
    let m0 = KillEngine::initial(pid, port, aware);
    let s1 = spec_step(m0, cfg, evs[0]);
    let s2 = spec_step(s1.0, cfg, evs[1]);
    let s3 = spec_step(s2.0, cfg, evs[2]);
    let s4 = spec_step(s3.0, cfg, evs[3]);
    let s5 = spec_step(s4.0, cfg, evs[4]);
    let t1 = evs.drop_first();
    let t2 = t1.drop_first();
    let t3 = t2.drop_first();
    let t4 = t3.drop_first();
    let t5 = t4.drop_first();
    assert(t5.len() == 0);
    assert(t1[0] == evs[1] && t2[0] == evs[2] && t3[0] == evs[3] && t4[0] == evs[4]);
    assert(spec_run(m0, cfg, evs).1 =~= seq![s1.1, s2.1, s3.1, s4.1, s5.1]);
}

proof fn lemma_escalation_unfold6(
    pid: int,
    port: Option<int>,
    aware: bool,
    cfg: &IgnoreConfig,
    evs: Seq<EventModel>,
)
    requires
        evs.len() == 6,
    ensures
        ({
            let m0 = KillEngine::initial(pid, port, aware);
            let s1 = spec_step(m0, cfg, evs[0]);
            let s2 = spec_step(s1.0, cfg, evs[1]);
            let s3 = spec_step(s2.0, cfg, evs[2]);
            let s4 = spec_step(s3.0, cfg, evs[3]);
            let s5 = spec_step(s4.0, cfg, evs[4]);
            let s6 = spec_step(s5.0, cfg, evs[5]);
            spec_run(m0, cfg, evs) == (s6.0, seq![s1.1, s2.1, s3.1, s4.1, s5.1, s6.1])
        }),
{
    reveal_with_fuel(spec_run, 8);
    let m0 = KillEngine::initial(pid, port, aware);
    let s1 = spec_step(m0, cfg, evs[0]);
    let s2 = spec_step(s1.0, cfg, evs[1]);
    let s3 = spec_step(s2.0, cfg, evs[2]);
    let s4 = spec_step(s3.0, cfg, evs[3]);
    let s5 = spec_step(s4.0, cfg, evs[4]);
    let s6 = spec_step(s5.0, cfg, evs[5]);
    let t1 = evs.drop_first();
    let t2 = t1.drop_first();
    let t3 = t2.drop_first();
    let t4 = t3.drop_first();
    let t5 = t4.drop_first();
    let t6 = t5.drop_first();
    assert(t6.len() == 0);
    assert(t1[0] == evs[1] && t2[0] == evs[2] && t3[0] == evs[3] && t4[0] == evs[4] && t5[0]
        == evs[5]);
    assert(spec_run(m0, cfg, evs).1 =~= seq![s1.1, s2.1, s3.1, s4.1, s5.1, s6.1]);
}

/// Law of container teardown. Once a container owns the session (a
/// stop or removal is pending, or the session is over), no event
/// sequence whatever can make the engine send a direct OS signal:
/// the container stop and the forced removal substitute entirely for
/// the signal path.
pub proof fn lemma_container_no_direct_signal(
    m: EngineModel,
    cfg: &IgnoreConfig,
    evs: Seq<EventModel>,
)
    requires
        m.phase matches PhaseModel::AwaitStop(_) || m.phase matches PhaseModel::AwaitRemove(_)
            || m.phase matches PhaseModel::Finished(_),
    ensures
        count_sends(spec_run(m, cfg, evs).1, false) == 0,
        count_sends(spec_run(m, cfg, evs).1, true) == 0,
    decreases evs.len(),
{
    if evs.len() > 0 {
        let first = spec_step(m, cfg, evs.first());
        lemma_container_no_direct_signal(first.0, cfg, evs.drop_first());
        let rest = spec_run(first.0, cfg, evs.drop_first());
        assert((seq![first.1] + rest.1).drop_first() =~= rest.1);
    }
}

/// Relies on `nix::sys::signal::kill`: sends SIGTERM (graceful) or
/// SIGKILL (forceful) to `pid` and reports whether the send
/// succeeded. Whether it succeeds depends on the state of the system,
/// so nothing more is promised of the result.
#[verifier::external_body]
fn send_signal_raw(pid: i32, forceful: bool) -> bool {
    nix::sys::signal::kill(
        nix::unistd::Pid::from_raw(pid),
        if forceful {
            nix::sys::signal::Signal::SIGKILL
        } else {
            nix::sys::signal::Signal::SIGTERM
        },
    ).is_ok()
}

/// Perform a step when it is one of the two signal sends, and hand
/// back the event it produced; every other step is the shell's to
/// perform, and yields nothing here.
pub fn execute_signal_step(step: &KillStep) -> (r: Option<KillEvent>)
    ensures
        match step@ {
            StepModel::SendSignal(_, _) => r matches Some(ev) && ev@ matches EventModel::Sent(_),
            _ => r is None,
        },
{
    match step {
        KillStep::SendSignal { pid, forceful } => {
            let ok = send_signal_raw(*pid, *forceful);
            Some(KillEvent::SignalSent { ok })
        },
        _ => None,
    }
}

} // verus!
