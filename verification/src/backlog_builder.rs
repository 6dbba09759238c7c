//! The core backlog + scheduler state machine.
//!
//! A shared set of pending change kinds (the backlog) plus a running/idle
//! indicator drive a single-flight build-cycle worker: enqueuing a change
//! records it and, only when the scheduler was idle, hands off to exactly one
//! worker; the worker repeatedly swaps the backlog with an empty set and runs
//! one build cycle per non-empty snapshot, going idle when the re-check finds
//! the backlog empty.

use vstd::prelude::*;

use crate::runner::Runner;
use crate::rust_builder::RustBuilder;
use crate::script_runner::ScriptRunner;
use crate::web_builder::WebBuilder;

verus! {

/// Classification tag for a qualifying filesystem change: which build
/// stage(s) it affects.
#[derive(Debug, Clone, Copy, PartialEq, Eq, Hash, Structural)]
pub enum ChangeType {
    Rust,
    TypeScript,
    Css,
}

/// The deduplicated set of pending changes awaiting the next build cycle.
/// Membership only: duplicates collapse, order is irrelevant.
#[derive(Debug, Clone, Copy)]
pub struct Backlog {
    rust: bool,
    typescript: bool,
    css: bool,
}

impl View for Backlog {
    type V = Set<ChangeType>;

    closed spec fn view(&self) -> Set<ChangeType> {
        Set::new(
            |kind: ChangeType|
                match kind {
                    ChangeType::Rust => self.rust,
                    ChangeType::TypeScript => self.typescript,
                    ChangeType::Css => self.css,
                },
        )
    }
}

impl Backlog {
    /// The empty backlog.
    pub fn new() -> (r: Self)
        ensures
            r@ =~= Set::<ChangeType>::empty(),
    {
        let r = Backlog { rust: false, typescript: false, css: false };
        proof {
            assert forall|kind: ChangeType| !r@.contains(kind) by {}
        }
        r
    }

    /// Records one change kind; duplicates collapse.
    pub fn insert(&mut self, kind: ChangeType)
        ensures
            final(self)@ =~= old(self)@.insert(kind),
    {
        match kind {
            ChangeType::Rust => self.rust = true,
            ChangeType::TypeScript => self.typescript = true,
            ChangeType::Css => self.css = true,
        }
    }

    /// Whether the given kind is pending.
    pub fn contains(&self, kind: ChangeType) -> (r: bool)
        ensures
            r == self@.contains(kind),
    {
        match kind {
            ChangeType::Rust => self.rust,
            ChangeType::TypeScript => self.typescript,
            ChangeType::Css => self.css,
        }
    }

    /// Whether no change is pending.
    pub fn is_empty(&self) -> (r: bool)
        ensures
            r == (self@ == Set::<ChangeType>::empty()),
    {
        let r = !self.rust && !self.typescript && !self.css;
        proof {
            if r {
                assert(self@ =~= Set::<ChangeType>::empty());
            } else {
                if self.rust {
                    assert(self@.contains(ChangeType::Rust));
                } else if self.typescript {
                    assert(self@.contains(ChangeType::TypeScript));
                } else {
                    assert(self@.contains(ChangeType::Css));
                }
            }
        }
        r
    }
}

/// The minimal set of build stages a drained snapshot requires.
#[derive(Debug, Clone, Copy, PartialEq, Eq, Structural)]
pub enum BuildType {
    All,
    OnlyWeb,
}

/// The scope a non-empty set of change kinds resolves to: a set consisting
/// solely of web sources, or solely of stylesheets, needs only the web stage;
/// every other combination defaults to a full build, so that ambiguity never
/// under-builds.
pub open spec fn scope_of(kinds: Set<ChangeType>) -> BuildType {
    if kinds == set![ChangeType::TypeScript] || kinds == set![ChangeType::Css] {
        BuildType::OnlyWeb
    } else {
        BuildType::All
    }
}

impl BuildType {
    /// Resolves the build scope of a drained snapshot.
    pub fn from_changes(changes: &Backlog) -> (r: BuildType)
        ensures
            r == scope_of(changes@),
    {
        let only_typescript = !changes.rust && changes.typescript && !changes.css;
        let only_css = !changes.rust && !changes.typescript && changes.css;
        proof {
            if only_typescript {
                assert(changes@ =~= set![ChangeType::TypeScript]);
            } else {
                assert(changes@ != set![ChangeType::TypeScript]) by {
                    if changes.rust {
                        assert(changes@.contains(ChangeType::Rust));
                    } else if !changes.typescript {
                        assert(set![ChangeType::TypeScript].contains(ChangeType::TypeScript));
                    } else {
                        assert(changes@.contains(ChangeType::Css));
                    }
                }
            }
            if only_css {
                assert(changes@ =~= set![ChangeType::Css]);
            } else {
                assert(changes@ != set![ChangeType::Css]) by {
                    if changes.rust {
                        assert(changes@.contains(ChangeType::Rust));
                    } else if changes.typescript {
                        assert(changes@.contains(ChangeType::TypeScript));
                    } else {
                        assert(set![ChangeType::Css].contains(ChangeType::Css));
                    }
                }
            }
        }
        if only_typescript {
            BuildType::OnlyWeb
        } else if only_css {
            BuildType::OnlyWeb
        } else {
            BuildType::All
        }
    }
}

/// The mathematical state of the scheduler: whether a worker is active, and
/// the set of pending changes.
#[verifier::ext_equal]
pub ghost struct SchedView {
    pub running: bool,
    pub backlog: Set<ChangeType>,
}

/// The state a scheduler session starts in: idle, nothing pending.
pub open spec fn sched_init() -> SchedView {
    SchedView { running: false, backlog: Set::empty() }
}

/// Effect of enqueuing a change: it lands in the backlog, and a worker is
/// active afterwards (either it already was, or the enqueue hands off to one).
pub open spec fn enqueue_step(s: SchedView, kind: ChangeType) -> SchedView {
    SchedView { running: true, backlog: s.backlog.insert(kind) }
}

/// Effect of one worker re-check: an empty backlog sends the scheduler idle;
/// otherwise the backlog is swapped with the empty set and its former content
/// is the drained snapshot of one build cycle.
pub open spec fn cycle_step(s: SchedView) -> SchedView {
    if s.backlog == Set::<ChangeType>::empty() {
        SchedView { running: false, backlog: s.backlog }
    } else {
        SchedView { running: true, backlog: Set::empty() }
    }
}

/// One operation of the scheduler's interleaving model: an enqueue from the
/// event-delivery context, or a worker re-check.
pub enum SchedOp {
    Enqueue(ChangeType),
    Cycle,
}

/// One step of the interleaving model.
pub open spec fn sched_step(s: SchedView, op: SchedOp) -> SchedView {
    match op {
        SchedOp::Enqueue(kind) => enqueue_step(s, kind),
        SchedOp::Cycle => cycle_step(s),
    }
}

/// The state after an arbitrary interleaving of enqueues and worker
/// re-checks.
pub open spec fn sched_run(s: SchedView, ops: Seq<SchedOp>) -> SchedView
    decreases ops.len(),
{
    if ops.len() == 0 {
        s
    } else {
        sched_run(sched_step(s, ops.first()), ops.drop_first())
    }
}

/// A trace is well-formed when every worker re-check happens while a worker
/// is active: re-checks are only ever executed by the single worker, which
/// exists exactly while the scheduler is in the Building state.
pub open spec fn wf_trace(s: SchedView, ops: Seq<SchedOp>) -> bool
    decreases ops.len(),
{
    ops.len() == 0 || {
        &&& (ops.first() is Cycle ==> s.running)
        &&& wf_trace(sched_step(s, ops.first()), ops.drop_first())
    }
}

/// The sequence of snapshots drained by the build cycles of a trace, in
/// order.
pub open spec fn drained(s: SchedView, ops: Seq<SchedOp>) -> Seq<Set<ChangeType>>
    decreases ops.len(),
{
    if ops.len() == 0 {
        Seq::empty()
    } else {
        let rest = drained(sched_step(s, ops.first()), ops.drop_first());
        if ops.first() is Cycle && s.backlog != Set::<ChangeType>::empty() {
            seq![s.backlog] + rest
        } else {
            rest
        }
    }
}

/// The set of change kinds enqueued anywhere in a trace.
pub open spec fn enqueued(ops: Seq<SchedOp>) -> Set<ChangeType>
    decreases ops.len(),
{
    if ops.len() == 0 {
        Set::empty()
    } else {
        match ops.first() {
            SchedOp::Enqueue(kind) => enqueued(ops.drop_first()).insert(kind),
            SchedOp::Cycle => enqueued(ops.drop_first()),
        }
    }
}

/// The union of a sequence of snapshots.
pub open spec fn union_all(sets: Seq<Set<ChangeType>>) -> Set<ChangeType>
    decreases sets.len(),
{
    if sets.len() == 0 {
        Set::empty()
    } else {
        sets.first().union(union_all(sets.drop_first()))
    }
}

/// No lost changes: over any interleaving of enqueues and worker re-checks,
/// what the cycles drained together with what is still pending is exactly
/// what was pending at the start together with everything enqueued. Nothing
/// disappears, and no change kind is drained that was never enqueued or
/// initially pending.
pub proof fn lemma_no_lost_changes(s: SchedView, ops: Seq<SchedOp>)
    ensures
        union_all(drained(s, ops)).union(sched_run(s, ops).backlog) =~= s.backlog.union(
            enqueued(ops),
        ),
    decreases ops.len(),
{
    if ops.len() == 0 {
        assert(union_all(drained(s, ops)) =~= Set::<ChangeType>::empty());
        assert(enqueued(ops) =~= Set::<ChangeType>::empty());
    } else {
        let s2 = sched_step(s, ops.first());
        let rest = ops.drop_first();
        lemma_no_lost_changes(s2, rest);
        match ops.first() {
            SchedOp::Enqueue(kind) => {
                assert(sched_step(s, ops.first()) == s2);
                assert(drained(s, ops) == drained(s2, rest));
                assert(sched_run(s, ops) == sched_run(s2, rest));
                assert(enqueued(ops) == enqueued(rest).insert(kind));
                assert(s2.backlog == s.backlog.insert(kind));
                assert(union_all(drained(s2, rest)).union(sched_run(s2, rest).backlog)
                    == s2.backlog.union(enqueued(rest)));
                assert forall|x: ChangeType|
                    union_all(drained(s, ops)).union(sched_run(s, ops).backlog).contains(x)
                        <==> s.backlog.union(enqueued(ops)).contains(x) by {
                    assert(union_all(drained(s, ops)).union(sched_run(s, ops).backlog).contains(x)
                        == union_all(drained(s2, rest)).union(sched_run(s2, rest).backlog).contains(
                        x,
                    ));
                }
                assert(union_all(drained(s, ops)).union(sched_run(s, ops).backlog)
                    =~= s.backlog.union(enqueued(ops)));
            }
            SchedOp::Cycle => {
                assert(enqueued(ops) == enqueued(rest));
                assert(sched_run(s, ops) == sched_run(s2, rest));
                if s.backlog != Set::<ChangeType>::empty() {
                    let d = drained(s2, rest);
                    assert(drained(s, ops) == seq![s.backlog] + d);
                    assert((seq![s.backlog] + d).first() == s.backlog);
                    assert((seq![s.backlog] + d).drop_first() =~= d);
                    assert(union_all(seq![s.backlog] + d) == s.backlog.union(union_all(d)));
                    assert forall|x: ChangeType|
                        union_all(drained(s, ops)).union(sched_run(s, ops).backlog).contains(x)
                            <==> s.backlog.union(enqueued(ops)).contains(x) by {
                        assert(union_all(d).union(sched_run(s2, rest).backlog).contains(x) == Set::<
                            ChangeType,
                        >::empty().union(enqueued(rest)).contains(x));
                    }
                    assert(union_all(drained(s, ops)).union(sched_run(s, ops).backlog)
                        =~= s.backlog.union(enqueued(ops)));
                } else {
                    assert(drained(s, ops) == drained(s2, rest));
                    assert(s2.backlog == s.backlog);
                    assert(union_all(drained(s, ops)).union(sched_run(s, ops).backlog)
                        =~= s.backlog.union(enqueued(ops)));
                }
            }
        }
    }
}

/// A drained change kind does not reappear: once a kind is out of the
/// backlog, no later cycle's snapshot contains it and it never re-enters the
/// backlog, unless it is enqueued again. Together with `lemma_no_lost_changes`
/// this says that every enqueued change is seen by exactly one cycle: the
/// first one to drain after it.
pub proof fn lemma_drained_kind_needs_reenqueue(s: SchedView, ops: Seq<SchedOp>, kind: ChangeType)
    requires
        !s.backlog.contains(kind),
        forall|i: int| 0 <= i < ops.len() ==> ops[i] != SchedOp::Enqueue(kind),
    ensures
        forall|j: int|
            0 <= j < drained(s, ops).len() ==> !(#[trigger] drained(s, ops)[j]).contains(kind),
        !sched_run(s, ops).backlog.contains(kind),
    decreases ops.len(),
{
    if ops.len() == 0 {
    } else {
        let s2 = sched_step(s, ops.first());
        let rest = ops.drop_first();
        assert forall|i: int| 0 <= i < rest.len() implies rest[i] != SchedOp::Enqueue(kind) by {
            assert(rest[i] == ops[i + 1]);
        }
        match ops.first() {
            SchedOp::Enqueue(other) => {
                assert(ops[0] == SchedOp::Enqueue(other));
                lemma_drained_kind_needs_reenqueue(s2, rest, kind);
                assert(drained(s, ops) == drained(s2, rest));
            }
            SchedOp::Cycle => {
                lemma_drained_kind_needs_reenqueue(s2, rest, kind);
                let d = drained(s2, rest);
                if s.backlog == Set::<ChangeType>::empty() {
                    assert(drained(s, ops) == d);
                }
                if s.backlog != Set::<ChangeType>::empty() {
                    assert(drained(s, ops) == seq![s.backlog] + d);
                    assert forall|j: int|
                        0 <= j < drained(s, ops).len() implies !(#[trigger] drained(
                        s,
                        ops,
                    )[j]).contains(kind) by {
                        if j == 0 {
                            assert(drained(s, ops)[0] == s.backlog);
                        } else {
                            assert(drained(s, ops)[j] == d[j - 1]);
                        }
                    }
                }
            }
        }
    }
}

/// Why one build cycle's pipeline stopped.
#[derive(Debug)]
pub enum BuildError {
    RustBuild(crate::rust_builder::Error),
    WebBuild(crate::web_builder::Error),
    PostBuildRunner(crate::script_runner::Error),
}

/// The builders a cycle drives and the optional post-build hook.
#[derive(Clone)]
pub struct Config {
    pub rust_builder: RustBuilder,
    pub web_builder: WebBuilder,
    pub post_build_runner: Option<ScriptRunner>,
}

/// The shared scheduler state: the running/idle indicator and the backlog.
/// Every compound read-modify-write on it goes through one of the atomic
/// operations of `BacklogBuilder`, which the embedding binary serializes
/// behind a single lock.
pub struct State {
    is_running: bool,
    backlog: Backlog,
}

impl View for State {
    type V = SchedView;

    closed spec fn view(&self) -> SchedView {
        SchedView { running: self.is_running, backlog: self.backlog@ }
    }
}

impl State {
    /// The initial scheduler state: idle, nothing pending.
    pub fn new() -> (r: Self)
        ensures
            r@ =~= sched_init(),
    {
        Self { is_running: false, backlog: Backlog::new() }
    }
}

/// The backlog + scheduler: absorbs classified changes and drives the
/// single-flight build-cycle worker.
pub struct BacklogBuilder {
    config: Config,
    state: State,
}

impl BacklogBuilder {
    /// The scheduler state, mathematically.
    pub closed spec fn sched(&self) -> SchedView {
        self.state@
    }

    /// The configured builders and hook.
    pub closed spec fn cfg(&self) -> Config {
        self.config
    }

    /// Creates an idle scheduler around the given builders.
    pub fn new(config: Config) -> (r: Self)
        ensures
            r.sched() =~= sched_init(),
            r.cfg() == config,
    {
        Self { config, state: State::new() }
    }

    /// The configured builders and hook.
    pub fn config(&self) -> (r: &Config)
        ensures
            *r == self.cfg(),
    {
        &self.config
    }

    /// Whether a build-cycle worker is active.
    pub fn is_running(&self) -> (r: bool)
        ensures
            r == self.sched().running,
    {
        self.state.is_running
    }

    /// Records one classified change and reports whether a worker execution
    /// must be handed off: the change always lands in the backlog, and the
    /// hand-off happens exactly when the scheduler was idle. This is the one
    /// operation reachable from the event-delivery context; it never waits
    /// for a build.
    pub fn run(&mut self, change: ChangeType) -> (started: bool)
        ensures
            final(self).sched() =~= enqueue_step(old(self).sched(), change),
            started == !old(self).sched().running,
            final(self).cfg() == old(self).cfg(),
    {
        self.state.backlog.insert(change);
        if self.state.is_running {
            false
        } else {
            self.state.is_running = true;
            true
        }
    }

    /// One worker re-check: atomically swaps the backlog with the empty set.
    /// A non-empty former backlog is returned as the snapshot of the next
    /// build cycle; an empty one sends the scheduler idle and retires the
    /// worker. Only the single active worker calls this.
    pub fn next_cycle(&mut self) -> (r: Option<Backlog>)
        requires
            old(self).sched().running,
        ensures
            final(self).sched() =~= cycle_step(old(self).sched()),
            final(self).cfg() == old(self).cfg(),
            r matches Some(snapshot) ==> snapshot@ == old(self).sched().backlog,
            r is None <==> old(self).sched().backlog == Set::<ChangeType>::empty(),
    {
        if self.state.backlog.is_empty() {
            self.state.is_running = false;
            None
        } else {
            let snapshot = self.state.backlog;
            self.state.backlog = Backlog::new();
            Some(snapshot)
        }
    }

    /// The worker loop: repeatedly drains the backlog and runs one build
    /// cycle per non-empty snapshot, without passing through idle in
    /// between, until a re-check finds the backlog empty. Stage failures are
    /// collected and returned for the caller to report; they never corrupt
    /// scheduler state. With no concurrent enqueue — this method borrows the
    /// scheduler exclusively — at most one cycle runs.
    pub fn run_pending_cycles<RN: Runner<crate::rust_builder::Error>, RW: Runner<
        crate::web_builder::Error,
    >, RH: Runner<crate::script_runner::Error>>(
        &mut self,
        rust: &RN,
        web: &RW,
        hook: Option<&RH>,
    ) -> (failures: Vec<BuildError>)
        requires
            old(self).sched().running,
        ensures
            final(self).sched() =~= (SchedView { running: false, backlog: Set::empty() }),
            final(self).cfg() == old(self).cfg(),
            failures@.len() <= 1,
            old(self).sched().backlog == Set::<ChangeType>::empty() ==> failures@.len() == 0,
    {
        let ghost cfg0 = self.cfg();
        let ghost b0 = self.sched().backlog;
        let mut failures: Vec<BuildError> = Vec::new();
        let mut snap_opt = self.next_cycle();
        while snap_opt.is_some()
            invariant
                self.cfg() == cfg0,
                snap_opt is Some ==> self.sched() =~= (SchedView {
                    running: true,
                    backlog: Set::empty(),
                }),
                snap_opt is None ==> self.sched() =~= (SchedView {
                    running: false,
                    backlog: Set::empty(),
                }),
                failures@.len() <= 1,
                snap_opt is Some ==> failures@.len() == 0,
                b0 == Set::<ChangeType>::empty() ==> failures@.len() == 0 && snap_opt is None,
            decreases (if snap_opt is Some {
                1int
            } else {
                0int
            }),
        {
            let snapshot = snap_opt.unwrap();
            let build_type = BuildType::from_changes(&snapshot);
            match run_stages(&build_type, rust, web, &hook) {
                Ok(()) => {}
                Err(err) => {
                    failures.push(err);
                }
            }
            snap_opt = self.next_cycle();
        }
        failures
    }
}

/// One build cycle's pipeline: for a full scope the native stage runs and
/// then the web stage, for a web-only scope only the web stage; the first
/// failing stage stops the pipeline. After a successful pipeline the
/// post-build hook runs, if one is configured. The first failure is
/// returned for the caller to report.
pub fn run_stages<RN: Runner<crate::rust_builder::Error>, RW: Runner<
    crate::web_builder::Error,
>, RH: Runner<crate::script_runner::Error>>(
    build_type: &BuildType,
    rust: &RN,
    web: &RW,
    hook: &Option<&RH>,
) -> (r: Result<(), BuildError>)
    ensures
        build_type is OnlyWeb ==> (r matches Err(e) ==> !(e is RustBuild)),
        hook is None ==> (r matches Err(e) ==> !(e is PostBuildRunner)),
{
    match build_type {
        BuildType::All => {
            match rust.run() {
                Ok(()) => {}
                Err(err) => {
                    return Err(BuildError::RustBuild(err));
                }
            }
            match web.run() {
                Ok(()) => {}
                Err(err) => {
                    return Err(BuildError::WebBuild(err));
                }
            }
        }
        BuildType::OnlyWeb => {
            match web.run() {
                Ok(()) => {}
                Err(err) => {
                    return Err(BuildError::WebBuild(err));
                }
            }
        }
    }
    match hook {
        Some(runner) => {
            match runner.run() {
                Ok(()) => {}
                Err(err) => {
                    return Err(BuildError::PostBuildRunner(err));
                }
            }
        }
        None => {}
    }
    Ok(())
}

/// 1 while a worker execution is alive, 0 while the scheduler is idle.
pub open spec fn active(s: SchedView) -> int {
    if s.running {
        1int
    } else {
        0int
    }
}

/// How many times a trace hands off to a new worker execution: an enqueue
/// spawns one exactly when the scheduler was idle.
pub open spec fn spawns(s: SchedView, ops: Seq<SchedOp>) -> int
    decreases ops.len(),
{
    if ops.len() == 0 {
        0int
    } else {
        let here: int = if ops.first() matches SchedOp::Enqueue(_) && !s.running {
            1int
        } else {
            0int
        };
        here + spawns(sched_step(s, ops.first()), ops.drop_first())
    }
}

/// How many times a worker execution ends: a re-check that finds the backlog
/// empty sends the scheduler idle and retires the worker.
pub open spec fn retires(s: SchedView, ops: Seq<SchedOp>) -> int
    decreases ops.len(),
{
    if ops.len() == 0 {
        0int
    } else {
        let here: int = if ops.first() is Cycle && s.running && s.backlog == Set::<
            ChangeType,
        >::empty() {
            1int
        } else {
            0int
        };
        here + retires(sched_step(s, ops.first()), ops.drop_first())
    }
}

/// A well-formed trace stays well-formed when cut off early.
pub proof fn lemma_wf_prefix(s: SchedView, ops: Seq<SchedOp>, n: int)
    requires
        wf_trace(s, ops),
        0 <= n <= ops.len(),
    ensures
        wf_trace(s, ops.take(n)),
    decreases ops.len(),
{
    if n == 0 {
        assert(ops.take(0) =~= Seq::<SchedOp>::empty());
    } else {
        let pre = ops.take(n);
        assert(pre.first() == ops.first());
        assert(pre.drop_first() =~= ops.drop_first().take(n - 1));
        lemma_wf_prefix(sched_step(s, ops.first()), ops.drop_first(), n - 1);
    }
}

/// Worker accounting: along any well-formed trace, the number of worker
/// executions spawned minus the number retired equals the change of the
/// active-worker count.
pub proof fn lemma_worker_accounting(s: SchedView, ops: Seq<SchedOp>)
    requires
        wf_trace(s, ops),
    ensures
        active(sched_run(s, ops)) == active(s) + spawns(s, ops) - retires(s, ops),
    decreases ops.len(),
{
    if ops.len() == 0 {
    } else {
        lemma_worker_accounting(sched_step(s, ops.first()), ops.drop_first());
    }
}

/// Single flight: at every point of any trace, at most one worker execution
/// is alive — the spawns never get more than one ahead of the retires. Build
/// cycles run only on the worker, so no two build cycles ever run
/// concurrently.
pub proof fn lemma_single_flight(s: SchedView, ops: Seq<SchedOp>)
    requires
        wf_trace(s, ops),
    ensures
        forall|n: int|
            0 <= n <= ops.len() ==> 0 <= active(s) + spawns(s, #[trigger] ops.take(n)) - retires(
                s,
                ops.take(n),
            ) <= 1,
{
    assert forall|n: int|
        0 <= n <= ops.len() implies 0 <= active(s) + spawns(s, #[trigger] ops.take(n)) - retires(
        s,
        ops.take(n),
    ) <= 1 by {
        lemma_wf_prefix(s, ops, n);
        lemma_worker_accounting(s, ops.take(n));
    }
}

/// A burst of enqueues with no worker re-check in between only accumulates:
/// nothing is drained, the backlog ends up holding the initial content
/// together with exactly the enqueued kinds — duplicates collapsed — and a
/// worker is active as soon as one enqueue happened.
pub proof fn lemma_enqueues_accumulate(s: SchedView, ops: Seq<SchedOp>)
    requires
        forall|i: int| 0 <= i < ops.len() ==> (#[trigger] ops[i]) matches SchedOp::Enqueue(_),
    ensures
        sched_run(s, ops).backlog =~= s.backlog.union(enqueued(ops)),
        drained(s, ops) =~= Seq::<Set<ChangeType>>::empty(),
        sched_run(s, ops).running == (s.running || ops.len() > 0),
    decreases ops.len(),
{
    if ops.len() > 0 {
        assert(ops[0] matches SchedOp::Enqueue(_));
        let rest = ops.drop_first();
        assert forall|i: int| 0 <= i < rest.len() implies (#[trigger] rest[i]) matches
            SchedOp::Enqueue(_) by {
            assert(rest[i] == ops[i + 1]);
        }
        lemma_enqueues_accumulate(sched_step(s, ops.first()), rest);
    }
}

/// Coalescing: changes enqueued before any cycle starts are all seen by that
/// one first cycle — its snapshot is exactly the set of the enqueued kinds.
pub proof fn lemma_coalescing(ops: Seq<SchedOp>)
    requires
        ops.len() > 0,
        forall|i: int| 0 <= i < ops.len() ==> (#[trigger] ops[i]) matches SchedOp::Enqueue(_),
    ensures
        drained(sched_init(), ops.push(SchedOp::Cycle)) =~~= seq![enqueued(ops)],
{
    lemma_enqueues_accumulate(sched_init(), ops);
    let full = ops.push(SchedOp::Cycle);
    assert(full.drop_last() =~= ops);
    lemma_drained_last_cycle(sched_init(), ops);
    let k = match ops[0] {
        SchedOp::Enqueue(kind) => kind,
        SchedOp::Cycle => arbitrary(),
    };
    assert(enqueued(ops).contains(k)) by {
        lemma_enqueued_contains_first(ops, k);
    }
    assert(sched_run(sched_init(), ops).backlog.contains(k)) by {
        assert(sched_init().backlog.union(enqueued(ops)).contains(k));
    }
    assert(sched_run(sched_init(), ops).backlog != Set::<ChangeType>::empty());
}

proof fn lemma_enqueued_contains_first(ops: Seq<SchedOp>, kind: ChangeType)
    requires
        ops.len() > 0,
        ops[0] == SchedOp::Enqueue(kind),
    ensures
        enqueued(ops).contains(kind),
{
}

proof fn lemma_drained_last_cycle(s: SchedView, ops: Seq<SchedOp>)
    requires
        drained(s, ops) =~= Seq::<Set<ChangeType>>::empty(),
    ensures
        sched_run(s, ops).backlog != Set::<ChangeType>::empty() ==> drained(
            s,
            ops.push(SchedOp::Cycle),
        ) =~= seq![sched_run(s, ops).backlog],
    decreases ops.len(),
{
    if ops.len() == 0 {
        assert(ops.push(SchedOp::Cycle).first() == SchedOp::Cycle);
        assert(ops.push(SchedOp::Cycle).drop_first() =~= Seq::<SchedOp>::empty());
        if s.backlog != Set::<ChangeType>::empty() {
            reveal_with_fuel(drained, 2);
            assert(seq![s.backlog] + Seq::<Set<ChangeType>>::empty() =~= seq![s.backlog]);
            assert(sched_run(s, ops) == s);
            assert(drained(s, ops.push(SchedOp::Cycle)) =~= seq![sched_run(s, ops).backlog]);
        }
    } else {
        let full = ops.push(SchedOp::Cycle);
        assert(full.first() == ops.first());
        assert(full.drop_first() =~= ops.drop_first().push(SchedOp::Cycle));
        let s2 = sched_step(s, ops.first());
        assert(drained(s2, ops.drop_first()) =~= Seq::<Set<ChangeType>>::empty()) by {
            if ops.first() is Cycle && s.backlog != Set::<ChangeType>::empty() {
                assert(drained(s, ops).len() >= 1);
            }
        }
        lemma_drained_last_cycle(s2, ops.drop_first());
        assert(sched_run(s, ops) == sched_run(s2, ops.drop_first()));
        if ops.first() is Cycle && s.backlog != Set::<ChangeType>::empty() {
            assert(drained(s, ops).len() >= 1);
        } else {
            assert(drained(s, full) == drained(s2, ops.drop_first().push(SchedOp::Cycle)));
            if sched_run(s, ops).backlog != Set::<ChangeType>::empty() {
                assert(drained(s, full) =~= seq![sched_run(s, ops).backlog]);
            }
        }
    }
}

/// Idle convergence: once the scheduler is idle, no well-formed trace without
/// an enqueue contains any step at all — in particular no build cycle can
/// begin — so the scheduler stays idle, with an empty backlog untouched,
/// until the next qualifying change is enqueued.
pub proof fn lemma_idle_until_enqueue(s: SchedView, ops: Seq<SchedOp>)
    requires
        !s.running,
        wf_trace(s, ops),
        forall|i: int| 0 <= i < ops.len() ==> (#[trigger] ops[i]) is Cycle,
    ensures
        ops.len() == 0,
        sched_run(s, ops) == s,
        drained(s, ops) =~= Seq::<Set<ChangeType>>::empty(),
{
    if ops.len() > 0 {
        assert(ops[0] is Cycle);
    }
}

} // verus!

