//! The hand-over: the process becomes root and is replaced by the command.
//!
//! A hand-over is a machine. Each step of it names one call for the caller to make, and
//! what came of the call is the event that leads to the next step. It never succeeds in
//! returning: a call that succeeds leads to the next, and the last one replaces the process.

use crate::exec::{
    candidates, clean_environment, exec_arguments, exec_environment, exec_words,
    load_secure_paths, root_plan, search_candidates, secure_path, ExecError, ExecErrorView,
    ExecPlan, ExecPlanView,
};
use crate::text::{copy_texts, texts, viewed, viewed_option};
use crate::value::ConfigValue;
use vstd::prelude::*;
use vstd::string::*;

verus! {

/// The number of root, as a user and as a group.
pub const ROOT: u32 = 0;

/// What a hand-over waits for.
#[derive(Clone, Copy, PartialEq, Eq, Structural, Debug)]
pub enum RootPhase {
    /// The groups are being set.
    Groups,
    /// The group is being set.
    Group,
    /// The user is being set.
    User,
    /// The executable is being looked for.
    Search,
    /// The command is being executed.
    Execution,
    /// Nothing: the hand-over has failed.
    Closed,
}

/// A command that is on its way to be executed as root.
#[derive(Debug)]
pub struct Handover {
    command: Vec<String>,
    paths: Vec<String>,
    environment: Vec<String>,
    executable: String,
    phase: RootPhase,
}

/// The model of a [`Handover`].
pub struct HandoverView {
    /// The command, as it was given.
    pub command: Seq<Seq<char>>,
    /// The trusted directories.
    pub paths: Seq<Seq<char>>,
    /// The environment of the command.
    pub environment: Seq<Seq<char>>,
    /// The path of the executable; empty until it is found.
    pub executable: Seq<char>,
    /// What the hand-over waits for.
    pub phase: RootPhase,
}

impl View for Handover {
    type V = HandoverView;

    closed spec fn view(&self) -> HandoverView {
        HandoverView {
            command: texts(self.command@),
            paths: texts(self.paths@),
            environment: texts(self.environment@),
            executable: self.executable@,
            phase: self.phase,
        }
    }
}

/// What came of a call.
#[derive(Debug)]
pub enum RootEvent {
    /// The call succeeded.
    Done,
    /// The call failed, for this reason.
    Failed(String),
    /// The modes of the files that were looked for, without following symbolic links;
    /// nothing for one that does not exist.
    Modes(Vec<Option<u32>>),
}

/// The model of a [`RootEvent`].
pub enum RootEventView {
    Done,
    Failed(Seq<char>),
    Modes(Seq<Option<u32>>),
}

impl View for RootEvent {
    type V = RootEventView;

    open spec fn view(&self) -> RootEventView {
        match self {
            RootEvent::Done => RootEventView::Done,
            RootEvent::Failed(reason) => RootEventView::Failed(reason@),
            RootEvent::Modes(modes) => RootEventView::Modes(modes@),
        }
    }
}

/// What the caller is to do.
#[derive(Debug)]
pub enum RootAction {
    /// Make this the only group of the process (`setgroups`).
    SetGroups(u32),
    /// Make this the group of the process (`setgid`).
    SetGid(u32),
    /// Make this the user of the process (`setuid`).
    SetUid(u32),
    /// Look for these files.
    LookFor(Vec<String>),
    /// Replace the process (`execve`).
    Execve(ExecPlan),
    /// Give up.
    Abort(ExecError),
}

/// The model of a [`RootAction`].
pub enum RootActionView {
    SetGroups(u32),
    SetGid(u32),
    SetUid(u32),
    LookFor(Seq<Seq<char>>),
    Execve(ExecPlanView),
    Abort(ExecErrorView),
}

impl View for RootAction {
    type V = RootActionView;

    open spec fn view(&self) -> RootActionView {
        match self {
            RootAction::SetGroups(group) => RootActionView::SetGroups(*group),
            RootAction::SetGid(group) => RootActionView::SetGid(*group),
            RootAction::SetUid(user) => RootActionView::SetUid(*user),
            RootAction::LookFor(files) => RootActionView::LookFor(texts(files@)),
            RootAction::Execve(plan) => RootActionView::Execve(plan@),
            RootAction::Abort(error) => RootActionView::Abort(error@),
        }
    }
}

/// A step of a hand-over: where it stands, and what to do.
#[derive(Debug)]
pub struct RootStep {
    /// The hand-over after the step.
    pub handover: Handover,
    /// What is to be done.
    pub action: RootAction,
}

/// The model of a [`RootStep`].
pub struct RootStepView {
    pub handover: HandoverView,
    pub action: RootActionView,
}

impl View for RootStep {
    type V = RootStepView;

    open spec fn view(&self) -> RootStepView {
        RootStepView { handover: self.handover@, action: self.action@ }
    }
}

// ─── Steps ──────────────────────────────────────────────────────────────────

/// A step after which a hand-over waits for something else.
pub open spec fn moved(
    handover: HandoverView,
    phase: RootPhase,
    action: RootActionView,
) -> RootStepView {
    RootStepView { handover: HandoverView { phase, ..handover }, action }
}

/// A step that ends a hand-over.
pub open spec fn given_up(handover: HandoverView, error: ExecErrorView) -> RootStepView {
    moved(handover, RootPhase::Closed, RootActionView::Abort(error))
}

/// The first step, or what stands in the way of it: the trusted directories, then the
/// environment.
pub open spec fn first_root_step(
    command: Seq<Seq<char>>,
    cfg: ConfigValue,
    term: Option<Seq<char>>,
) -> Result<RootStepView, ExecErrorView> {
    match secure_path(cfg) {
        Err(error) => Err(error),
        Ok(paths) => match clean_environment(paths, term) {
            Err(error) => Err(error),
            Ok(environment) => Ok(
                RootStepView {
                    handover: HandoverView {
                        command,
                        paths,
                        environment,
                        executable: Seq::empty(),
                        phase: RootPhase::Groups,
                    },
                    action: RootActionView::SetGroups(ROOT),
                },
            ),
        },
    }
}

/// The step that the search for the executable leads to.
pub open spec fn searched(handover: HandoverView, modes: Seq<Option<u32>>) -> RootStepView {
    match exec_words(handover.command, handover.paths, modes) {
        Err(error) => given_up(handover, error),
        Ok(arguments) => RootStepView {
            handover: HandoverView {
                executable: arguments[0],
                phase: RootPhase::Execution,
                ..handover
            },
            action: RootActionView::Execve(
                ExecPlanView { arguments, environment: handover.environment },
            ),
        },
    }
}

/// The step that an event leads to.
pub open spec fn next_root_step(handover: HandoverView, event: RootEventView) -> RootStepView {
    match (handover.phase, event) {
        (RootPhase::Groups, RootEventView::Done) => moved(
            handover,
            RootPhase::Group,
            RootActionView::SetGid(ROOT),
        ),
        (RootPhase::Groups, RootEventView::Failed(reason)) => given_up(
            handover,
            ExecErrorView::SetGroups(reason),
        ),
        (RootPhase::Group, RootEventView::Done) => moved(
            handover,
            RootPhase::User,
            RootActionView::SetUid(ROOT),
        ),
        (RootPhase::Group, RootEventView::Failed(reason)) => given_up(
            handover,
            ExecErrorView::SetGid(reason),
        ),
        (RootPhase::User, RootEventView::Done) => moved(
            handover,
            RootPhase::Search,
            RootActionView::LookFor(candidates(handover.command[0], handover.paths)),
        ),
        (RootPhase::User, RootEventView::Failed(reason)) => given_up(
            handover,
            ExecErrorView::SetUid(reason),
        ),
        (RootPhase::Search, RootEventView::Modes(modes)) => searched(handover, modes),
        (RootPhase::Execution, RootEventView::Failed(reason)) => given_up(
            handover,
            ExecErrorView::Execve(handover.executable, reason),
        ),
        _ => given_up(handover, ExecErrorView::OutOfTurn),
    }
}

impl Handover {
    /// There is a command to execute.
    #[verifier::type_invariant]
    spec fn has_command(self) -> bool {
        self.command@.len() > 0
    }

    /// A step after which the hand-over waits for something else.
    fn moving(self, phase: RootPhase, action: RootAction) -> (step: RootStep)
        ensures
            step@ == moved(self@, phase, action@),
    {
        proof {
            use_type_invariant(&self);
        }
        let Handover { command, paths, environment, executable, phase: _ } = self;
        let handover = Handover { command, paths, environment, executable, phase };
        RootStep { handover, action }
    }

    /// A step that ends the hand-over.
    fn giving_up(self, error: ExecError) -> (step: RootStep)
        ensures
            step@ == given_up(self@, error@),
    {
        self.moving(RootPhase::Closed, RootAction::Abort(error))
    }

    /// The step that the search for the executable leads to.
    fn search(self, modes: &[Option<u32>]) -> (step: RootStep)
        ensures
            step@ == searched(self@, modes@),
    {
        proof {
            use_type_invariant(&self);
        }
        match exec_arguments(self.command.as_slice(), self.paths.as_slice(), modes) {
            Err(error) => self.giving_up(error),
            Ok(arguments) => {
                assert(texts(arguments@).len() == texts(self.command@).len());
                let Handover { command, paths, environment, executable: _, phase: _ } = self;
                let executable = arguments[0].clone();
                let plan = ExecPlan { arguments, environment: copy_texts(environment.as_slice()) };
                let phase = RootPhase::Execution;
                let handover = Handover { command, paths, environment, executable, phase };
                RootStep { handover, action: RootAction::Execve(plan) }
            },
        }
    }

    /// Takes the hand-over on: `event` is what came of the last call. A call that fails ends
    /// it, and so does an event that answers another call; no event opens it again.
    pub fn resume(self, event: RootEvent) -> (step: RootStep)
        ensures
            step@ == next_root_step(self@, event@),
    {
        proof {
            use_type_invariant(&self);
        }
        match (self.phase, event) {
            (RootPhase::Groups, RootEvent::Done) => {
                self.moving(RootPhase::Group, RootAction::SetGid(ROOT))
            },
            (RootPhase::Groups, RootEvent::Failed(reason)) => {
                self.giving_up(ExecError::SetGroups(reason))
            },
            (RootPhase::Group, RootEvent::Done) => {
                self.moving(RootPhase::User, RootAction::SetUid(ROOT))
            },
            (RootPhase::Group, RootEvent::Failed(reason)) => {
                self.giving_up(ExecError::SetGid(reason))
            },
            (RootPhase::User, RootEvent::Done) => {
                assert(texts(self.command@)[0] == self.command@[0]@);
                let files = search_candidates(self.command[0].as_str(), self.paths.as_slice());
                self.moving(RootPhase::Search, RootAction::LookFor(files))
            },
            (RootPhase::User, RootEvent::Failed(reason)) => {
                self.giving_up(ExecError::SetUid(reason))
            },
            (RootPhase::Search, RootEvent::Modes(modes)) => self.search(modes.as_slice()),
            (RootPhase::Execution, RootEvent::Failed(reason)) => {
                let executable = self.executable.clone();
                self.giving_up(ExecError::Execve(executable, reason))
            },
            _ => self.giving_up(ExecError::OutOfTurn),
        }
    }
}

/// Begins to hand over to `command`, with root's rights. `term` is the caller's `TERM`.
/// Nothing is called where the trusted directories or the environment stand in the way.
pub fn run_as_root(command: &[String], cfg: &ConfigValue, term: Option<&str>) -> (result: Result<
    RootStep,
    ExecError,
>)
    requires
        command@.len() > 0,
    ensures
        viewed(result) == first_root_step(texts(command@), *cfg, viewed_option(term)),
{
    let paths = match load_secure_paths(cfg) {
        Ok(paths) => paths,
        Err(error) => return Err(error),
    };
    let environment = match exec_environment(paths.as_slice(), term) {
        Ok(environment) => environment,
        Err(error) => return Err(error),
    };
    let words = copy_texts(command);
    assert(texts(words@).len() == texts(command@).len());
    let handover = Handover {
        command: words,
        paths,
        environment,
        executable: String::new(),
        phase: RootPhase::Groups,
    };
    Ok(RootStep { handover, action: RootAction::SetGroups(ROOT) })
}

// ─── Histories ──────────────────────────────────────────────────────────────

/// The step that a history of events leads to.
pub open spec fn root_reached(start: RootStepView, events: Seq<RootEventView>) -> RootStepView
    decreases events.len(),
{
    if events.len() == 0 {
        start
    } else {
        next_root_step(root_reached(start, events.drop_last()).handover, events.last())
    }
}

/// Whether an action is a call that changes or replaces the process.
pub open spec fn is_call(action: RootActionView) -> bool {
    !(action is LookFor) && !(action is Abort)
}

/// The calls that are made in a history of events, in order.
pub open spec fn calls(start: RootStepView, events: Seq<RootEventView>) -> Seq<RootActionView>
    decreases events.len(),
{
    let before = if events.len() == 0 {
        Seq::empty()
    } else {
        calls(start, events.drop_last())
    };
    let action = root_reached(start, events).action;
    if is_call(action) {
        before.push(action)
    } else {
        before
    }
}

/// The events of a hand-over of which the first `n` calls have succeeded.
pub open spec fn successes(n: nat) -> Seq<RootEventView> {
    Seq::new(n, |i: int| RootEventView::Done)
}

/// The calls that make the process root's.
pub open spec fn root_changes() -> Seq<RootActionView> {
    seq![
        RootActionView::SetGroups(ROOT),
        RootActionView::SetGid(ROOT),
        RootActionView::SetUid(ROOT),
    ]
}

/// The calls of a hand-over that executes `plan`.
pub open spec fn root_calls(plan: ExecPlanView) -> Seq<RootActionView> {
    root_changes().push(RootActionView::Execve(plan))
}

/// What a step says of the history that led to it.
spec fn in_turn(
    command: Seq<Seq<char>>,
    cfg: ConfigValue,
    term: Option<Seq<char>>,
    start: RootStepView,
    events: Seq<RootEventView>,
) -> bool {
    let step = root_reached(start, events);
    let now = step.handover;
    &&& now.command == command
    &&& now.paths == start.handover.paths
    &&& now.environment == start.handover.environment
    &&& match step.action {
        RootActionView::SetGroups(group) => {
            now.phase == RootPhase::Groups && group == ROOT && events == successes(0)
        },
        RootActionView::SetGid(group) => {
            now.phase == RootPhase::Group && group == ROOT && events == successes(1)
        },
        RootActionView::SetUid(user) => {
            now.phase == RootPhase::User && user == ROOT && events == successes(2)
        },
        RootActionView::LookFor(files) => {
            &&& now.phase == RootPhase::Search
            &&& files == candidates(command[0], now.paths)
            &&& events == successes(3)
        },
        RootActionView::Execve(plan) => {
            &&& now.phase == RootPhase::Execution
            &&& events.len() == 4
            &&& events.drop_last() == successes(3)
            &&& events.last() matches RootEventView::Modes(modes)
            &&& root_plan(command, cfg, term, modes) == Ok::<ExecPlanView, ExecErrorView>(plan)
        },
        RootActionView::Abort(_) => now.phase == RootPhase::Closed,
    }
}

/// Every history leads to a step that is in turn.
proof fn lemma_in_turn(
    command: Seq<Seq<char>>,
    cfg: ConfigValue,
    term: Option<Seq<char>>,
    events: Seq<RootEventView>,
)
    requires
        first_root_step(command, cfg, term) is Ok,
    ensures
        in_turn(command, cfg, term, first_root_step(command, cfg, term)->Ok_0, events),
    decreases events.len(),
{
    if events.len() == 0 {
        assert(events == successes(0));
    } else {
        let before = events.drop_last();
        lemma_in_turn(command, cfg, term, before);
        assert(events == before.push(events.last()));
        assert(successes(0).push(RootEventView::Done) == successes(1));
        assert(successes(1).push(RootEventView::Done) == successes(2));
        assert(successes(2).push(RootEventView::Done) == successes(3));
    }
}

/// Where a hand-over stands while every call succeeds.
proof fn lemma_successes(start: RootStepView, n: nat)
    requires
        start.handover.phase == RootPhase::Groups,
        start.action == RootActionView::SetGroups(ROOT),
        n <= 3,
    ensures
        ({
            let step = root_reached(start, successes(n));
            &&& n == 0 ==> step == start
            &&& n == 1 ==> step == moved(
                start.handover,
                RootPhase::Group,
                RootActionView::SetGid(ROOT),
            )
            &&& n == 2 ==> step == moved(
                start.handover,
                RootPhase::User,
                RootActionView::SetUid(ROOT),
            )
            &&& n == 3 ==> step == moved(
                start.handover,
                RootPhase::Search,
                RootActionView::LookFor(
                    candidates(start.handover.command[0], start.handover.paths),
                ),
            )
        }),
    decreases n,
{
    if n > 0 {
        lemma_successes(start, (n - 1) as nat);
        assert(successes(n).drop_last() == successes((n - 1) as nat));
        assert(successes(n).last() == RootEventView::Done);
    }
}

/// The calls that are made while every call succeeds.
proof fn lemma_calls_made(
    command: Seq<Seq<char>>,
    cfg: ConfigValue,
    term: Option<Seq<char>>,
    n: nat,
)
    requires
        first_root_step(command, cfg, term) is Ok,
        n <= 3,
    ensures
        calls(first_root_step(command, cfg, term)->Ok_0, successes(n)) == root_changes().take(
            if n < 3 {
                n as int + 1
            } else {
                3
            },
        ),
    decreases n,
{
    let start = first_root_step(command, cfg, term)->Ok_0;
    lemma_successes(start, n);
    if n > 0 {
        lemma_calls_made(command, cfg, term, (n - 1) as nat);
        assert(successes(n).drop_last() == successes((n - 1) as nat));
    }
}

// ─── Laws ───────────────────────────────────────────────────────────────────

/// Each call is made only if all before it succeeded, and always for root: `setgid` after
/// `setgroups`, `setuid` after both, and `execve` after all three, with the plan that the
/// search then gives.
pub proof fn law_calls_follow_successes(
    command: Seq<Seq<char>>,
    cfg: ConfigValue,
    term: Option<Seq<char>>,
    events: Seq<RootEventView>,
)
    requires
        first_root_step(command, cfg, term) is Ok,
    ensures
        match root_reached(first_root_step(command, cfg, term)->Ok_0, events).action {
            RootActionView::SetGroups(group) => group == ROOT && events == successes(0),
            RootActionView::SetGid(group) => group == ROOT && events == successes(1),
            RootActionView::SetUid(user) => user == ROOT && events == successes(2),
            RootActionView::LookFor(files) => {
                files == candidates(command[0], secure_path(cfg)->Ok_0) && events == successes(3)
            },
            RootActionView::Execve(plan) => {
                &&& events.len() == 4
                &&& events.drop_last() == successes(3)
                &&& events.last() matches RootEventView::Modes(modes)
                &&& root_plan(command, cfg, term, modes) == Ok::<ExecPlanView, ExecErrorView>(plan)
            },
            RootActionView::Abort(_) => true,
        },
{
    lemma_in_turn(command, cfg, term, events);
}

/// The calls of a hand-over, whatever came of them, are a beginning of `setgroups`,
/// `setgid`, `setuid` and `execve`, in this order.
pub proof fn law_calls_are_in_order(
    command: Seq<Seq<char>>,
    cfg: ConfigValue,
    term: Option<Seq<char>>,
    events: Seq<RootEventView>,
)
    requires
        first_root_step(command, cfg, term) is Ok,
    ensures
        exists|plan: ExecPlanView|
            calls(first_root_step(command, cfg, term)->Ok_0, events).is_prefix_of(
                #[trigger] root_calls(plan),
            ),
    decreases events.len(),
{
    let start = first_root_step(command, cfg, term)->Ok_0;
    let made = calls(start, events);
    let action = root_reached(start, events).action;
    let plan = if action is Execve {
        action->Execve_0
    } else if events.len() > 0 {
        law_calls_are_in_order(command, cfg, term, events.drop_last());
        choose|plan: ExecPlanView|
            calls(start, events.drop_last()).is_prefix_of(#[trigger] root_calls(plan))
    } else {
        arbitrary()
    };
    lemma_in_turn(command, cfg, term, events);
    if action is SetGroups {
        lemma_calls_made(command, cfg, term, 0);
    } else if action is SetGid {
        lemma_calls_made(command, cfg, term, 1);
    } else if action is SetUid {
        lemma_calls_made(command, cfg, term, 2);
    } else if action is Execve {
        lemma_calls_made(command, cfg, term, 3);
    }
    assert(made.is_prefix_of(root_calls(plan))) by {
        if is_call(action) {
            assert(made =~= root_calls(plan).take(made.len() as int));
        }
    }
}

/// Where every call succeeds, the search decides: what is executed is the plan that it
/// gives, and where it gives none, nothing is.
pub proof fn law_plan_is_what_runs(
    command: Seq<Seq<char>>,
    cfg: ConfigValue,
    term: Option<Seq<char>>,
    modes: Seq<Option<u32>>,
)
    requires
        first_root_step(command, cfg, term) is Ok,
    ensures
        root_reached(
            first_root_step(command, cfg, term)->Ok_0,
            successes(3).push(RootEventView::Modes(modes)),
        ).action == (match root_plan(command, cfg, term, modes) {
            Ok(plan) => RootActionView::Execve(plan),
            Err(error) => RootActionView::Abort(error),
        }),
{
    let start = first_root_step(command, cfg, term)->Ok_0;
    let events = successes(3).push(RootEventView::Modes(modes));
    assert(events.drop_last() == successes(3));
    lemma_successes(start, 3);
}

/// Where the trusted directories or the environment are refused, no call is made at all.
pub proof fn law_nothing_is_called_without_a_secure_path(
    command: Seq<Seq<char>>,
    cfg: ConfigValue,
    term: Option<Seq<char>>,
)
    ensures
        secure_path(cfg) matches Err(error) ==> first_root_step(command, cfg, term) == Err::<
            RootStepView,
            ExecErrorView,
        >(error),
        secure_path(cfg) matches Ok(paths) ==> (clean_environment(paths, term) matches Err(error)
            ==> first_root_step(command, cfg, term) == Err::<RootStepView, ExecErrorView>(error)),
{
}

/// A hand-over that ends has failed, and one that has ended makes no further call: it
/// comes back with an error or not at all.
pub proof fn law_handover_returns_only_errors(
    command: Seq<Seq<char>>,
    cfg: ConfigValue,
    term: Option<Seq<char>>,
    events: Seq<RootEventView>,
    event: RootEventView,
)
    requires
        first_root_step(command, cfg, term) is Ok,
    ensures
        root_reached(first_root_step(command, cfg, term)->Ok_0, events).handover.phase
            == RootPhase::Closed <==> root_reached(
            first_root_step(command, cfg, term)->Ok_0,
            events,
        ).action is Abort,
        root_reached(first_root_step(command, cfg, term)->Ok_0, events).action is Abort
            ==> root_reached(
            first_root_step(command, cfg, term)->Ok_0,
            events.push(event),
        ).action is Abort,
{
    lemma_in_turn(command, cfg, term, events);
    assert(events.push(event).drop_last() == events);
}

/// A call that fails ends the hand-over, with an error that names the call.
pub proof fn law_failed_call_ends_the_handover(handover: HandoverView, reason: Seq<char>)
    ensures
        next_root_step(handover, RootEventView::Failed(reason)).action is Abort,
        handover.phase == RootPhase::Groups ==> next_root_step(
            handover,
            RootEventView::Failed(reason),
        ).action == RootActionView::Abort(ExecErrorView::SetGroups(reason)),
        handover.phase == RootPhase::Group ==> next_root_step(
            handover,
            RootEventView::Failed(reason),
        ).action == RootActionView::Abort(ExecErrorView::SetGid(reason)),
        handover.phase == RootPhase::User ==> next_root_step(
            handover,
            RootEventView::Failed(reason),
        ).action == RootActionView::Abort(ExecErrorView::SetUid(reason)),
        handover.phase == RootPhase::Execution ==> next_root_step(
            handover,
            RootEventView::Failed(reason),
        ).action == RootActionView::Abort(ExecErrorView::Execve(handover.executable, reason)),
{
}

/// What a failed execution is reported with is the path that was to be executed: that of the
/// search.
pub proof fn law_the_executable_is_remembered(handover: HandoverView, modes: Seq<Option<u32>>)
    requires
        handover.phase == RootPhase::Search,
    ensures
        next_root_step(handover, RootEventView::Modes(modes)).action matches RootActionView::Execve(
            plan,
        ) ==> {
            &&& next_root_step(handover, RootEventView::Modes(modes)).handover.executable
                == plan.arguments[0]
            &&& plan.environment == handover.environment
            &&& exec_words(handover.command, handover.paths, modes) == Ok::<
                Seq<Seq<char>>,
                ExecErrorView,
            >(plan.arguments)
        },
{
}

} // verus!
