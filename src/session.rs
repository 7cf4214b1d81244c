use vstd::prelude::*;
use crate::count::{count, lemma_count_concat, lemma_count_push};
use crate::error::Error;
use crate::native::GraphvizPluginLibrary;
use crate::report::{diagnostic_of, exit_code};
use crate::source::{c_string_check, c_string_len};

verus! {

/// The native objects a render acquires, in the order it acquires them.
#[derive(Debug, Clone, Copy, PartialEq, Eq, Structural)]
pub enum Resource {
    Context,
    Graph,
    Layout,
}

/// One acquisition or release of a native object.
#[derive(Debug, Clone, Copy, PartialEq, Eq, Structural)]
pub enum Op {
    Acquire(Resource),
    Release(Resource),
}

/// The native call a session asks its driver to make next.
#[derive(Debug, Clone, Copy, PartialEq, Eq)]
pub enum Action {
    /// Route the engine's error reports to the diagnostic bridge.
    InstallErrorSink,
    /// Create the engine context.
    CreateContext,
    /// Register a plugin library with the context.
    AddLibrary(GraphvizPluginLibrary),
    /// Parse the source text into a graph.
    ParseGraph,
    /// Lay the graph out with the layout engine.
    ComputeLayout,
    /// Encode the laid-out graph in the output format.
    RenderData,
    /// Undo the layout.
    FreeLayout,
    /// Close the graph.
    CloseGraph,
    /// Free the context.
    FreeContext,
    /// The render is over, with this outcome; nothing is held any more.
    Finish(Result<i32, Error>),
}

/// What the driver reports back after making the call asked for.
#[derive(Debug, Clone, Copy, PartialEq, Eq)]
pub enum Event {
    /// The call has no result to report.
    Done,
    /// The parse call returned a graph (`true`) or a null pointer (`false`).
    Parsed(bool),
    /// The status code the layout call returned.
    Status(i32),
    /// The status code and output length the render call returned.
    Rendered(i32, i32),
}

/// The call a session waits on the result of.
#[derive(Debug, Clone, Copy, PartialEq, Eq, Structural)]
pub enum Pending {
    ErrorSink,
    Context,
    CoreLibrary,
    LayoutLibrary,
    Parse,
    Layout,
    Render,
    Release,
    Finished,
}

/// The abstract state of a session.
pub struct SessionView {
    pub pending: Pending,
    /// How many objects are held: always the first ones acquired.
    pub held: nat,
    /// How many objects were acquired in all.
    pub acquired: nat,
    /// The outcome, once it is decided.
    pub outcome: Option<Result<i32, Error>>,
    /// Every acquisition and release so far, in order.
    pub log: Seq<Op>,
}

/// The decisions of one render: which native call comes next, and which
/// objects are released, in reverse order of acquisition, on every path.
pub struct Session {
    pending: Pending,
    held: usize,
    outcome: Option<Result<i32, Error>>,
    acquired: Ghost<nat>,
    log: Ghost<Seq<Op>>,
}

/// The object acquired `i`-th.
pub open spec fn resource_at(i: nat) -> Resource {
    if i == 0 {
        Resource::Context
    } else if i == 1 {
        Resource::Graph
    } else {
        Resource::Layout
    }
}

pub open spec fn release_action(r: Resource) -> Action {
    match r {
        Resource::Context => Action::FreeContext,
        Resource::Graph => Action::CloseGraph,
        Resource::Layout => Action::FreeLayout,
    }
}

/// How many objects a render with this outcome acquired.
pub open spec fn acquired_for(outcome: Result<i32, Error>) -> nat {
    match outcome {
        Ok(_) => 3,
        Err(Error::Render) => 3,
        Err(Error::Layout) => 2,
        Err(Error::Graph) => 1,
        Err(Error::FromBytesWithNul(_)) => 0,
    }
}

/// Every object was released as many times as it was acquired.
pub open spec fn balanced(log: Seq<Op>) -> bool {
    forall|r: Resource| #[trigger] count(log, Op::Acquire(r)) == count(log, Op::Release(r))
}

/// A session that starts on the source buffer `src`.
pub open spec fn start(src: Seq<u8>) -> (SessionView, Action) {
    match c_string_check(src) {
        Ok(_) => (
            SessionView {
                pending: Pending::ErrorSink,
                held: 0,
                acquired: 0,
                outcome: None,
                log: Seq::empty(),
            },
            Action::InstallErrorSink,
        ),
        Err(e) => (
            SessionView {
                pending: Pending::Finished,
                held: 0,
                acquired: 0,
                outcome: Some(Err(Error::FromBytesWithNul(e))),
                log: Seq::empty(),
            },
            Action::Finish(Err(Error::FromBytesWithNul(e))),
        ),
    }
}

/// Acquiring the next object.
pub open spec fn acquire(v: SessionView, next: Pending) -> SessionView {
    SessionView {
        pending: next,
        held: v.held + 1,
        acquired: v.acquired + 1,
        log: v.log.push(Op::Acquire(resource_at(v.held))),
        ..v
    }
}

/// Releasing the last object held, or finishing once nothing is held.
pub open spec fn unwind(v: SessionView) -> (SessionView, Action) {
    if v.held == 0 {
        (SessionView { pending: Pending::Finished, ..v }, Action::Finish(v.outcome.unwrap()))
    } else {
        let r = resource_at((v.held - 1) as nat);
        (
            SessionView {
                pending: Pending::Release,
                held: (v.held - 1) as nat,
                log: v.log.push(Op::Release(r)),
                ..v
            },
            release_action(r),
        )
    }
}

/// Failing with `e`: what is held is released, then the render finishes.
pub open spec fn fail(v: SessionView, e: Error) -> (SessionView, Action) {
    unwind(SessionView { outcome: Some(Err(e)), ..v })
}

/// The next state and call, given the result of the call waited on.
/// An event other than the success the call can report counts as failure.
pub open spec fn transition(v: SessionView, e: Event) -> (SessionView, Action) {
    match v.pending {
        Pending::ErrorSink => (SessionView { pending: Pending::Context, ..v }, Action::CreateContext),
        Pending::Context => (
            acquire(v, Pending::CoreLibrary),
            Action::AddLibrary(GraphvizPluginLibrary::Core),
        ),
        Pending::CoreLibrary => (
            SessionView { pending: Pending::LayoutLibrary, ..v },
            Action::AddLibrary(GraphvizPluginLibrary::DotLayout),
        ),
        Pending::LayoutLibrary => (SessionView { pending: Pending::Parse, ..v }, Action::ParseGraph),
        Pending::Parse => if e == Event::Parsed(true) {
            (acquire(v, Pending::Layout), Action::ComputeLayout)
        } else {
            fail(v, Error::Graph)
        },
        Pending::Layout => if e == Event::Status(0) {
            (acquire(v, Pending::Render), Action::RenderData)
        } else {
            fail(v, Error::Layout)
        },
        Pending::Render => match e {
            Event::Rendered(status, length) => if status == 0 {
                unwind(SessionView { outcome: Some(Ok(length)), ..v })
            } else {
                fail(v, Error::Render)
            },
            _ => fail(v, Error::Render),
        },
        Pending::Release => unwind(v),
        Pending::Finished => (v, Action::Finish(v.outcome.unwrap())),
    }
}

/// The counts of the log for the object acquired `i`-th.
pub open spec fn slot_counts(v: SessionView, i: nat) -> bool {
    &&& count(v.log, Op::Acquire(resource_at(i))) == if i < v.acquired { 1nat } else { 0nat }
    &&& count(v.log, Op::Release(resource_at(i))) == if v.held <= i < v.acquired { 1nat } else { 0nat }
}

impl SessionView {
    /// The invariant of a session.
    pub open spec fn wf(self) -> bool {
        &&& self.held <= self.acquired <= 3
        &&& slot_counts(self, 0) && slot_counts(self, 1) && slot_counts(self, 2)
        &&& match self.pending {
            Pending::ErrorSink | Pending::Context => self.acquired == 0 && self.outcome is None,
            Pending::CoreLibrary | Pending::LayoutLibrary | Pending::Parse => self.acquired == 1
                && self.held == 1 && self.outcome is None,
            Pending::Layout => self.acquired == 2 && self.held == 2 && self.outcome is None,
            Pending::Render => self.acquired == 3 && self.held == 3 && self.outcome is None,
            Pending::Release => self.outcome is Some && self.acquired == acquired_for(
                self.outcome.unwrap(),
            ),
            Pending::Finished => self.outcome is Some && self.held == 0 && self.acquired
                == acquired_for(self.outcome.unwrap()),
        }
    }
}

impl View for Session {
    type V = SessionView;

    closed spec fn view(&self) -> SessionView {
        SessionView {
            pending: self.pending,
            held: self.held as nat,
            acquired: self.acquired@,
            outcome: self.outcome,
            log: self.log@,
        }
    }
}

proof fn lemma_push_slot(v: SessionView, w: SessionView, op: Op, i: nat)
    requires
        w.log == v.log.push(op),
    ensures
        count(w.log, Op::Acquire(resource_at(i))) == count(v.log, Op::Acquire(resource_at(i)))
            + if op == Op::Acquire(resource_at(i)) { 1nat } else { 0nat },
        count(w.log, Op::Release(resource_at(i))) == count(v.log, Op::Release(resource_at(i)))
            + if op == Op::Release(resource_at(i)) { 1nat } else { 0nat },
{
    lemma_count_push(v.log, op, Op::Acquire(resource_at(i)));
    lemma_count_push(v.log, op, Op::Release(resource_at(i)));
}

proof fn lemma_acquire_wf(v: SessionView, next: Pending)
    requires
        v.wf(),
        v.held == v.acquired < 3,
    ensures
        slot_counts(acquire(v, next), 0),
        slot_counts(acquire(v, next), 1),
        slot_counts(acquire(v, next), 2),
{
    let w = acquire(v, next);
    lemma_push_slot(v, w, Op::Acquire(resource_at(v.held)), 0);
    lemma_push_slot(v, w, Op::Acquire(resource_at(v.held)), 1);
    lemma_push_slot(v, w, Op::Acquire(resource_at(v.held)), 2);
}

proof fn lemma_unwind_wf(v: SessionView)
    requires
        v.held <= v.acquired <= 3,
        slot_counts(v, 0) && slot_counts(v, 1) && slot_counts(v, 2),
        v.outcome is Some,
        v.acquired == acquired_for(v.outcome.unwrap()),
    ensures
        unwind(v).0.wf(),
{
    let w = unwind(v).0;
    if v.held > 0 {
        let op = Op::Release(resource_at((v.held - 1) as nat));
        lemma_push_slot(v, w, op, 0);
        lemma_push_slot(v, w, op, 1);
        lemma_push_slot(v, w, op, 2);
    }
}

proof fn lemma_transition_wf(v: SessionView, e: Event)
    requires
        v.wf(),
    ensures
        transition(v, e).0.wf(),
{
    match v.pending {
        Pending::Context => lemma_acquire_wf(v, Pending::CoreLibrary),
        Pending::Parse => {
            if e == Event::Parsed(true) {
                lemma_acquire_wf(v, Pending::Layout);
            } else {
                lemma_unwind_wf(SessionView { outcome: Some(Err(Error::Graph)), ..v });
            }
        },
        Pending::Layout => {
            if e == Event::Status(0) {
                lemma_acquire_wf(v, Pending::Render);
            } else {
                lemma_unwind_wf(SessionView { outcome: Some(Err(Error::Layout)), ..v });
            }
        },
        Pending::Render => {
            match e {
                Event::Rendered(status, length) => {
                    if status == 0 {
                        lemma_unwind_wf(SessionView { outcome: Some(Ok(length)), ..v });
                    } else {
                        lemma_unwind_wf(SessionView { outcome: Some(Err(Error::Render)), ..v });
                    }
                },
                _ => lemma_unwind_wf(SessionView { outcome: Some(Err(Error::Render)), ..v }),
            }
        },
        Pending::Release => lemma_unwind_wf(v),
        _ => {},
    }
}

impl Session {
    pub closed spec fn wf(&self) -> bool {
        self@.wf() && self.held <= 3
    }

    /// Starts a render of the source buffer, which must be a nul-terminated
    /// C string; gives the first call to make.
    pub fn begin(src: &[u8]) -> (r: (Session, Action))
        ensures
            r.0.wf(),
            (r.0@, r.1) == start(src@),
    {
        match c_string_len(src) {
            Ok(_) => (
                Session {
                    pending: Pending::ErrorSink,
                    held: 0,
                    outcome: None,
                    acquired: Ghost(0),
                    log: Ghost(Seq::empty()),
                },
                Action::InstallErrorSink,
            ),
            Err(e) => {
                let outcome: Result<i32, Error> = Err(Error::FromBytesWithNul(e));
                (
                    Session {
                        pending: Pending::Finished,
                        held: 0,
                        outcome: Some(outcome),
                        acquired: Ghost(0),
                        log: Ghost(Seq::empty()),
                    },
                    Action::Finish(outcome),
                )
            },
        }
    }

    /// Whether the render is over.
    pub fn is_finished(&self) -> (r: bool)
        ensures
            r == (self@.pending == Pending::Finished),
    {
        match self.pending {
            Pending::Finished => true,
            _ => false,
        }
    }

    fn acquire_next(&mut self, next: Pending)
        requires
            old(self).wf(),
            old(self)@.held == old(self)@.acquired < 3,
        ensures
            final(self).held <= 3,
            final(self)@ == acquire(old(self)@, next),
    {
        proof {
            self.log@ = self.log@.push(Op::Acquire(resource_at(self.held as nat)));
            self.acquired@ = self.acquired@ + 1;
        }
        self.held = self.held + 1;
        self.pending = next;
    }

    fn unwind_next(&mut self) -> (a: Action)
        requires
            old(self).held <= 3,
            old(self)@.outcome is Some,
        ensures
            final(self).held <= 3,
            (final(self)@, a) == unwind(old(self)@),
    {
        if self.held == 0 {
            self.pending = Pending::Finished;
            Action::Finish(self.outcome.unwrap())
        } else {
            self.held = self.held - 1;
            self.pending = Pending::Release;
            let (r, a) = if self.held == 0 {
                (Ghost(Resource::Context), Action::FreeContext)
            } else if self.held == 1 {
                (Ghost(Resource::Graph), Action::CloseGraph)
            } else {
                (Ghost(Resource::Layout), Action::FreeLayout)
            };
            proof {
                self.log@ = self.log@.push(Op::Release(r@));
            }
            a
        }
    }

    fn fail_with(&mut self, e: Error) -> (a: Action)
        requires
            old(self).held <= 3,
        ensures
            final(self).held <= 3,
            (final(self)@, a) == fail(old(self)@, e),
    {
        self.outcome = Some(Err(e));
        self.unwind_next()
    }

    /// Takes the result of the call last asked for and gives the next call.
    pub fn step(&mut self, event: Event) -> (a: Action)
        requires
            old(self).wf(),
        ensures
            final(self).wf(),
            (final(self)@, a) == transition(old(self)@, event),
    {
        proof {
            lemma_transition_wf(self@, event);
        }
        match self.pending {
            Pending::ErrorSink => {
                self.pending = Pending::Context;
                Action::CreateContext
            },
            Pending::Context => {
                self.acquire_next(Pending::CoreLibrary);
                Action::AddLibrary(GraphvizPluginLibrary::Core)
            },
            Pending::CoreLibrary => {
                self.pending = Pending::LayoutLibrary;
                Action::AddLibrary(GraphvizPluginLibrary::DotLayout)
            },
            Pending::LayoutLibrary => {
                self.pending = Pending::Parse;
                Action::ParseGraph
            },
            Pending::Parse => match event {
                Event::Parsed(true) => {
                    self.acquire_next(Pending::Layout);
                    Action::ComputeLayout
                },
                _ => self.fail_with(Error::Graph),
            },
            Pending::Layout => match event {
                Event::Status(0) => {
                    self.acquire_next(Pending::Render);
                    Action::RenderData
                },
                _ => self.fail_with(Error::Layout),
            },
            Pending::Render => match event {
                Event::Rendered(0, length) => {
                    self.outcome = Some(Ok(length));
                    self.unwind_next()
                },
                _ => self.fail_with(Error::Render),
            },
            Pending::Release => self.unwind_next(),
            Pending::Finished => Action::Finish(self.outcome.unwrap()),
        }
    }
}

} // verus!

verus! {

/// The state after feeding `events`, one by one, to a session in state `v`.
pub open spec fn run(v: SessionView, events: Seq<Event>) -> SessionView
    decreases events.len(),
{
    if events.len() == 0 {
        v
    } else {
        run(transition(v, events[0]).0, events.drop_first())
    }
}

/// Every step keeps the invariant, and once an outcome is decided no later
/// event changes it.
pub proof fn lemma_run_keeps_outcome(v: SessionView, events: Seq<Event>)
    requires
        v.wf(),
    ensures
        run(v, events).wf(),
        v.outcome is Some ==> run(v, events).outcome == v.outcome,
    decreases events.len(),
{
    if events.len() > 0 {
        lemma_transition_wf(v, events[0]);
        lemma_run_keeps_outcome(transition(v, events[0]).0, events.drop_first());
    }
}

/// The call that ends a render carries the outcome the session decided.
pub proof fn lemma_finish_carries_outcome(v: SessionView, e: Event)
    requires
        v.wf(),
    ensures
        transition(v, e).1 is Finish ==> transition(v, e).1 == Action::Finish(
            transition(v, e).0.outcome.unwrap(),
        ),
{
}

/// A finished render has released each native object exactly as often as
/// it acquired it.
pub proof fn lemma_finished_balanced(v: SessionView)
    requires
        v.wf(),
        v.pending == Pending::Finished,
    ensures
        balanced(v.log),
{
    assert forall|r: Resource| #[trigger]
        count(v.log, Op::Acquire(r)) == count(v.log, Op::Release(r)) by {
        assert(r == resource_at(0) || r == resource_at(1) || r == resource_at(2));
    }
}

/// Over any sequence of finished renders, taken together, every acquisition
/// of a native object is matched by one release.
pub proof fn lemma_renders_balanced(runs: Seq<SessionView>)
    requires
        forall|j: int| 0 <= j < runs.len() ==> (#[trigger] runs[j]).wf() && runs[j].pending
            == Pending::Finished,
    ensures
        balanced(runs.map_values(|v: SessionView| v.log).flatten()),
    decreases runs.len(),
{
    let logs = runs.map_values(|v: SessionView| v.log);
    if runs.len() > 0 {
        let rest = runs.drop_first();
        assert(logs.drop_first() =~= rest.map_values(|v: SessionView| v.log));
        assert forall|j: int| 0 <= j < rest.len() implies (#[trigger] rest[j]).wf() && rest[j].pending
            == Pending::Finished by {
            assert(rest[j] == runs[j + 1]);
        }
        lemma_renders_balanced(rest);
        assert(runs[0].wf());
        lemma_finished_balanced(runs[0]);
        assert forall|r: Resource| #[trigger]
            count(logs.flatten(), Op::Acquire(r)) == count(logs.flatten(), Op::Release(r)) by {
            lemma_count_concat(logs.first(), logs.drop_first().flatten(), Op::Acquire(r));
            lemma_count_concat(logs.first(), logs.drop_first().flatten(), Op::Release(r));
            assert(count(rest.map_values(|v: SessionView| v.log).flatten(), Op::Acquire(r))
                == count(rest.map_values(|v: SessionView| v.log).flatten(), Op::Release(r)));
        }
    } else {
        assert(logs.flatten() =~= Seq::<Op>::empty());
    }
}

/// When the layout fails after a successful parse, the render, once
/// finished, has closed its graph exactly once and never freed a layout.
pub proof fn lemma_layout_failure_releases(v: SessionView, e: Event, rest: Seq<Event>)
    requires
        v.wf(),
        v.pending == Pending::Layout,
        e != Event::Status(0),
    ensures
        run(transition(v, e).0, rest).outcome == Some(Err::<i32, Error>(Error::Layout)),
        run(transition(v, e).0, rest).pending == Pending::Finished ==> {
            let w = run(transition(v, e).0, rest);
            &&& count(w.log, Op::Acquire(Resource::Graph)) == 1
            &&& count(w.log, Op::Release(Resource::Graph)) == 1
            &&& count(w.log, Op::Acquire(Resource::Layout)) == 0
            &&& count(w.log, Op::Release(Resource::Layout)) == 0
        },
{
    lemma_transition_wf(v, e);
    lemma_run_keeps_outcome(transition(v, e).0, rest);
    let w = run(transition(v, e).0, rest);
    assert(slot_counts(w, 1) && slot_counts(w, 2));
}

/// When the parse fails, the render ends in the parse error whatever the
/// engine reports afterwards, having released what it acquired; the
/// boundary then returns -1 and sends a diagnostic.
pub proof fn lemma_parse_failure_fails(v: SessionView, e: Event, rest: Seq<Event>)
    requires
        v.wf(),
        v.pending == Pending::Parse,
        e != Event::Parsed(true),
    ensures
        run(transition(v, e).0, rest).outcome == Some(Err::<i32, Error>(Error::Graph)),
        run(transition(v, e).0, rest).pending == Pending::Finished ==> balanced(
            run(transition(v, e).0, rest).log,
        ),
        exit_code(run(transition(v, e).0, rest).outcome.unwrap()) == -1,
        diagnostic_of(run(transition(v, e).0, rest).outcome.unwrap()) is Some,
{
    lemma_transition_wf(v, e);
    lemma_run_keeps_outcome(transition(v, e).0, rest);
    let w = run(transition(v, e).0, rest);
    if w.pending == Pending::Finished {
        lemma_finished_balanced(w);
    }
}

} // verus!

verus! {

/// The results a render gets from an engine that accepts its source and
/// renders it to `length` bytes.
pub open spec fn engine_success(length: i32) -> Seq<Event> {
    seq![
        Event::Done,
        Event::Done,
        Event::Done,
        Event::Done,
        Event::Parsed(true),
        Event::Status(0),
        Event::Rendered(0, length),
        Event::Done,
        Event::Done,
        Event::Done,
    ]
}

/// Where a session stands after the first `k` results of a successful render.
spec fn success_stage(v: SessionView, k: int, length: i32) -> bool {
    &&& k == 0 ==> v.pending == Pending::ErrorSink
    &&& k == 1 ==> v.pending == Pending::Context
    &&& k == 2 ==> v.pending == Pending::CoreLibrary
    &&& k == 3 ==> v.pending == Pending::LayoutLibrary
    &&& k == 4 ==> v.pending == Pending::Parse
    &&& k == 5 ==> v.pending == Pending::Layout
    &&& k == 6 ==> v.pending == Pending::Render
    &&& 7 <= k ==> v.outcome == Some(Ok::<i32, Error>(length))
    &&& 7 <= k < 10 ==> v.held == 9 - k
    &&& 7 <= k < 10 ==> v.pending == Pending::Release
    &&& k == 10 ==> v.pending == Pending::Finished
}

proof fn lemma_success_suffix(v: SessionView, k: int, length: i32)
    requires
        0 <= k <= 10,
        v.wf(),
        success_stage(v, k, length),
    ensures
        run(v, engine_success(length).subrange(k, 10)).wf(),
        run(v, engine_success(length).subrange(k, 10)).pending == Pending::Finished,
        run(v, engine_success(length).subrange(k, 10)).outcome == Some(Ok::<i32, Error>(length)),
    decreases 10 - k,
{
    let es = engine_success(length);
    if k < 10 {
        assert(es.subrange(k, 10).drop_first() =~= es.subrange(k + 1, 10));
        assert(es.subrange(k, 10)[0] == es[k]);
        if k == 4 {
            assert(es[k] == Event::Parsed(true));
        } else if k == 5 {
            assert(es[k] == Event::Status(0));
        } else if k == 6 {
            assert(es[k] == Event::Rendered(0, length));
        }
        lemma_transition_wf(v, es[k]);
        lemma_success_suffix(transition(v, es[k]).0, k + 1, length);
    } else {
        assert(es.subrange(10, 10) =~= Seq::<Event>::empty());
    }
}

/// When the source is a C string and the engine parses, lays out and
/// renders it, the render finishes with the length the engine gave, having
/// released all it acquired.
pub proof fn lemma_accepted_source_renders(src: Seq<u8>, length: i32)
    requires
        c_string_check(src) is Ok,
    ensures
        run(start(src).0, engine_success(length)).pending == Pending::Finished,
        run(start(src).0, engine_success(length)).outcome == Some(Ok::<i32, Error>(length)),
        balanced(run(start(src).0, engine_success(length)).log),
{
    let es = engine_success(length);
    let v = start(src).0;
    assert(v.wf()) by {
        reveal_with_fuel(count, 1);
    }
    assert(es.subrange(0, 10) =~= es);
    lemma_success_suffix(v, 0, length);
    lemma_finished_balanced(run(v, es));
}

} // verus!
