use wasinodot::error::{Error, NulError};
use wasinodot::native::GraphvizPluginLibrary;
use wasinodot::report::report;
use wasinodot::session::{Action, Event, Session};

/// What a stand-in engine answers to each call.
struct Engine {
    parse_ok: bool,
    layout_status: i32,
    render_status: i32,
    length: i32,
}

const GOOD: Engine = Engine { parse_ok: true, layout_status: 0, render_status: 0, length: 120 };

fn answer(engine: &Engine, action: &Action) -> Event {
    match action {
        Action::ParseGraph => Event::Parsed(engine.parse_ok),
        Action::ComputeLayout => Event::Status(engine.layout_status),
        Action::RenderData => Event::Rendered(engine.render_status, engine.length),
        _ => Event::Done,
    }
}

/// Runs a session to its end and gives every call it asked for.
fn drive(src: &[u8], engine: &Engine) -> Vec<Action> {
    let (mut session, mut action) = Session::begin(src);
    let mut actions = vec![action];
    while !matches!(action, Action::Finish(_)) {
        let event = answer(engine, &action);
        action = session.step(event);
        actions.push(action);
        assert!(actions.len() < 64);
    }
    assert!(session.is_finished());
    actions
}

fn occurrences(actions: &[Action], a: Action) -> usize {
    actions.iter().filter(|x| **x == a).count()
}

fn outcome(actions: &[Action]) -> Result<i32, Error> {
    match actions.last() {
        Some(Action::Finish(r)) => *r,
        _ => panic!("no finish"),
    }
}

#[test]
fn successful_render_runs_every_step_in_order() {
    let actions = drive(b"digraph G { A -> B; }\0", &GOOD);
    assert_eq!(
        actions,
        vec![
            Action::InstallErrorSink,
            Action::CreateContext,
            Action::AddLibrary(GraphvizPluginLibrary::Core),
            Action::AddLibrary(GraphvizPluginLibrary::DotLayout),
            Action::ParseGraph,
            Action::ComputeLayout,
            Action::RenderData,
            Action::FreeLayout,
            Action::CloseGraph,
            Action::FreeContext,
            Action::Finish(Ok(120)),
        ]
    );
    let r = report(&Ok(120));
    assert_eq!(r.code, 120);
    assert!(r.diagnostic.is_none());
}

#[test]
fn layout_failure_closes_graph_once_and_frees_no_layout() {
    let engine = Engine { layout_status: 1, ..GOOD };
    let actions = drive(b"digraph G { A -> B; }\0", &engine);
    assert_eq!(occurrences(&actions, Action::CloseGraph), 1);
    assert_eq!(occurrences(&actions, Action::FreeLayout), 0);
    assert_eq!(occurrences(&actions, Action::FreeContext), 1);
    let n = actions.len();
    assert_eq!(actions[n - 4], Action::ComputeLayout);
    assert_eq!(actions[n - 3], Action::CloseGraph);
    assert_eq!(actions[n - 2], Action::FreeContext);
    assert_eq!(outcome(&actions), Err(Error::Layout));
}

#[test]
fn render_failure_releases_in_reverse_order() {
    let engine = Engine { render_status: 3, ..GOOD };
    let actions = drive(b"digraph G { A -> B; }\0", &engine);
    let n = actions.len();
    assert_eq!(
        actions[n - 5..].to_vec(),
        vec![
            Action::RenderData,
            Action::FreeLayout,
            Action::CloseGraph,
            Action::FreeContext,
            Action::Finish(Err(Error::Render)),
        ]
    );
}

#[test]
fn empty_source_fails_to_parse_with_a_diagnostic() {
    let engine = Engine { parse_ok: false, ..GOOD };
    let actions = drive(b"\0", &engine);
    assert_eq!(occurrences(&actions, Action::ComputeLayout), 0);
    assert_eq!(occurrences(&actions, Action::CloseGraph), 0);
    assert_eq!(occurrences(&actions, Action::FreeContext), 1);
    assert_eq!(outcome(&actions), Err(Error::Graph));
    let r = report(&outcome(&actions));
    assert_eq!(r.code, -1);
    assert_eq!(r.diagnostic, Some("failed to read graph.".to_string()));
}

#[test]
fn unbalanced_braces_fail_with_a_diagnostic() {
    let engine = Engine { parse_ok: false, ..GOOD };
    let actions = drive(b"digraph G { A -> B; \0", &engine);
    let r = report(&outcome(&actions));
    assert_eq!(r.code, -1);
    assert!(r.diagnostic.is_some());
}

#[test]
fn unterminated_source_acquires_nothing() {
    let actions = drive(b"", &GOOD);
    assert_eq!(actions, vec![Action::Finish(Err(Error::FromBytesWithNul(NulError::NotNulTerminated)))]);
    let r = report(&outcome(&actions));
    assert_eq!(r.code, -1);
    assert_eq!(r.diagnostic, Some("data provided is not nul terminated".to_string()));
}

#[test]
fn interior_nul_is_refused_with_its_position() {
    let actions = drive(b"digraph\0G {}\0", &GOOD);
    let expected = Error::FromBytesWithNul(NulError::InteriorNul { position: 7 });
    assert_eq!(actions, vec![Action::Finish(Err(expected))]);
    assert_eq!(
        report(&Err(expected)).diagnostic,
        Some("data provided contains an interior nul byte at byte pos 7".to_string())
    );
}

#[test]
fn every_acquisition_is_released_over_many_renders() {
    let engines = [
        GOOD,
        Engine { parse_ok: false, ..GOOD },
        Engine { layout_status: -2, ..GOOD },
        Engine { render_status: 1, ..GOOD },
        GOOD,
    ];
    let mut all = Vec::new();
    for engine in engines.iter() {
        all.extend(drive(b"digraph G { A -> B; }\0", engine));
    }
    all.extend(drive(b"no terminator", &GOOD));
    let contexts = occurrences(&all, Action::CreateContext);
    let graphs = 4;
    assert_eq!(contexts, 5);
    assert_eq!(occurrences(&all, Action::FreeContext), contexts);
    assert_eq!(occurrences(&all, Action::CloseGraph), graphs);
    assert_eq!(occurrences(&all, Action::FreeLayout), 3);
}

#[test]
fn finished_session_keeps_answering_finish() {
    let (mut session, _) = Session::begin(b"\0");
    let mut last = Action::InstallErrorSink;
    for _ in 0..20 {
        last = session.step(Event::Parsed(false));
    }
    assert_eq!(last, Action::Finish(Err(Error::Graph)));
    assert_eq!(session.step(Event::Done), Action::Finish(Err(Error::Graph)));
}

#[test]
fn mismatched_event_counts_as_failure() {
    let (mut session, _) = Session::begin(b"graph {}\0");
    for _ in 0..4 {
        session.step(Event::Done);
    }
    assert_eq!(session.step(Event::Status(0)), Action::FreeContext);
    assert_eq!(session.step(Event::Done), Action::Finish(Err(Error::Graph)));
}
