//! Tests for the engine lifecycle: lazy start, pooling and reuse, the
//! recovery protocol after a dead session, and the retry budget.

use html2pdf::convert::finish_conversion;
use html2pdf::engine::{Acquisition, AcquireStep, Engine, TabHandle};

/// Drive one fully successful conversion against the engine, as the
/// application loop would, and return the tab that was used.
fn successful_cycle(engine: &mut Engine) -> TabHandle {
    let tab = match engine.get_pooled_tab() {
        AcquireStep::Reuse(t) => t,
        AcquireStep::NeedTab(s) => engine.note_tab_created(s),
        AcquireStep::NeedSession => {
            let s = engine.note_session_started();
            match engine.get_pooled_tab() {
                AcquireStep::NeedTab(s2) => {
                    assert_eq!(s, s2);
                    engine.note_tab_created(s2)
                }
                _ => panic!("fresh session must ask for a tab"),
            }
        }
    };
    let r = finish_conversion(engine, tab, Ok(vec![1, 2, 3]));
    assert_eq!(r.unwrap(), vec![1, 2, 3]);
    tab
}

#[test]
fn sequential_conversions_reuse_one_tab() {
    let mut engine = Engine::new();
    assert_eq!(engine.idle_tabs(), 0);
    assert!(!engine.has_session());

    let first = successful_cycle(&mut engine);
    for _ in 0..5 {
        let tab = successful_cycle(&mut engine);
        assert_eq!(tab, first);
        assert_eq!(engine.idle_tabs(), 1);
        assert_eq!(engine.tabs_created(), 1);
        assert_eq!(engine.sessions_started(), 1);
    }
}

#[test]
fn lazy_start_happens_once() {
    let mut engine = Engine::new();
    assert!(matches!(engine.get_pooled_tab(), AcquireStep::NeedSession));
    let s = engine.note_session_started();
    // A second report (say, from a caller that raced) keeps the session.
    assert_eq!(engine.note_session_started(), s);
    assert_eq!(engine.sessions_started(), 1);
    assert!(matches!(engine.get_pooled_tab(), AcquireStep::NeedTab(_)));
}

#[test]
fn recovery_purges_pool_and_session() {
    let mut engine = Engine::new();
    successful_cycle(&mut engine);
    assert_eq!(engine.idle_tabs(), 1);
    let s = match engine.get_pooled_tab() {
        AcquireStep::Reuse(t) => {
            // Put it back; we only wanted to look.
            engine.recycle_tab(t);
            t.session
        }
        _ => panic!("pool should hold a tab"),
    };

    // The engine process dies: the next tab creation fails.
    engine.note_tab_failed(s);
    assert_eq!(engine.idle_tabs(), 0, "pool observed empty right after recovery");
    assert!(!engine.has_session());

    // The next conversion succeeds against a fresh session.
    let tab = successful_cycle(&mut engine);
    assert_ne!(tab.session, s, "a fresh generation, never the dead one");
    assert_eq!(engine.idle_tabs(), 1);
    assert_eq!(engine.sessions_started(), 2);
    assert_eq!(engine.tabs_created(), 2);
}

#[test]
fn stale_failure_report_changes_nothing() {
    let mut engine = Engine::new();
    successful_cycle(&mut engine);
    let dead = 77; // not the current generation
    engine.note_tab_failed(dead);
    assert_eq!(engine.idle_tabs(), 1);
    assert!(engine.has_session());
}

#[test]
fn stale_tab_is_not_recycled() {
    let mut engine = Engine::new();
    successful_cycle(&mut engine);
    let stale = TabHandle { session: 99, id: 42 };
    engine.recycle_tab(stale);
    assert_eq!(engine.idle_tabs(), 1, "a tab of a replaced session is dropped");
}

#[test]
fn acquisition_allows_exactly_one_restart() {
    let mut engine = Engine::new();
    let s = engine.note_session_started();
    let mut acq = Acquisition::begin();
    assert!(acq.tab_failed(&mut engine, s), "first failure: retry allowed");
    assert!(!engine.has_session(), "recovery cleared the session");
    let s2 = engine.note_session_started();
    assert!(!acq.tab_failed(&mut engine, s2), "second failure: give up");
}

#[test]
fn ids_available_on_fresh_engine() {
    let engine = Engine::new();
    assert!(engine.ids_available());
}
