use rain::control::{Action, InputEvent, Phase, Session, COALESCE_WINDOW};
use rain::simulation::Geometry;
use rain::timing::Timing;

fn g(columns: u16, rows: u16) -> Geometry {
    Geometry { columns, rows }
}

#[test]
fn repeated_speed_up_stops_above_step() {
    let mut t = Timing::new();
    assert_eq!(t.frame_interval(), 41);
    let mut seen = Vec::new();
    for _ in 0..5 {
        t.speed_up();
        seen.push(t.frame_interval());
    }
    assert_eq!(seen, vec![31, 21, 11, 11, 11]);
}

#[test]
fn slow_down_adds_a_step() {
    let mut t = Timing::new();
    t.slow_down();
    assert_eq!(t.frame_interval(), 51);
    t.slow_down();
    assert_eq!(t.frame_interval(), 61);
    t.speed_up();
    assert_eq!(t.frame_interval(), 51);
}

#[test]
fn session_keys_change_interval() {
    let mut s = Session::new(g(80, 24));
    assert_eq!(s.handle(InputEvent::Key('+')), Action::Poll(31));
    assert_eq!(s.handle(InputEvent::Key('-')), Action::Poll(41));
    assert_eq!(s.handle(InputEvent::Key('-')), Action::Poll(51));
    assert_eq!(s.handle(InputEvent::Key('x')), Action::Poll(51));
    assert_eq!(s.handle(InputEvent::Other), Action::Poll(51));
    assert_eq!(s.frame_interval(), 51);
    assert_eq!(s.phase(), Phase::Polling);
}

#[test]
fn session_speed_up_floor() {
    let mut s = Session::new(g(80, 24));
    let polls: Vec<Action> = (0..5).map(|_| s.handle(InputEvent::Key('+'))).collect();
    assert_eq!(
        polls,
        vec![Action::Poll(31), Action::Poll(21), Action::Poll(11), Action::Poll(11), Action::Poll(11)]
    );
}

#[test]
fn timeout_renders_a_frame() {
    let mut s = Session::new(g(80, 24));
    assert_eq!(s.handle(InputEvent::TimedOut), Action::Render);
    assert_eq!(s.phase(), Phase::Polling);
}

#[test]
fn resize_burst_keeps_last_geometry() {
    let mut s = Session::new(g(80, 24));
    assert_eq!(s.handle(InputEvent::Resize(100, 30)), Action::Poll(COALESCE_WINDOW));
    assert_eq!(s.geometry(), g(80, 24));
    assert_eq!(s.handle(InputEvent::Resize(90, 20)), Action::Poll(COALESCE_WINDOW));
    assert_eq!(s.phase(), Phase::Coalescing(g(90, 20)));
    assert_eq!(s.handle(InputEvent::TimedOut), Action::Poll(41));
    assert_eq!(s.geometry(), g(90, 20));
    assert_eq!(s.phase(), Phase::Polling);
}

#[test]
fn speed_keys_act_during_resize_burst() {
    let mut s = Session::new(g(80, 24));
    s.handle(InputEvent::Resize(100, 30));
    assert_eq!(s.handle(InputEvent::Key('+')), Action::Poll(COALESCE_WINDOW));
    assert_eq!(s.frame_interval(), 31);
    assert_eq!(s.handle(InputEvent::Key('-')), Action::Poll(COALESCE_WINDOW));
    assert_eq!(s.handle(InputEvent::Key('-')), Action::Poll(COALESCE_WINDOW));
    assert_eq!(s.frame_interval(), 51);
    assert_eq!(s.handle(InputEvent::Key('x')), Action::Poll(COALESCE_WINDOW));
    assert_eq!(s.handle(InputEvent::Other), Action::Poll(COALESCE_WINDOW));
    assert_eq!(s.phase(), Phase::Coalescing(g(100, 30)));
    assert_eq!(s.handle(InputEvent::TimedOut), Action::Poll(51));
    assert_eq!(s.geometry(), g(100, 30));
}

#[test]
fn quit_during_resize_burst_terminates() {
    let mut s = Session::new(g(80, 24));
    s.handle(InputEvent::Resize(100, 30));
    s.handle(InputEvent::Resize(90, 20));
    assert_eq!(s.handle(InputEvent::Key('q')), Action::Restore);
    assert_eq!(s.phase(), Phase::Terminated);
    assert_eq!(s.geometry(), g(90, 20));
    assert_eq!(s.handle(InputEvent::Resize(10, 10)), Action::Halt);
    assert_eq!(s.handle(InputEvent::Key('q')), Action::Halt);
    assert_eq!(s.geometry(), g(90, 20));
}

#[test]
fn quit_restores_exactly_once() {
    let mut s = Session::new(g(80, 24));
    assert_eq!(s.handle(InputEvent::Key('q')), Action::Restore);
    assert_eq!(s.phase(), Phase::Terminated);
    let later = [
        InputEvent::Key('q'),
        InputEvent::Key('+'),
        InputEvent::Resize(10, 10),
        InputEvent::TimedOut,
        InputEvent::Other,
    ];
    for e in later {
        assert_eq!(s.handle(e), Action::Halt);
    }
    assert_eq!(s.phase(), Phase::Terminated);
    assert_eq!(s.geometry(), g(80, 24));
}
