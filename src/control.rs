use crate::simulation::Geometry;
use crate::timing::{sped_up, slowed_down, Timing, FRAME_STEP, INITIAL_FRAME_INTERVAL};
use vstd::prelude::*;

verus! {

/// The key that shortens the frame interval.
pub const SPEED_UP_KEY: char = '+';

/// The key that lengthens the frame interval.
pub const SLOW_DOWN_KEY: char = '-';

/// The key that ends the animation.
pub const QUIT_KEY: char = 'q';

/// How long, in milliseconds, to wait for a further resize in a burst.
pub const COALESCE_WINDOW: u64 = 50;

/// What the terminal handed over, or that nothing came in time.
#[derive(Clone, Copy, Debug, PartialEq, Eq, Structural)]
pub enum InputEvent {
    /// A plain key press of a character.
    Key(char),
    /// The terminal now has `columns` and `rows`.
    Resize(u16, u16),
    /// The wait ran out with no event.
    TimedOut,
    /// Any other event; it has no effect.
    Other,
}

/// Where the control loop stands.
#[derive(Clone, Copy, Debug, PartialEq, Eq, Structural)]
pub enum Phase {
    /// Waiting for input; a timeout means a frame is due.
    Polling,
    /// Draining a burst of resize events; holds the last size seen. Keys still
    /// take effect meanwhile.
    Coalescing(Geometry),
    /// The user quit; nothing more happens.
    Terminated,
}

/// What the caller is to do next.
#[derive(Clone, Copy, Debug, PartialEq, Eq, Structural)]
pub enum Action {
    /// Wait up to this many milliseconds for an event and hand it over
    /// (`TimedOut` if none came).
    Poll(u64),
    /// Advance the simulation one frame over the current geometry, draw it,
    /// then poll again for one frame interval.
    Render,
    /// Leave the alternate screen and show the cursor, then stop.
    Restore,
    /// Nothing is left to do.
    Halt,
}

/// The control state, as the contracts see it.
pub struct ControlView {
    pub interval: u64,
    pub geometry: Geometry,
    pub phase: Phase,
}

/// One transition of the control loop: the next state and what to do.
pub open spec fn step(c: ControlView, e: InputEvent) -> (ControlView, Action) {
    match c.phase {
        Phase::Terminated => (c, Action::Halt),
        Phase::Coalescing(pending) => match e {
            InputEvent::Resize(columns, rows) => (
                ControlView { phase: Phase::Coalescing(Geometry { columns, rows }), ..c },
                Action::Poll(COALESCE_WINDOW),
            ),
            InputEvent::TimedOut => (
                ControlView { geometry: pending, phase: Phase::Polling, ..c },
                Action::Poll(c.interval),
            ),
            InputEvent::Key(k) => if k == SPEED_UP_KEY {
                (ControlView { interval: sped_up(c.interval), ..c }, Action::Poll(COALESCE_WINDOW))
            } else if k == SLOW_DOWN_KEY {
                (ControlView { interval: slowed_down(c.interval), ..c }, Action::Poll(COALESCE_WINDOW))
            } else if k == QUIT_KEY {
                (ControlView { geometry: pending, phase: Phase::Terminated, ..c }, Action::Restore)
            } else {
                (c, Action::Poll(COALESCE_WINDOW))
            },
            InputEvent::Other => (c, Action::Poll(COALESCE_WINDOW)),
        },
        Phase::Polling => match e {
            InputEvent::Key(k) => if k == SPEED_UP_KEY {
                (ControlView { interval: sped_up(c.interval), ..c }, Action::Poll(sped_up(c.interval)))
            } else if k == SLOW_DOWN_KEY {
                (
                    ControlView { interval: slowed_down(c.interval), ..c },
                    Action::Poll(slowed_down(c.interval)),
                )
            } else if k == QUIT_KEY {
                (ControlView { phase: Phase::Terminated, ..c }, Action::Restore)
            } else {
                (c, Action::Poll(c.interval))
            },
            InputEvent::Resize(columns, rows) => (
                ControlView { phase: Phase::Coalescing(Geometry { columns, rows }), ..c },
                Action::Poll(COALESCE_WINDOW),
            ),
            InputEvent::TimedOut => (c, Action::Render),
            InputEvent::Other => (c, Action::Poll(c.interval)),
        },
    }
}

/// The actions that a run of events brings about, one per event.
pub open spec fn run(c: ControlView, events: Seq<InputEvent>) -> Seq<Action>
    decreases events.len(),
{
    if events.len() == 0 {
        Seq::empty()
    } else {
        let (next, action) = step(c, events[0]);
        seq![action].add(run(next, events.subrange(1, events.len() as int)))
    }
}

/// Once terminated, every further event leaves the loop halted: the terminal
/// is never restored a second time.
pub proof fn lemma_terminated_halts(c: ControlView, events: Seq<InputEvent>)
    requires
        c.phase == Phase::Terminated,
    ensures
        forall|i: int| 0 <= i < events.len() ==> #[trigger] run(c, events)[i] == Action::Halt,
    decreases events.len(),
{
    if events.len() > 0 {
        let rest = events.subrange(1, events.len() as int);
        lemma_terminated_halts(c, rest);
        lemma_run_len(c, events);
        lemma_run_len(c, rest);
        assert forall|i: int| 0 <= i < events.len() implies #[trigger] run(c, events)[i] == Action::Halt by {
            if i > 0 {
                assert(run(c, events)[i] == run(c, rest)[i - 1]);
            }
        }
    }
}

/// Quitting from the polling state restores the terminal at once, and nothing
/// that arrives after it restores it again.
pub proof fn lemma_quit_restores_once(c: ControlView, later: Seq<InputEvent>)
    requires
        c.phase == Phase::Polling,
    ensures
        ({
            let actions = run(c, seq![InputEvent::Key(QUIT_KEY)] + later);
            &&& actions.len() == later.len() + 1
            &&& actions[0] == Action::Restore
            &&& forall|i: int| 1 <= i < actions.len() ==> #[trigger] actions[i] == Action::Halt
        }),
{
    let events = seq![InputEvent::Key(QUIT_KEY)] + later;
    let next = step(c, InputEvent::Key(QUIT_KEY)).0;
    assert(events.subrange(1, events.len() as int) =~= later);
    lemma_terminated_halts(next, later);
    lemma_run_len(next, later);
    let actions = run(c, events);
    assert forall|i: int| 1 <= i < actions.len() implies #[trigger] actions[i] == Action::Halt by {
        assert(actions[i] == run(next, later)[i - 1]);
    }
}

pub proof fn lemma_run_len(c: ControlView, events: Seq<InputEvent>)
    ensures
        run(c, events).len() == events.len(),
    decreases events.len(),
{
    if events.len() > 0 {
        lemma_run_len(step(c, events[0]).0, events.subrange(1, events.len() as int));
    }
}

/// The state that a run of events leads to.
pub open spec fn after(c: ControlView, events: Seq<InputEvent>) -> ControlView
    decreases events.len(),
{
    if events.len() == 0 {
        c
    } else {
        after(step(c, events[0]).0, events.subrange(1, events.len() as int))
    }
}

/// The resize events for a run of terminal sizes.
pub open spec fn resizes(sizes: Seq<Geometry>) -> Seq<InputEvent> {
    sizes.map_values(|g: Geometry| InputEvent::Resize(g.columns, g.rows))
}

/// A burst of resizes that ends when the wait runs out leaves the session
/// polling over the last size of the burst; the frame interval is untouched.
pub proof fn lemma_resize_burst(c: ControlView, sizes: Seq<Geometry>)
    requires
        c.phase == Phase::Polling,
        sizes.len() >= 1,
    ensures
        after(c, resizes(sizes) + seq![InputEvent::TimedOut]) == (ControlView {
            interval: c.interval,
            geometry: sizes.last(),
            phase: Phase::Polling,
        }),
{
    lemma_coalescing_keeps_last(c, sizes);
}

proof fn lemma_coalescing_keeps_last(c: ControlView, sizes: Seq<Geometry>)
    requires
        sizes.len() >= 1,
        c.phase == Phase::Polling || c.phase is Coalescing,
    ensures
        after(c, resizes(sizes) + seq![InputEvent::TimedOut]) == (ControlView {
            interval: c.interval,
            geometry: sizes.last(),
            phase: Phase::Polling,
        }),
    decreases sizes.len(),
{
    let events = resizes(sizes) + seq![InputEvent::TimedOut];
    let first = sizes[0];
    assert(events[0] == InputEvent::Resize(first.columns, first.rows));
    let next = step(c, events[0]).0;
    assert(next == ControlView { phase: Phase::Coalescing(first), ..c });
    let rest = sizes.subrange(1, sizes.len() as int);
    if sizes.len() == 1 {
        assert(events.subrange(1, events.len() as int) =~= seq![InputEvent::TimedOut]);
        let done = step(next, InputEvent::TimedOut).0;
        assert(events.subrange(1, events.len() as int).subrange(1, 1) =~= Seq::<InputEvent>::empty());
        assert(after(done, Seq::<InputEvent>::empty()) == done);
    } else {
        assert(events.subrange(1, events.len() as int) =~= resizes(rest) + seq![InputEvent::TimedOut]);
        lemma_coalescing_keeps_last(next, rest);
        assert(rest.last() == sizes.last());
    }
}

/// The control loop: frame timing, the terminal's geometry and the phase.
pub struct Session {
    timing: Timing,
    geometry: Geometry,
    phase: Phase,
}

impl View for Session {
    type V = ControlView;

    closed spec fn view(&self) -> ControlView {
        ControlView { interval: self.timing@, geometry: self.geometry, phase: self.phase }
    }
}

impl Session {
    /// The frame interval stays above one step.
    pub open spec fn wf(&self) -> bool {
        self@.interval > FRAME_STEP
    }

    /// A session polling over a terminal of the given size.
    pub fn new(geometry: Geometry) -> (r: Session)
        ensures
            r@ == (ControlView { interval: INITIAL_FRAME_INTERVAL, geometry, phase: Phase::Polling }),
            r.wf(),
    {
        Session { timing: Timing::new(), geometry, phase: Phase::Polling }
    }

    pub fn frame_interval(&self) -> (r: u64)
        ensures
            r == self@.interval,
    {
        self.timing.frame_interval()
    }

    pub fn geometry(&self) -> (r: Geometry)
        ensures
            r == self@.geometry,
    {
        self.geometry
    }

    pub fn phase(&self) -> (r: Phase)
        ensures
            r == self@.phase,
    {
        self.phase
    }

    /// Takes one event and says what to do next.
    pub fn handle(&mut self, event: InputEvent) -> (r: Action)
        requires
            old(self).wf(),
        ensures
            (final(self)@, r) == step(old(self)@, event),
            final(self).wf(),
    {
        proof {
            assert(self.timing.wf());
        }
        match self.phase {
            Phase::Terminated => Action::Halt,
            Phase::Coalescing(pending) => match event {
                InputEvent::Resize(columns, rows) => {
                    self.phase = Phase::Coalescing(Geometry { columns, rows });
                    Action::Poll(COALESCE_WINDOW)
                },
                InputEvent::TimedOut => {
                    self.geometry = pending;
                    self.phase = Phase::Polling;
                    Action::Poll(self.timing.frame_interval())
                },
                InputEvent::Key(k) => {
                    if k == SPEED_UP_KEY {
                        self.timing.speed_up();
                    } else if k == SLOW_DOWN_KEY {
                        self.timing.slow_down();
                    } else if k == QUIT_KEY {
                        self.geometry = pending;
                        self.phase = Phase::Terminated;
                        return Action::Restore;
                    }
                    Action::Poll(COALESCE_WINDOW)
                },
                InputEvent::Other => Action::Poll(COALESCE_WINDOW),
            },
            Phase::Polling => match event {
                InputEvent::Key(k) => {
                    if k == SPEED_UP_KEY {
                        self.timing.speed_up();
                        Action::Poll(self.timing.frame_interval())
                    } else if k == SLOW_DOWN_KEY {
                        self.timing.slow_down();
                        Action::Poll(self.timing.frame_interval())
                    } else if k == QUIT_KEY {
                        self.phase = Phase::Terminated;
                        Action::Restore
                    } else {
                        Action::Poll(self.timing.frame_interval())
                    }
                },
                InputEvent::Resize(columns, rows) => {
                    self.phase = Phase::Coalescing(Geometry { columns, rows });
                    Action::Poll(COALESCE_WINDOW)
                },
                InputEvent::TimedOut => Action::Render,
                InputEvent::Other => Action::Poll(self.timing.frame_interval()),
            },
        }
    }
}

} // verus!
