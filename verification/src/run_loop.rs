//! The run loop: what the engine does with each event of the platform, and
//! when the loop ends.

use vstd::prelude::*;
use crate::config::ConfigSource;
use crate::error::EngineError;
use crate::lifecycle::{
    lemma_counters_fit, shutdown_event, tick_event, Engine, EngineView, Phase,
};
use crate::log::event::{Event, EventView};

verus! {

/// An event of the platform, as far as the loop tells events apart.
#[derive(Clone, Copy, Debug, PartialEq, Eq, Structural)]
pub enum PlatformEvent {
    /// The platform has handed out all pending events and is idle.
    Idle,
    /// The window asks to be drawn again.
    RedrawRequested,
    /// The user asked to close the window.
    CloseRequested,
    /// Anything else.
    Other,
}

impl PlatformEvent {
    /// The event as the loop of one window takes it: a request to redraw
    /// or to close that is meant for another window is `Other`, and every
    /// other event stays what it is.
    pub open spec fn spec_for_window(self, own_window: bool) -> PlatformEvent {
        match self {
            PlatformEvent::RedrawRequested if !own_window => PlatformEvent::Other,
            PlatformEvent::CloseRequested if !own_window => PlatformEvent::Other,
            event => event,
        }
    }

    /// The event as the loop of one window takes it, given whether it is
    /// meant for that window.
    #[verifier::when_used_as_spec(spec_for_window)]
    pub fn for_window(self, own_window: bool) -> (event: PlatformEvent)
        ensures
            event == self.spec_for_window(own_window),
    {
        match self {
            PlatformEvent::RedrawRequested => if own_window {
                PlatformEvent::RedrawRequested
            } else {
                PlatformEvent::Other
            },
            PlatformEvent::CloseRequested => if own_window {
                PlatformEvent::CloseRequested
            } else {
                PlatformEvent::Other
            },
            event => event,
        }
    }
}

/// What the platform's loop does next.
#[derive(Clone, Copy, Debug, PartialEq, Eq, Structural)]
pub enum ControlFlow {
    /// Go on taking events.
    Poll,
    /// Leave the loop.
    Exit,
}

/// What came of one event: what the platform is asked to do, and the
/// events that the engine raised, in the order `tick`, `shutdown`.
#[derive(Debug, PartialEq, Eq)]
pub struct Step {
    pub flow: ControlFlow,
    pub request_redraw: bool,
    pub tick: Option<Event>,
    pub shutdown: Option<Event>,
}

/// What a [`Step`] holds, as mathematics.
pub struct StepView {
    pub flow: ControlFlow,
    pub request_redraw: bool,
    pub tick: Option<EventView>,
    pub shutdown: Option<EventView>,
}

/// The view of an event that may be absent.
pub open spec fn event_view(event: Option<Event>) -> Option<EventView> {
    match event {
        Some(event) => Some(event@),
        None => None,
    }
}

impl View for Step {
    type V = StepView;

    open spec fn view(&self) -> StepView {
        StepView {
            flow: self.flow,
            request_redraw: self.request_redraw,
            tick: event_view(self.tick),
            shutdown: event_view(self.shutdown),
        }
    }
}

/// The views of a sequence of steps.
pub open spec fn steps_view(steps: Seq<Step>) -> Seq<StepView> {
    steps.map_values(|step: Step| step@)
}

/// Whether the loop is running: its engine is initialized and not shut
/// down.
pub open spec fn running(engine: EngineView) -> bool {
    engine.phase == Phase::Initialized
}

/// Whether the engine ticks on `event`: the loop is running, the platform
/// is idle, and the budget is not used up.
pub open spec fn ticks_on(engine: EngineView, event: PlatformEvent) -> bool {
    running(engine) && event == PlatformEvent::Idle && !engine.close_requested()
}

/// The engine after the tick that `event` brings, if it brings one.
pub open spec fn after_tick(engine: EngineView, event: PlatformEvent) -> EngineView {
    if ticks_on(engine, event) {
        engine.ticked()
    } else {
        engine
    }
}

/// Whether the loop ends on `event`: it is running, and either the window
/// is to be closed or, once the event is dealt with, the engine asks for
/// the end.
pub open spec fn exits_on(engine: EngineView, event: PlatformEvent) -> bool {
    running(engine) && (event == PlatformEvent::CloseRequested || after_tick(
        engine,
        event,
    ).close_requested())
}

/// The engine after `event`: ticked if the event brings a tick, then shut
/// down if the loop ends on it. Once the loop has ended nothing changes.
pub open spec fn next_engine(engine: EngineView, event: PlatformEvent) -> EngineView {
    if exits_on(engine, event) {
        after_tick(engine, event).shut_down()
    } else {
        after_tick(engine, event)
    }
}

/// The step that `event` gives. A tick goes with a request to redraw. The
/// shutdown event is there exactly on the event that ends the loop. A loop
/// that has ended answers every event with `Exit` and nothing else.
pub open spec fn step_of(engine: EngineView, event: PlatformEvent) -> StepView {
    StepView {
        flow: if !running(engine) || exits_on(engine, event) {
            ControlFlow::Exit
        } else {
            ControlFlow::Poll
        },
        request_redraw: ticks_on(engine, event),
        tick: if ticks_on(engine, event) {
            Some(tick_event(after_tick(engine, event).elapsed_ticks as u64))
        } else {
            None
        },
        shutdown: if exits_on(engine, event) {
            Some(shutdown_event())
        } else {
            None
        },
    }
}

/// The engine after the loop is left without an event that ended it: shut
/// down if it was still running.
pub open spec fn finished(engine: EngineView) -> EngineView {
    if running(engine) {
        engine.shut_down()
    } else {
        engine
    }
}

/// The step of leaving the loop without an event that ended it: the
/// shutdown, if the loop was still running.
pub open spec fn finish_step(engine: EngineView) -> StepView {
    StepView {
        flow: ControlFlow::Exit,
        request_redraw: false,
        tick: None,
        shutdown: if running(engine) {
            Some(shutdown_event())
        } else {
            None
        },
    }
}

/// The steps of a whole run over `events`: one step for each event up to
/// and with the one that ends the loop; if the events run out first, one
/// last step that shuts the engine down.
pub open spec fn trace(engine: EngineView, events: Seq<PlatformEvent>) -> Seq<StepView>
    decreases events.len(),
{
    if !running(engine) {
        Seq::empty()
    } else if events.len() == 0 {
        seq![finish_step(engine)]
    } else {
        seq![step_of(engine, events[0])] + trace(
            next_engine(engine, events[0]),
            events.drop_first(),
        )
    }
}

/// Drives one engine through the events of the platform.
#[derive(Debug)]
pub struct RunLoop {
    engine: Engine,
}

impl View for RunLoop {
    type V = EngineView;

    closed spec fn view(&self) -> EngineView {
        self.engine@
    }
}

impl RunLoop {
    /// A loop around an initialized engine.
    pub fn new(engine: Engine) -> (run_loop: RunLoop)
        requires
            engine@.phase == Phase::Initialized,
        ensures
            run_loop@ == engine@,
    {
        RunLoop { engine }
    }

    /// Deals with one event of the platform.
    pub fn handle(&mut self, event: PlatformEvent) -> (step: Step)
        ensures
            final(self)@ == next_engine(old(self)@, event),
            step@ == step_of(old(self)@, event),
    {
        match self.engine.phase() {
            Phase::Initialized => {},
            _ => {
                return Step {
                    flow: ControlFlow::Exit,
                    request_redraw: false,
                    tick: None,
                    shutdown: None,
                };
            },
        }
        let idle = match event {
            PlatformEvent::Idle => true,
            _ => false,
        };
        let close = match event {
            PlatformEvent::CloseRequested => true,
            _ => false,
        };
        let mut tick: Option<Event> = None;
        let mut request_redraw = false;
        proof {
            lemma_counters_fit(&self.engine);
        }
        if idle && !self.engine.close_requested() {
            tick = Some(self.engine.tick());
            request_redraw = true;
        }
        if close || self.engine.close_requested() {
            let shutdown = Some(self.engine.shutdown());
            Step { flow: ControlFlow::Exit, request_redraw, tick, shutdown }
        } else {
            Step { flow: ControlFlow::Poll, request_redraw, tick, shutdown: None }
        }
    }

    /// Leaves the loop without an event that ended it, as when the source of
    /// events is gone: shuts the engine down unless the loop has ended
    /// already.
    pub fn finish(&mut self) -> (step: Step)
        ensures
            final(self)@ == finished(old(self)@),
            step@ == finish_step(old(self)@),
    {
        let shutdown = match self.engine.phase() {
            Phase::Initialized => Some(self.engine.shutdown()),
            _ => None,
        };
        Step { flow: ControlFlow::Exit, request_redraw: false, tick: None, shutdown }
    }

    /// Whether the loop has ended.
    pub fn has_exited(&self) -> (exited: bool)
        ensures
            exited == !running(self@),
    {
        match self.engine.phase() {
            Phase::Initialized => false,
            _ => true,
        }
    }

    /// The engine that the loop drives.
    pub fn engine(&self) -> (engine: &Engine)
        ensures
            engine@ == self@,
    {
        &self.engine
    }
}

/// Runs an engine from start to end: makes it, initializes it from
/// `source`, and drives it through `events` until the loop ends. If the
/// events run out first, the engine is shut down all the same. Returns the
/// steps in order, or the error of a source that gave no configuration, in
/// which case nothing was run.
pub fn launch(source: ConfigSource, events: &Vec<PlatformEvent>) -> (outcome: Result<
    Vec<Step>,
    EngineError,
>)
    ensures
        match source@.resolved() {
            Ok(config) => outcome is Ok && steps_view(outcome->Ok_0@) == trace(
                EngineView::initialized(config),
                events@,
            ),
            Err(error) => outcome is Err && outcome->Err_0@ == error,
        },
{
    let mut engine = match Engine::new() {
        Ok(engine) => engine,
        Err(error) => {
            return Err(error);
        },
    };
    match engine.init(source) {
        Ok(()) => {},
        Err(error) => {
            return Err(error);
        },
    }
    let ghost start = engine@;
    let mut run_loop = RunLoop::new(engine);
    let mut steps: Vec<Step> = Vec::new();
    let mut i: usize = 0;
    proof {
        assert(events@.skip(0) =~= events@);
        assert(steps_view(steps@) + trace(run_loop@, events@.skip(0)) =~= trace(start, events@));
    }
    while i < events.len() && !run_loop.has_exited()
        invariant
            i <= events.len(),
            trace(start, events@) == steps_view(steps@) + trace(run_loop@, events@.skip(i as int)),
        decreases events.len() - i,
    {
        let ghost before = run_loop@;
        let ghost rest = events@.skip(i as int);
        let step = run_loop.handle(events[i]);
        proof {
            assert(rest[0] == events@[i as int]);
            assert(rest.drop_first() =~= events@.skip(i as int + 1));
            assert(trace(before, rest) == seq![step@] + trace(run_loop@, rest.drop_first()));
            assert(steps_view(steps@.push(step)) =~= steps_view(steps@) + seq![step@]);
            assert(steps_view(steps@) + (seq![step@] + trace(run_loop@, rest.drop_first()))
                =~= steps_view(steps@) + seq![step@] + trace(run_loop@, rest.drop_first()));
        }
        steps.push(step);
        i += 1;
    }
    if !run_loop.has_exited() {
        let ghost before = run_loop@;
        let step = run_loop.finish();
        proof {
            assert(events@.skip(i as int).len() == 0);
            assert(trace(before, events@.skip(i as int)) =~= seq![step@]);
            assert(steps_view(steps@.push(step)) =~= steps_view(steps@) + seq![step@]);
        }
        steps.push(step);
    } else {
        proof {
            assert(trace(run_loop@, events@.skip(i as int)) =~= Seq::<StepView>::empty());
            assert(steps_view(steps@) + Seq::<StepView>::empty() =~= steps_view(steps@));
        }
    }
    Ok(steps)
}

/// A request to close the window ends a running loop at once and shuts the
/// engine down, whether or not the engine itself asked for the end.
pub proof fn lemma_close_request_ends_loop(engine: EngineView)
    requires
        running(engine),
    ensures
        step_of(engine, PlatformEvent::CloseRequested).flow == ControlFlow::Exit,
        step_of(engine, PlatformEvent::CloseRequested).shutdown == Some(shutdown_event()),
        step_of(engine, PlatformEvent::CloseRequested).tick is None,
        next_engine(engine, PlatformEvent::CloseRequested) == engine.shut_down(),
        !running(next_engine(engine, PlatformEvent::CloseRequested)),
{
}

/// The loop goes on exactly as long as the engine is not shut down: a step
/// says `Exit` and carries the shutdown exactly when it ends a running
/// loop, and it says `Poll` exactly when the loop still runs after it.
pub proof fn lemma_step_ends_or_polls(engine: EngineView, event: PlatformEvent)
    requires
        running(engine),
    ensures
        step_of(engine, event).shutdown is Some <==> !running(next_engine(engine, event)),
        step_of(engine, event).flow == ControlFlow::Exit <==> !running(next_engine(engine, event)),
        running(next_engine(engine, event)) ==> !next_engine(engine, event).close_requested(),
        step_of(engine, event).tick is Some ==> !engine.close_requested() && next_engine(
            engine,
            event,
        ).elapsed_ticks == engine.elapsed_ticks + 1,
        step_of(engine, event).tick is None ==> next_engine(engine, event).elapsed_ticks
            == engine.elapsed_ticks,
{
}

/// Once the loop has ended, no event changes the engine, none shuts it
/// down again, and every answer is `Exit`.
pub proof fn lemma_ended_loop_stays_ended(engine: EngineView, event: PlatformEvent)
    requires
        !running(engine),
    ensures
        next_engine(engine, event) == engine,
        step_of(engine, event).flow == ControlFlow::Exit,
        step_of(engine, event).shutdown is None,
        step_of(engine, event).tick is None,
        !step_of(engine, event).request_redraw,
        finished(engine) == engine,
        finish_step(engine).shutdown is None,
{
}

/// With a budget of zero the first event, whatever it is, ends the loop
/// without a tick.
pub proof fn lemma_zero_budget_never_ticks(engine: EngineView, event: PlatformEvent)
    requires
        running(engine),
        engine.close_requested(),
    ensures
        step_of(engine, event).tick is None,
        step_of(engine, event).flow == ControlFlow::Exit,
        step_of(engine, event).shutdown is Some,
        next_engine(engine, event).elapsed_ticks == engine.elapsed_ticks,
{
}

/// Every run of a running loop shuts the engine down exactly once, in its
/// last step: that step says `Exit` and carries the shutdown, and every
/// step before it says `Poll` and carries none.
pub proof fn lemma_run_shuts_down_once(engine: EngineView, events: Seq<PlatformEvent>)
    requires
        running(engine),
    ensures
        1 <= trace(engine, events).len() <= events.len() + 1,
        trace(engine, events).last().flow == ControlFlow::Exit,
        trace(engine, events).last().shutdown == Some(shutdown_event()),
        forall|k: int|
            0 <= k < trace(engine, events).len() - 1 ==> (#[trigger] trace(engine, events)[k]).flow
                == ControlFlow::Poll && trace(engine, events)[k].shutdown is None,
    decreases events.len(),
{
    if events.len() > 0 {
        let first = step_of(engine, events[0]);
        let next = next_engine(engine, events[0]);
        let rest = trace(next, events.drop_first());
        assert(trace(engine, events) == seq![first] + rest);
        if running(next) {
            lemma_run_shuts_down_once(next, events.drop_first());
            assert forall|k: int| 0 <= k < trace(engine, events).len() - 1 implies (
            #[trigger] trace(engine, events)[k]).flow == ControlFlow::Poll && trace(
                engine,
                events,
            )[k].shutdown is None by {
                if k > 0 {
                    assert(trace(engine, events)[k] == rest[k - 1]);
                }
            }
            assert(trace(engine, events).last() == rest.last());
        } else {
            assert(rest =~= Seq::<StepView>::empty());
            assert(trace(engine, events) =~= seq![first]);
        }
    }
}

/// The number of steps that carry a tick.
pub open spec fn ticks_in(steps: Seq<StepView>) -> nat
    decreases steps.len(),
{
    if steps.len() == 0 {
        0
    } else if steps[0].tick is Some {
        1 + ticks_in(steps.drop_first())
    } else {
        ticks_in(steps.drop_first())
    }
}

/// A run never ticks beyond the budget: it ticks at most as often as the
/// budget exceeds the ticks that the engine has already counted. With a
/// budget of zero it never ticks.
pub proof fn lemma_run_ticks_within_budget(engine: EngineView, events: Seq<PlatformEvent>)
    requires
        engine.elapsed_ticks <= engine.tick_budget,
    ensures
        ticks_in(trace(engine, events)) <= engine.tick_budget - engine.elapsed_ticks,
    decreases events.len(),
{
    if running(engine) {
        if events.len() == 0 {
            reveal_with_fuel(ticks_in, 2);
            assert(trace(engine, events).drop_first() =~= Seq::<StepView>::empty());
        } else {
            let first = step_of(engine, events[0]);
            let next = next_engine(engine, events[0]);
            let rest = trace(next, events.drop_first());
            assert((seq![first] + rest).drop_first() =~= rest);
            lemma_run_ticks_within_budget(next, events.drop_first());
        }
    }
}

/// A request to close the window is the last event that a run takes: the
/// run has no step beyond the one of the first such request.
pub proof fn lemma_run_ends_at_close_request(
    engine: EngineView,
    events: Seq<PlatformEvent>,
    at: int,
)
    requires
        running(engine),
        0 <= at < events.len(),
        events[at] == PlatformEvent::CloseRequested,
    ensures
        trace(engine, events).len() <= at + 1,
    decreases events.len(),
{
    let next = next_engine(engine, events[0]);
    let rest = trace(next, events.drop_first());
    assert(trace(engine, events) == seq![step_of(engine, events[0])] + rest);
    if at > 0 && running(next) {
        assert(events.drop_first()[at - 1] == events[at]);
        lemma_run_ends_at_close_request(next, events.drop_first(), at - 1);
    } else {
        assert(rest =~= Seq::<StepView>::empty());
    }
}

} // verus!
