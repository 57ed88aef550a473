//! The engine's lifecycle: constructed, initialized, shut down.

use vstd::prelude::*;
use crate::config::{ConfigSource, EngineConfig};
use crate::error::EngineError;
use crate::log::event::{Event, EventView};
use crate::log::fields::{FieldMap, FieldView};
use crate::log::level::Level;
use crate::log::value::{LogValue, ValueView};

verus! {

/// Where an engine stands in its life.
#[derive(Clone, Copy, Debug, PartialEq, Eq, Structural)]
pub enum Phase {
    /// Made, with every counter at zero; no configuration yet.
    Constructed,
    /// Configured; it ticks until its budget is used up.
    Initialized,
    /// Shut down; nothing follows.
    ShutDown,
}

/// What an [`Engine`] holds, as mathematics.
pub struct EngineView {
    pub phase: Phase,
    pub elapsed_ticks: nat,
    pub tick_budget: nat,
}

impl EngineView {
    /// A new engine: constructed, counters at zero.
    pub open spec fn constructed() -> EngineView {
        EngineView { phase: Phase::Constructed, elapsed_ticks: 0, tick_budget: 0 }
    }

    /// The engine right after it took `config`: no tick yet, the budget of
    /// the configuration.
    pub open spec fn initialized(config: EngineConfig) -> EngineView {
        EngineView {
            phase: Phase::Initialized,
            elapsed_ticks: 0,
            tick_budget: config.tick_budget as nat,
        }
    }

    /// Whether the engine asks for the loop to end: the ticks have reached
    /// the budget.
    pub open spec fn close_requested(self) -> bool {
        self.elapsed_ticks >= self.tick_budget
    }

    /// The engine after one tick: one more tick elapsed, nothing else
    /// changed.
    pub open spec fn ticked(self) -> EngineView {
        EngineView { elapsed_ticks: self.elapsed_ticks + 1, ..self }
    }

    /// The engine after `n` ticks.
    pub open spec fn after_ticks(self, n: nat) -> EngineView
        decreases n,
    {
        if n == 0 {
            self
        } else {
            self.after_ticks((n - 1) as nat).ticked()
        }
    }

    /// The engine after a shutdown: shut down, counters as they were.
    pub open spec fn shut_down(self) -> EngineView {
        EngineView { phase: Phase::ShutDown, ..self }
    }
}

/// The target of the events that the engine raises.
pub open spec fn engine_target() -> Seq<char> {
    "engine"@
}

/// The event of a tick that brought the count of ticks to `elapsed_ticks`.
pub open spec fn tick_event(elapsed_ticks: u64) -> EventView {
    EventView {
        level: Level::Info,
        target: engine_target(),
        file: None,
        line: None,
        fields: seq![
            FieldView { name: "message"@, value: ValueView::Text("Engine::tick"@) },
            FieldView { name: "elapsed_ticks"@, value: ValueView::U64(elapsed_ticks) },
        ],
    }
}

/// The event of a shutdown.
pub open spec fn shutdown_event() -> EventView {
    EventView {
        level: Level::Info,
        target: engine_target(),
        file: None,
        line: None,
        fields: seq![FieldView { name: "message"@, value: ValueView::Text("Engine::shutdown"@) }],
    }
}

/// The engine: the count of ticks so far and the budget that ends the run.
#[derive(Debug)]
pub struct Engine {
    phase: Phase,
    elapsed_ticks: u64,
    tick_budget: u64,
}

impl View for Engine {
    type V = EngineView;

    closed spec fn view(&self) -> EngineView {
        EngineView {
            phase: self.phase,
            elapsed_ticks: self.elapsed_ticks as nat,
            tick_budget: self.tick_budget as nat,
        }
    }
}

impl Engine {
    /// A new engine, constructed and with its counters at zero. Making one
    /// cannot fail.
    pub fn new() -> (made: Result<Engine, EngineError>)
        ensures
            made is Ok,
            made->Ok_0@ == EngineView::constructed(),
    {
        Ok(Engine { phase: Phase::Constructed, elapsed_ticks: 0, tick_budget: 0 })
    }

    /// Takes the configuration from `source`. Where the source holds one,
    /// the engine is initialized with its budget and no tick elapsed. Where
    /// it does not, the engine stays as it was and the error says how the
    /// source failed.
    pub fn init(&mut self, source: ConfigSource) -> (outcome: Result<(), EngineError>)
        requires
            old(self)@.phase == Phase::Constructed,
        ensures
            match source@.resolved() {
                Ok(config) => outcome is Ok && final(self)@ == EngineView::initialized(config),
                Err(error) => outcome is Err && outcome->Err_0@ == error && final(self)@ == old(
                    self,
                )@,
            },
    {
        match source.resolve() {
            Ok(config) => {
                self.tick_budget = config.tick_budget;
                self.elapsed_ticks = 0;
                self.phase = Phase::Initialized;
                Ok(())
            },
            Err(error) => Err(error),
        }
    }

    /// Advances the engine by one tick and returns the event that says so,
    /// which carries the new count.
    pub fn tick(&mut self) -> (event: Event)
        requires
            old(self)@.phase == Phase::Initialized,
            old(self)@.elapsed_ticks < u64::MAX,
        ensures
            final(self)@ == old(self)@.ticked(),
            event@ == tick_event(final(self)@.elapsed_ticks as u64),
    {
        self.elapsed_ticks = self.elapsed_ticks + 1;
        let mut fields = FieldMap::new();
        fields.insert("message", LogValue::Text("Engine::tick".to_owned()));
        fields.insert("elapsed_ticks", LogValue::U64(self.elapsed_ticks));
        let event = Event {
            level: Level::Info,
            target: "engine".to_owned(),
            file: None,
            line: None,
            fields,
        };
        proof {
            reveal_strlit("message");
            reveal_strlit("elapsed_ticks");
            reveal_with_fuel(crate::log::fields::inserted, 3);
            assert("message"@.len() == 7 && "elapsed_ticks"@.len() == 13);
            assert(event@.fields =~= tick_event(self.elapsed_ticks).fields);
        }
        event
    }

    /// Shuts the engine down and returns the event that says so. A second
    /// shutdown changes nothing more.
    pub fn shutdown(&mut self) -> (event: Event)
        ensures
            final(self)@ == old(self)@.shut_down(),
            event@ == shutdown_event(),
    {
        self.phase = Phase::ShutDown;
        let mut fields = FieldMap::new();
        fields.insert("message", LogValue::Text("Engine::shutdown".to_owned()));
        let event = Event {
            level: Level::Info,
            target: "engine".to_owned(),
            file: None,
            line: None,
            fields,
        };
        proof {
            reveal_with_fuel(crate::log::fields::inserted, 2);
            assert(event@.fields =~= shutdown_event().fields);
        }
        event
    }

    /// Whether the engine asks for the loop to end.
    pub fn close_requested(&self) -> (requested: bool)
        ensures
            requested == self@.close_requested(),
    {
        self.elapsed_ticks >= self.tick_budget
    }

    /// Where the engine stands in its life.
    pub fn phase(&self) -> (phase: Phase)
        ensures
            phase == self@.phase,
    {
        self.phase
    }

    /// The number of ticks so far.
    pub fn elapsed_ticks(&self) -> (ticks: u64)
        ensures
            ticks == self@.elapsed_ticks,
    {
        self.elapsed_ticks
    }

    /// The number of ticks after which the engine asks for the loop to end.
    pub fn tick_budget(&self) -> (budget: u64)
        ensures
            budget == self@.tick_budget,
    {
        self.tick_budget
    }
}

/// The counters of an engine are 64-bit numbers.
pub proof fn lemma_counters_fit(engine: &Engine)
    ensures
        engine@.elapsed_ticks <= u64::MAX,
        engine@.tick_budget <= u64::MAX,
{
}

/// A run of `n` ticks within the budget counts `n` ticks, and the engine
/// asks for the loop to end exactly when `n` has reached the budget.
pub proof fn lemma_ticks_within_budget(config: EngineConfig, n: nat)
    requires
        n <= config.tick_budget,
    ensures
        EngineView::initialized(config).after_ticks(n).elapsed_ticks == n,
        EngineView::initialized(config).after_ticks(n).tick_budget == config.tick_budget,
        EngineView::initialized(config).after_ticks(n).phase == Phase::Initialized,
        EngineView::initialized(config).after_ticks(n).close_requested() == (n
            >= config.tick_budget),
    decreases n,
{
    if n > 0 {
        lemma_ticks_within_budget(config, (n - 1) as nat);
    }
}

/// Each tick adds exactly one to the count, whatever the count was.
pub proof fn lemma_ticks_count(engine: EngineView, n: nat)
    ensures
        engine.after_ticks(n).elapsed_ticks == engine.elapsed_ticks + n,
        engine.after_ticks(n).tick_budget == engine.tick_budget,
        engine.after_ticks(n).phase == engine.phase,
    decreases n,
{
    if n > 0 {
        lemma_ticks_count(engine, (n - 1) as nat);
    }
}

/// With a budget of zero the engine asks for the loop to end as soon as it
/// is initialized, before any tick.
pub proof fn lemma_zero_budget_closes_at_once(config: EngineConfig)
    requires
        config.tick_budget == 0,
    ensures
        EngineView::initialized(config).close_requested(),
{
}

/// A second shutdown leaves the engine as the first one left it, and a
/// shutdown never touches the counters.
pub proof fn lemma_shutdown_idempotent(engine: EngineView)
    ensures
        engine.shut_down().shut_down() == engine.shut_down(),
        engine.shut_down().elapsed_ticks == engine.elapsed_ticks,
        engine.shut_down().tick_budget == engine.tick_budget,
        engine.shut_down().close_requested() == engine.close_requested(),
{
}

} // verus!
