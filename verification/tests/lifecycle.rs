use engine::log::{LogValue, PrintLnLayer};
use engine::{Config, ConfigSource, Engine, EngineConfig, EngineError, GameConfig, Phase};

fn constructed() -> Engine {
    match Engine::new() {
        Ok(engine) => engine,
        Err(error) => panic!("a new engine cannot fail: {:?}", error),
    }
}

fn initialized(tick_budget: u64) -> Engine {
    let mut engine = constructed();
    let outcome = engine.init(ConfigSource::Loaded(EngineConfig { tick_budget }));
    assert_eq!(outcome, Ok(()));
    engine
}

#[test]
fn a_new_engine_is_constructed_with_counters_at_zero() {
    let made = Engine::new();
    assert!(made.is_ok());
    let engine = constructed();
    assert_eq!(engine.phase(), Phase::Constructed);
    assert_eq!(engine.elapsed_ticks(), 0);
    assert_eq!(engine.tick_budget(), 0);
}

#[test]
fn init_takes_the_budget_of_the_configuration() {
    let engine = initialized(5);
    assert_eq!(engine.phase(), Phase::Initialized);
    assert_eq!(engine.elapsed_ticks(), 0);
    assert_eq!(engine.tick_budget(), 5);
    assert!(!engine.close_requested());
}

#[test]
fn init_from_a_missing_source_fails_and_changes_nothing() {
    let mut engine = constructed();
    let outcome = engine.init(ConfigSource::Missing(String::from("no such file")));
    assert_eq!(
        outcome,
        Err(EngineError::Init(String::from("no such file")))
    );
    assert_eq!(engine.phase(), Phase::Constructed);
    assert_eq!(engine.elapsed_ticks(), 0);
    assert_eq!(engine.tick_budget(), 0);
}

#[test]
fn init_from_a_malformed_source_fails_and_changes_nothing() {
    let mut engine = constructed();
    let outcome = engine.init(ConfigSource::Malformed(String::from("expected a number")));
    assert_eq!(
        outcome,
        Err(EngineError::Init(String::from("expected a number")))
    );
    assert_eq!(engine.phase(), Phase::Constructed);
}

#[test]
fn init_from_an_unreachable_source_is_an_io_error() {
    let mut engine = constructed();
    let outcome = engine.init(ConfigSource::Unreachable(String::from("variable not set")));
    assert_eq!(
        outcome,
        Err(EngineError::Io(String::from("variable not set")))
    );
    assert_eq!(engine.phase(), Phase::Constructed);
}

#[test]
fn an_engine_that_failed_to_init_can_be_initialized_later() {
    let mut engine = constructed();
    assert!(engine
        .init(ConfigSource::Missing(String::from("gone")))
        .is_err());
    assert_eq!(engine.phase(), Phase::Constructed);
    assert_eq!(
        engine.init(ConfigSource::Loaded(EngineConfig { tick_budget: 2 })),
        Ok(())
    );
    assert_eq!(engine.phase(), Phase::Initialized);
    assert_eq!(engine.tick_budget(), 2);
}

#[test]
fn zero_budget_requests_close_right_after_init() {
    let engine = initialized(0);
    assert_eq!(engine.elapsed_ticks(), 0);
    assert!(engine.close_requested());
}

#[test]
fn n_ticks_within_the_budget_count_n() {
    let budgets: Vec<u64> = vec![0, 1, 2, 3, 10, 100];
    for budget in budgets {
        let mut engine = initialized(budget);
        let mut n: u64 = 0;
        assert_eq!(engine.elapsed_ticks(), n);
        assert_eq!(engine.close_requested(), n >= budget);
        while n < budget {
            engine.tick();
            n += 1;
            assert_eq!(engine.elapsed_ticks(), n);
            assert_eq!(engine.close_requested(), n >= budget);
            assert_eq!(engine.tick_budget(), budget);
            assert_eq!(engine.phase(), Phase::Initialized);
        }
    }
}

#[test]
fn close_is_requested_exactly_when_the_budget_is_reached() {
    let mut engine = initialized(3);
    assert!(!engine.close_requested());
    engine.tick();
    assert!(!engine.close_requested());
    engine.tick();
    assert!(!engine.close_requested());
    engine.tick();
    assert!(engine.close_requested());
    assert_eq!(engine.elapsed_ticks(), 3);
}

#[test]
fn ticks_beyond_the_budget_still_count_and_close_stays_requested() {
    let mut engine = initialized(1);
    engine.tick();
    engine.tick();
    assert_eq!(engine.elapsed_ticks(), 2);
    assert!(engine.close_requested());
}

#[test]
fn a_budget_of_the_largest_number_is_never_reached_by_a_few_ticks() {
    let mut engine = initialized(u64::MAX);
    engine.tick();
    assert_eq!(engine.elapsed_ticks(), 1);
    assert!(!engine.close_requested());
}

#[test]
fn tick_raises_an_event_with_the_new_count() {
    let mut engine = initialized(5);
    let first = engine.tick();
    assert_eq!(first.target, "engine");
    assert_eq!(first.file, None);
    assert_eq!(first.line, None);
    assert_eq!(first.fields.len(), 2);
    assert_eq!(
        first.fields.get("message"),
        Some(&LogValue::Text(String::from("Engine::tick")))
    );
    assert_eq!(first.fields.get("elapsed_ticks"), Some(&LogValue::U64(1)));
    assert_eq!(
        PrintLnLayer.on_event(&first),
        "[INFO][engine] message=\"Engine::tick\" elapsed_ticks=1 - "
    );
    let second = engine.tick();
    assert_eq!(second.fields.get("elapsed_ticks"), Some(&LogValue::U64(2)));
    assert_eq!(
        PrintLnLayer.on_event(&second),
        "[INFO][engine] message=\"Engine::tick\" elapsed_ticks=2 - "
    );
}

#[test]
fn shutdown_raises_its_event() {
    let mut engine = initialized(5);
    let event = engine.shutdown();
    assert_eq!(event.fields.len(), 1);
    assert_eq!(
        PrintLnLayer.on_event(&event),
        "[INFO][engine] message=\"Engine::shutdown\" - "
    );
}

#[test]
fn shutdown_keeps_the_counters() {
    let mut engine = initialized(4);
    engine.tick();
    engine.tick();
    engine.shutdown();
    assert_eq!(engine.phase(), Phase::ShutDown);
    assert_eq!(engine.elapsed_ticks(), 2);
    assert_eq!(engine.tick_budget(), 4);
    assert!(!engine.close_requested());
}

#[test]
fn shutdown_twice_changes_nothing_more() {
    let mut engine = initialized(2);
    engine.tick();
    engine.tick();
    let first = engine.shutdown();
    let phase = engine.phase();
    let ticks = engine.elapsed_ticks();
    let budget = engine.tick_budget();
    let close = engine.close_requested();
    let second = engine.shutdown();
    assert_eq!(engine.phase(), phase);
    assert_eq!(engine.phase(), Phase::ShutDown);
    assert_eq!(engine.elapsed_ticks(), ticks);
    assert_eq!(engine.elapsed_ticks(), 2);
    assert_eq!(engine.tick_budget(), budget);
    assert_eq!(engine.close_requested(), close);
    assert_eq!(first, second);
}

#[test]
fn shutdown_of_an_engine_that_was_never_initialized() {
    let mut engine = constructed();
    engine.shutdown();
    assert_eq!(engine.phase(), Phase::ShutDown);
    assert_eq!(engine.elapsed_ticks(), 0);
    engine.shutdown();
    assert_eq!(engine.phase(), Phase::ShutDown);
}

#[test]
fn resolve_gives_the_configuration_or_the_error_of_the_failure() {
    assert_eq!(
        ConfigSource::Loaded(EngineConfig { tick_budget: 9 }).resolve(),
        Ok(EngineConfig { tick_budget: 9 })
    );
    assert_eq!(
        ConfigSource::Missing(String::from("a")).resolve(),
        Err(EngineError::Init(String::from("a")))
    );
    assert_eq!(
        ConfigSource::Malformed(String::from("b")).resolve(),
        Err(EngineError::Init(String::from("b")))
    );
    assert_eq!(
        ConfigSource::Unreachable(String::from("c")).resolve(),
        Err(EngineError::Io(String::from("c")))
    );
}

#[test]
fn error_constructors_keep_kind_and_cause() {
    assert_eq!(
        EngineError::init(String::from("x")),
        EngineError::Init(String::from("x"))
    );
    assert_eq!(
        EngineError::io(String::from("y")),
        EngineError::Io(String::from("y"))
    );
    assert_eq!(
        EngineError::platform(String::from("z")),
        EngineError::Platform(String::from("z"))
    );
}

#[test]
fn error_messages_are_fixed_by_kind() {
    assert_eq!(
        EngineError::init(String::from("x")).message(),
        "initialization error"
    );
    assert_eq!(EngineError::io(String::from("x")).message(), "i/o error");
    assert_eq!(
        EngineError::platform(String::from("x")).message(),
        "platform error"
    );
}

#[test]
fn error_cause_is_the_text_given() {
    assert_eq!(EngineError::init(String::from("no file")).cause(), "no file");
    assert_eq!(EngineError::io(String::from("not set")).cause(), "not set");
    assert_eq!(
        EngineError::platform(String::from("no display")).cause(),
        "no display"
    );
}

#[test]
fn error_report_is_message_colon_cause() {
    assert_eq!(
        EngineError::init(String::from("no file")).report(),
        "initialization error: no file"
    );
    assert_eq!(
        EngineError::io(String::from("not set")).report(),
        "i/o error: not set"
    );
    assert_eq!(
        EngineError::platform(String::from("no display")).report(),
        "platform error: no display"
    );
    assert_eq!(
        EngineError::platform(String::new()).report(),
        "platform error: "
    );
}

#[test]
fn window_title_is_title_dash_version() {
    let config = Config {
        version: String::from("0.1.0"),
        game: GameConfig {
            title: String::from("Sandbox"),
        },
    };
    assert_eq!(config.window_title(), "Sandbox - 0.1.0");
}

#[test]
fn window_title_of_empty_parts() {
    let config = Config {
        version: String::new(),
        game: GameConfig {
            title: String::new(),
        },
    };
    assert_eq!(config.window_title(), " - ");
}
