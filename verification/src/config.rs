//! Configuration: what is shown of the application, and what bounds a run.

use vstd::prelude::*;
use vstd::string::StringExecFns;
use crate::error::{EngineError, ErrorView};

verus! {

/// What the application shows of itself.
#[derive(Debug, PartialEq, Eq)]
pub struct Config {
    pub version: String,
    pub game: GameConfig,
}

/// The part of the configuration that describes the game.
#[derive(Debug, PartialEq, Eq)]
pub struct GameConfig {
    pub title: String,
}

impl Config {
    /// The title of the window: the game's title, ` - `, the version.
    pub open spec fn spec_window_title(&self) -> Seq<char> {
        self.game.title@ + seq![' ', '-', ' '] + self.version@
    }

    /// The title of the window: the game's title, ` - `, the version.
    pub fn window_title(&self) -> (title: String)
        ensures
            title@ == self.spec_window_title(),
    {
        let mut title = String::new();
        title.append(self.game.title.as_str());
        title.append(" - ");
        title.append(self.version.as_str());
        proof {
            reveal_strlit(" - ");
            assert(" - "@ =~= seq![' ', '-', ' ']);
            assert(title@ =~= self.spec_window_title());
        }
        title
    }
}

/// What bounds a run of the engine. It is read once, before the engine is
/// initialized, and does not change.
#[derive(Clone, Copy, Debug, PartialEq, Eq, Structural)]
pub struct EngineConfig {
    /// The number of ticks after which the engine asks for the loop to end.
    pub tick_budget: u64,
}

/// What came of reading the engine's configuration from its source.
#[derive(Debug, PartialEq, Eq)]
pub enum ConfigSource {
    /// The source was read and held the configuration.
    Loaded(EngineConfig),
    /// There is no source to read; the text says what was looked for.
    Missing(String),
    /// The source was read but does not hold a configuration; the text says
    /// what is wrong with it.
    Malformed(String),
    /// The place where the source lies could not be reached; the text says
    /// why.
    Unreachable(String),
}

/// What a [`ConfigSource`] holds, as mathematics.
pub enum SourceView {
    Loaded(EngineConfig),
    Missing(Seq<char>),
    Malformed(Seq<char>),
    Unreachable(Seq<char>),
}

impl SourceView {
    /// The configuration, or the error that the engine fails with: an
    /// initialization error for a missing or malformed source, an i/o error
    /// for one that could not be reached.
    pub open spec fn resolved(self) -> Result<EngineConfig, ErrorView> {
        match self {
            SourceView::Loaded(config) => Ok(config),
            SourceView::Missing(cause) => Err(ErrorView::Init(cause)),
            SourceView::Malformed(cause) => Err(ErrorView::Init(cause)),
            SourceView::Unreachable(cause) => Err(ErrorView::Io(cause)),
        }
    }
}

impl View for ConfigSource {
    type V = SourceView;

    open spec fn view(&self) -> SourceView {
        match self {
            ConfigSource::Loaded(config) => SourceView::Loaded(*config),
            ConfigSource::Missing(cause) => SourceView::Missing(cause@),
            ConfigSource::Malformed(cause) => SourceView::Malformed(cause@),
            ConfigSource::Unreachable(cause) => SourceView::Unreachable(cause@),
        }
    }
}

impl ConfigSource {
    /// The configuration where the source held one, and otherwise the error
    /// for the way in which it failed.
    pub fn resolve(self) -> (outcome: Result<EngineConfig, EngineError>)
        ensures
            match outcome {
                Ok(config) => self@.resolved() == Ok::<EngineConfig, ErrorView>(config),
                Err(error) => self@.resolved() == Err::<EngineConfig, ErrorView>(error@),
            },
    {
        match self {
            ConfigSource::Loaded(config) => Ok(config),
            ConfigSource::Missing(cause) => Err(EngineError::init(cause)),
            ConfigSource::Malformed(cause) => Err(EngineError::init(cause)),
            ConfigSource::Unreachable(cause) => Err(EngineError::io(cause)),
        }
    }
}

} // verus!
