use vstd::prelude::*;

verus! {

/// Settings read from a configuration file; a missing entry is `None`.
#[derive(Clone, Debug)]
pub struct GameConfig {
    pub random: Option<bool>,
    pub difficult: Option<bool>,
    pub stats: Option<bool>,
    pub day: Option<u64>,
    pub seed: Option<u64>,
    pub final_set: Option<String>,
    pub acceptable_set: Option<String>,
    pub state: Option<String>,
    pub word: Option<String>,
}

/// Settings given on the command line.
#[derive(Clone, Debug, Default)]
pub struct Args {
    pub word: Option<String>,
    pub random: bool,
    pub difficult: bool,
    pub stats: bool,
    pub day: Option<u64>,
    pub seed: Option<u64>,
    pub final_set: Option<String>,
    pub acceptable_set: Option<String>,
    pub state: Option<String>,
    pub config: Option<String>,
}

/// `first` if it is set, else `second`.
pub open spec fn prefer<T>(first: Option<T>, second: Option<T>) -> Option<T> {
    match first {
        Some(_) => first,
        None => second,
    }
}

/// The command line settings completed by a configuration: a switch is on
/// when either turns it on, and a value missing on the command line is taken
/// from the configuration.
pub open spec fn overridden(arg: Args, config: GameConfig) -> Args {
    Args {
        word: prefer(arg.word, config.word),
        random: arg.random || config.random == Some(true),
        difficult: arg.difficult || config.difficult == Some(true),
        stats: arg.stats || config.stats == Some(true),
        day: prefer(arg.day, config.day),
        seed: prefer(arg.seed, config.seed),
        final_set: prefer(arg.final_set, config.final_set),
        acceptable_set: prefer(arg.acceptable_set, config.acceptable_set),
        state: prefer(arg.state, config.state),
        config: arg.config,
    }
}

impl GameConfig {
    /// A configuration that sets nothing.
    pub fn new() -> (r: GameConfig)
        ensures
            r.random is None && r.difficult is None && r.stats is None && r.day is None
                && r.seed is None && r.final_set is None && r.acceptable_set is None
                && r.state is None && r.word is None,
    {
        GameConfig {
            random: None,
            difficult: None,
            stats: None,
            day: None,
            seed: None,
            final_set: None,
            acceptable_set: None,
            state: None,
            word: None,
        }
    }

    /// A configuration that sets the day alone.
    pub fn new_with_day(day: u64) -> (r: GameConfig)
        ensures
            r.day == Some(day),
            r.random is None && r.difficult is None && r.stats is None && r.seed is None
                && r.final_set is None && r.acceptable_set is None && r.state is None
                && r.word is None,
    {
        GameConfig {
            random: None,
            difficult: None,
            stats: None,
            day: Some(day),
            seed: None,
            final_set: None,
            acceptable_set: None,
            state: None,
            word: None,
        }
    }
}

/// Completes the command line settings with those of a configuration: the
/// configuration can turn a switch on but not off, and fills in only values
/// that the command line left out.
#[allow(non_snake_case)]
pub fn ConfigOverride(arg: &mut Args, config: GameConfig)
    ensures
        *final(arg) == overridden(*old(arg), config),
{
    if let Some(true) = config.random {
        arg.random = true;
    }
    if let Some(true) = config.difficult {
        arg.difficult = true;
    }
    if let Some(true) = config.stats {
        arg.stats = true;
    }
    if arg.day.is_none() {
        arg.day = config.day;
    }
    if arg.seed.is_none() {
        arg.seed = config.seed;
    }
    if arg.final_set.is_none() {
        arg.final_set = config.final_set;
    }
    if arg.acceptable_set.is_none() {
        arg.acceptable_set = config.acceptable_set;
    }
    if arg.state.is_none() {
        arg.state = config.state;
    }
    if arg.word.is_none() {
        arg.word = config.word;
    }
}

} // verus!
