//! The application's configuration: the values read from the configuration
//! sources, each with its default, and the command-line arguments; it is set
//! once and read from then on.

use vstd::prelude::*;

verus! {

/// The command-line arguments.
pub struct CliArgs {
    /// Path to the configuration file.
    pub config: String,
    /// Log level (error, warn, info, debug, trace, off).
    pub log_level: String,
    /// Log file path.
    pub log_file: Option<String>,
}

/// What the configuration sources hold for each field; `None` where a field
/// is absent or unreadable.
pub struct ConfigSettings {
    pub max_wait_time_ms: Option<u64>,
    pub number_of_planets: Option<usize>,
    pub explorers: Option<Vec<String>>,
    pub show_gui: Option<bool>,
    pub initial_planet_id: Option<u32>,
}

/// The configuration of the application.
pub struct AppConfig {
    pub max_wait_time_ms: u64,
    pub number_of_planets: usize,
    pub explorers: Vec<String>,
    pub show_gui: bool,
    /// From 1 to `number_of_planets`.
    pub initial_planet_id: u32,
    pub log_level: String,
    pub log_file: Option<String>,
}

/// The value of an optional setting, or its default.
pub open spec fn setting_or<T>(v: Option<T>, default: T) -> T {
    match v {
        Some(x) => x,
        None => default,
    }
}

/// `c` holds each setting, or its default where it is missing, and the
/// logging arguments.
pub open spec fn made_from(c: AppConfig, s: ConfigSettings, args: CliArgs) -> bool {
    &&& c.max_wait_time_ms == setting_or(s.max_wait_time_ms, 2000u64)
    &&& c.number_of_planets == setting_or(s.number_of_planets, 7usize)
    &&& c.explorers@ == (match s.explorers {
        Some(v) => v@,
        None => Seq::<String>::empty(),
    })
    &&& c.show_gui == setting_or(s.show_gui, false)
    &&& c.initial_planet_id == setting_or(s.initial_planet_id, 1u32)
    &&& c.log_level == args.log_level
    &&& c.log_file == args.log_file
}

/// The place the configuration is set once and then read.
pub struct ConfigStore {
    value: Option<AppConfig>,
}

impl View for ConfigStore {
    type V = Option<AppConfig>;

    closed spec fn view(&self) -> Option<AppConfig> {
        self.value
    }
}

impl ConfigStore {
    /// A store with no configuration yet.
    pub fn new() -> (s: Self)
        ensures
            s@ is None,
    {
        ConfigStore { value: None }
    }

    /// Whether the configuration was set.
    pub fn is_initialized(&self) -> (r: bool)
        ensures
            r == self@ is Some,
    {
        self.value.is_some()
    }
}

impl AppConfig {
    /// The configuration made of the settings, with defaults for the missing
    /// ones, and of the logging arguments.
    pub fn from_settings(settings: ConfigSettings, args: CliArgs) -> (c: AppConfig)
        ensures
            made_from(c, settings, args),
    {
        let explorers = match settings.explorers {
            Some(v) => v,
            None => Vec::new(),
        };
        AppConfig {
            max_wait_time_ms: match settings.max_wait_time_ms {
                Some(x) => x,
                None => 2000,
            },
            number_of_planets: match settings.number_of_planets {
                Some(x) => x,
                None => 7,
            },
            explorers,
            show_gui: match settings.show_gui {
                Some(x) => x,
                None => false,
            },
            initial_planet_id: match settings.initial_planet_id {
                Some(x) => x,
                None => 1,
            },
            log_level: args.log_level,
            log_file: args.log_file,
        }
    }

    /// Sets the configuration, made of the settings and the arguments; it
    /// can be set only once.
    pub fn init(store: &mut ConfigStore, settings: ConfigSettings, args: CliArgs)
        requires
            old(store)@ is None,
        ensures
            final(store)@ matches Some(c) && made_from(c, settings, args),
    {
        let c = AppConfig::from_settings(settings, args);
        store.value = Some(c);
    }

    /// The configuration that was set.
    pub fn get(store: &ConfigStore) -> (c: &AppConfig)
        requires
            store@ is Some,
        ensures
            store@ == Some(*c),
    {
        store.value.as_ref().unwrap()
    }
}

} // verus!
