use vstd::prelude::*;

verus! {

pub const DEFAULT_POLL_INTERVAL_SECS: u64 = 2;

pub const DEFAULT_DEBOUNCE_MS: u64 = 500;

/// The built-in input directory, used when no configuration names one.
pub fn default_input_dir() -> (r: String)
    ensures
        r@ == "./input"@,
{
    String::from_str("./input")
}

/// The built-in output directory.
pub fn default_output_dir() -> (r: String)
    ensures
        r@ == "./output"@,
{
    String::from_str("./output")
}

/// The built-in poll interval, in seconds.
pub fn default_poll_interval() -> (r: u64)
    ensures
        r == DEFAULT_POLL_INTERVAL_SECS,
{
    DEFAULT_POLL_INTERVAL_SECS
}

/// The built-in debounce delay, in milliseconds.
pub fn default_debounce_ms() -> (r: u64)
    ensures
        r == DEFAULT_DEBOUNCE_MS,
{
    DEFAULT_DEBOUNCE_MS
}

/// Where files are read from and written to, and how the traversal behaves.
#[derive(Debug, Clone)]
pub struct GeneralConfig {
    pub input_dir: String,
    pub output_dir: String,
    pub recursive: bool,
    pub delete_source: bool,
    pub default_sheet: Option<String>,
}

/// The watch loop's timing.
#[derive(Debug, Clone)]
pub struct WatchConfig {
    pub poll_interval_secs: u64,
    pub debounce_ms: u64,
}

/// The whole configuration.
#[derive(Debug, Clone)]
pub struct Config {
    pub general: GeneralConfig,
    pub watch: WatchConfig,
}

/// The built-in defaults of the general section.
pub open spec fn spec_default_general(c: GeneralConfig) -> bool {
    &&& c.input_dir@ == "./input"@
    &&& c.output_dir@ == "./output"@
    &&& c.recursive == false
    &&& c.delete_source == false
    &&& c.default_sheet is None
}

/// The built-in defaults of the watch section.
pub open spec fn spec_default_watch(c: WatchConfig) -> bool {
    c.poll_interval_secs == DEFAULT_POLL_INTERVAL_SECS && c.debounce_ms == DEFAULT_DEBOUNCE_MS
}

impl Default for GeneralConfig {
    fn default() -> (r: GeneralConfig)
        ensures
            spec_default_general(r),
    {
        GeneralConfig {
            input_dir: default_input_dir(),
            output_dir: default_output_dir(),
            recursive: false,
            delete_source: false,
            default_sheet: Option::None,
        }
    }
}

impl Default for WatchConfig {
    fn default() -> (r: WatchConfig)
        ensures
            spec_default_watch(r),
    {
        WatchConfig {
            poll_interval_secs: DEFAULT_POLL_INTERVAL_SECS,
            debounce_ms: DEFAULT_DEBOUNCE_MS,
        }
    }
}

impl Default for Config {
    fn default() -> (r: Config)
        ensures
            spec_default_general(r.general),
            spec_default_watch(r.watch),
    {
        Config { general: GeneralConfig::default(), watch: WatchConfig::default() }
    }
}

impl GeneralConfig {
    /// Lays command-line overrides over the configured values: a named
    /// directory replaces the configured one, and the boolean flags can only
    /// switch their settings on, never off.
    pub fn apply_overrides(
        &mut self,
        input_dir: Option<String>,
        output_dir: Option<String>,
        delete_source: bool,
        recursive: bool,
    )
        ensures
            final(self).input_dir@ == (match input_dir {
                Option::Some(d) => d@,
                Option::None => old(self).input_dir@,
            }),
            final(self).output_dir@ == (match output_dir {
                Option::Some(d) => d@,
                Option::None => old(self).output_dir@,
            }),
            final(self).delete_source == (old(self).delete_source || delete_source),
            final(self).recursive == (old(self).recursive || recursive),
            final(self).default_sheet == old(self).default_sheet,
    {
        match input_dir {
            Option::Some(d) => {
                self.input_dir = d;
            },
            Option::None => {},
        }
        match output_dir {
            Option::Some(d) => {
                self.output_dir = d;
            },
            Option::None => {},
        }
        if delete_source {
            self.delete_source = true;
        }
        if recursive {
            self.recursive = true;
        }
    }
}

impl Config {
    /// The configuration an absent configuration file stands for.
    pub fn generate_default() -> (r: Config)
        ensures
            spec_default_general(r.general),
            spec_default_watch(r.watch),
    {
        Config::default()
    }
}

/// Resolves the effective configuration: the loaded file's values where one
/// was loaded, the built-in defaults otherwise, with the command-line
/// overrides laid on top.
pub fn load_config_with_overrides(
    loaded: Option<Config>,
    input_dir: Option<String>,
    output_dir: Option<String>,
    delete_source: bool,
    recursive: bool,
) -> (r: Config)
    ensures
        ({
            match loaded {
                Option::Some(c) => {
                    &&& r.general.input_dir@ == (match input_dir {
                        Option::Some(ref d) => d@,
                        Option::None => c.general.input_dir@,
                    })
                    &&& r.general.output_dir@ == (match output_dir {
                        Option::Some(ref d) => d@,
                        Option::None => c.general.output_dir@,
                    })
                    &&& r.general.delete_source == (c.general.delete_source || delete_source)
                    &&& r.general.recursive == (c.general.recursive || recursive)
                    &&& r.general.default_sheet == c.general.default_sheet
                    &&& r.watch == c.watch
                },
                Option::None => {
                    &&& r.general.input_dir@ == (match input_dir {
                        Option::Some(ref d) => d@,
                        Option::None => "./input"@,
                    })
                    &&& r.general.output_dir@ == (match output_dir {
                        Option::Some(ref d) => d@,
                        Option::None => "./output"@,
                    })
                    &&& r.general.delete_source == delete_source
                    &&& r.general.recursive == recursive
                    &&& r.general.default_sheet is None
                    &&& spec_default_watch(r.watch)
                },
            }
        }),
{
    let mut config = match loaded {
        Option::Some(c) => c,
        Option::None => Config::default(),
    };
    config.general.apply_overrides(input_dir, output_dir, delete_source, recursive);
    config
}

} // verus!
