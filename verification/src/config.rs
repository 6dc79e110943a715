use vstd::prelude::*;

verus! {

/// The window settings the game reads at start-up, after defaulting.
#[derive(Copy, Clone, Debug, PartialEq, Eq)]
pub struct ParsedConfig {
    pub screen_dimensions: (u32, u32),
    pub maximised: bool,
}

/// The configuration used when the stored file cannot be parsed.
pub open spec fn fallback_config() -> ParsedConfig {
    ParsedConfig { screen_dimensions: (1600u32, 900u32), maximised: false }
}

impl Default for ParsedConfig {
    /// The fallback used when no usable configuration file exists.
    fn default() -> (s: Self)
        ensures
            s == fallback_config(),
    {
        ParsedConfig { screen_dimensions: (1600, 900), maximised: false }
    }
}

impl ParsedConfig {
    /// Settle a raw read of the configuration file: `parsed` carries the
    /// stored fields when the file parsed, `None` when it did not. Missing
    /// screen dimensions fall back to full HD; an unparsable file falls back
    /// to the default configuration.
    pub fn new(parsed: Option<(Option<(u32, u32)>, bool)>) -> (s: Self)
        ensures
            match parsed {
                Some(raw) => s.maximised == raw.1 && s.screen_dimensions == (match raw.0 {
                    Some(d) => d,
                    None => (1920u32, 1080u32),
                }),
                None => s == fallback_config(),
            },
    {
        match parsed {
            Some((sd, maximised)) => {
                let screen_dimensions = match sd {
                    Some(d) => d,
                    None => (1920, 1080),
                };
                ParsedConfig { screen_dimensions, maximised }
            },
            None => Self::default(),
        }
    }
}

} // verus!
