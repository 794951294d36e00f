//! The capture configuration (`driftwatch.toml`).
//!
//! The config tells the emitter where and how to write a capture and what
//! target identity to stamp on it. Every key has a default, so a project with
//! no config file still captures. The `DRIFTWATCH_OUT_DIR` environment
//! variable overrides the output directory for one run (precedence: env var >
//! `outdir` key > built-in default); `DRIFTWATCH_VERSION` likewise overrides
//! the registry version. Reading the file and the environment happens at the
//! edge; this module resolves what was read.

use vstd::prelude::*;
use crate::artifact::capture::OtlpFormat;

verus! {

/// The canonical config file name resolved inside a target directory.
pub const CONFIG_FILE_NAME: &'static str = "driftwatch.toml";

/// The environment variable that overrides [`CaptureConfig::outdir`].
pub const OUTDIR_ENV: &'static str = "DRIFTWATCH_OUT_DIR";

/// The environment variable that overrides the resolved registry version.
pub const VERSION_ENV: &'static str = "DRIFTWATCH_VERSION";

/// The output directory used when neither the env var nor the config file
/// specifies one.
pub const DEFAULT_OUTDIR: &'static str = "target/driftwatch";

/// The registry version stamped when neither [`VERSION_ENV`] nor the
/// `[registry] version` key supplies one.
pub const DEFAULT_VERSION: &'static str = "0.0.0-dev";

/// The resolved capture configuration: where to write artifacts, how to
/// serialize the trace, and the target identity to stamp on the capture.
#[derive(Debug, Clone, PartialEq, Eq)]
pub struct CaptureConfig {
    /// The directory the emitter writes the registry and trace artifacts into.
    pub outdir: String,
    /// The language-neutral target identity; `None` means unset in config.
    pub target_name: Option<String>,
    /// The registry version from the `[registry] version` key; `None` means
    /// unset.
    pub registry_version: Option<String>,
    /// The trace serialization format.
    pub format: OtlpFormat,
    /// Whether to wipe the output directory before a run.
    pub clean: bool,
}

/// The raw shape of the config file, before defaults are applied.
#[derive(Debug, Clone, PartialEq, Eq)]
pub struct RawConfig {
    pub outdir: Option<String>,
    pub format: Option<RawFormat>,
    pub clean: Option<bool>,
    pub target: Option<RawTarget>,
    pub registry: Option<RawRegistry>,
}

/// The `[target]` table.
#[derive(Debug, Clone, PartialEq, Eq)]
pub struct RawTarget {
    pub name: Option<String>,
}

/// The `[registry]` table.
#[derive(Debug, Clone, PartialEq, Eq)]
pub struct RawRegistry {
    pub version: Option<String>,
}

/// The `format` key's accepted values.
#[derive(Debug, Clone, Copy, PartialEq, Eq, Structural)]
pub enum RawFormat {
    Json,
    Jsonl,
}

/// Why a `driftwatch.toml` could not be resolved into a [`CaptureConfig`].
#[derive(Debug)]
pub enum ConfigError {
    /// The config file exists but could not be read from disk.
    Read {
        /// The path that failed to read.
        path: String,
        /// The underlying I/O error.
        source: std::io::Error,
    },
    /// The TOML was malformed, held an unknown key, or an invalid value.
    Parse(toml::de::Error),
}

/// The view of an optional string.
pub open spec fn opt_str(o: Option<String>) -> Option<Seq<char>> {
    match o {
        Some(s) => Some(s@),
        None => None,
    }
}

impl RawFormat {
    /// The serialization format this value names.
    pub fn into_otlp(self) -> (r: OtlpFormat)
        ensures
            r == (match self {
                RawFormat::Json => OtlpFormat::Json,
                RawFormat::Jsonl => OtlpFormat::Jsonl,
            }),
    {
        match self {
            RawFormat::Json => OtlpFormat::Json,
            RawFormat::Jsonl => OtlpFormat::Jsonl,
        }
    }
}

impl Default for CaptureConfig {
    fn default() -> (r: CaptureConfig)
        ensures
            r.outdir@ == DEFAULT_OUTDIR@,
            r.target_name is None,
            r.registry_version is None,
            r.format == OtlpFormat::Jsonl,
            !r.clean,
    {
        CaptureConfig {
            outdir: String::from_str(DEFAULT_OUTDIR),
            target_name: None,
            registry_version: None,
            format: OtlpFormat::Jsonl,
            clean: false,
        }
    }
}

/// The registry-version precedence: env override, then config key, then the
/// default.
pub open spec fn resolved_version(env_override: Option<Seq<char>>, config_version: Option<Seq<char>>) -> Seq<char> {
    match env_override {
        Some(v) => v,
        None => match config_version {
            Some(v) => v,
            None => DEFAULT_VERSION@,
        },
    }
}

/// A version override that counts: an empty value is treated as absent.
pub open spec fn nonempty(o: Option<Seq<char>>) -> Option<Seq<char>> {
    match o {
        Some(v) => if v.len() > 0 {
            Some(v)
        } else {
            None
        },
        None => None,
    }
}

/// Apply the registry-version precedence: env override > config key >
/// default.
pub fn resolve_version(env_override: Option<String>, config_version: Option<String>) -> (r: String)
    ensures
        r@ == resolved_version(opt_str(env_override), opt_str(config_version)),
{
    match env_override {
        Some(v) => v,
        None => match config_version {
            Some(v) => v,
            None => String::from_str(DEFAULT_VERSION),
        },
    }
}

impl CaptureConfig {
    /// The configuration a raw config file describes, defaults applied to the
    /// keys it leaves out.
    pub fn from_raw(raw: RawConfig) -> (r: CaptureConfig)
        ensures
            r.outdir@ == (match raw.outdir {
                Some(o) => o@,
                None => DEFAULT_OUTDIR@,
            }),
            opt_str(r.target_name) == (match raw.target {
                Some(t) => opt_str(t.name),
                None => None,
            }),
            opt_str(r.registry_version) == (match raw.registry {
                Some(g) => opt_str(g.version),
                None => None,
            }),
            r.format == (match raw.format {
                Some(RawFormat::Json) => OtlpFormat::Json,
                _ => OtlpFormat::Jsonl,
            }),
            r.clean == (match raw.clean {
                Some(c) => c,
                None => false,
            }),
    {
        let defaults = CaptureConfig::default();
        CaptureConfig {
            outdir: match raw.outdir {
                Some(o) => o,
                None => defaults.outdir,
            },
            target_name: match raw.target {
                Some(t) => t.name,
                None => None,
            },
            registry_version: match raw.registry {
                Some(g) => g.version,
                None => None,
            },
            format: match raw.format {
                Some(f) => f.into_otlp(),
                None => defaults.format,
            },
            clean: match raw.clean {
                Some(c) => c,
                None => defaults.clean,
            },
        }
    }

    /// Resolve the registry version to stamp on a derived document, with
    /// precedence `env_override` (the [`VERSION_ENV`] value, when set and
    /// non-empty) > `[registry] version` > [`DEFAULT_VERSION`].
    /// The registry-version override that an environment value (the
    /// [`VERSION_ENV`] variable) gives: the value, unless it is empty.
    pub fn version_override(env_value: Option<String>) -> (r: Option<String>)
        ensures
            opt_str(r) == nonempty(opt_str(env_value)),
    {
        match env_value {
            Some(v) => if v.as_str().is_empty() {
                None
            } else {
                Some(v)
            },
            None => None,
        }
    }

    /// Resolve the registry version to stamp, with precedence: the
    /// [`VERSION_ENV`] value `env_value` unless it is absent or empty, then
    /// the `[registry] version` key, then [`DEFAULT_VERSION`].
    pub fn resolve_registry_version(&self, env_value: Option<String>) -> (r: String)
        ensures
            r@ == resolved_version(nonempty(opt_str(env_value)), opt_str(self.registry_version)),
    {
        let env_override = CaptureConfig::version_override(env_value);
        let config_version = match &self.registry_version {
            Some(v) => Some(v.clone()),
            None => None,
        };
        resolve_version(env_override, config_version)
    }

    /// Apply an output-directory override (typically the [`OUTDIR_ENV`]
    /// value), giving it precedence over the config file. A `None` override
    /// leaves [`CaptureConfig::outdir`] untouched.
    pub fn with_outdir_override(self, override_dir: Option<String>) -> (r: CaptureConfig)
        ensures
            r.outdir@ == (match override_dir {
                Some(d) => d@,
                None => self.outdir@,
            }),
            opt_str(r.target_name) == opt_str(self.target_name),
            opt_str(r.registry_version) == opt_str(self.registry_version),
            r.format == self.format,
            r.clean == self.clean,
    {
        let mut config = self;
        if let Some(dir) = override_dir {
            config.outdir = dir;
        }
        config
    }
}

} // verus!
