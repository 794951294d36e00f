//! The decisions of capture emission: whether and where a process writes its
//! trace, which resource it stamps, and which registry document it writes
//! beside the trace. Reading the config file, creating directories and
//! writing files happen at the edge; this module decides from what was read.

use vstd::prelude::*;
use crate::artifact::capture::OtlpFormat;
use crate::artifact::config::{nonempty, opt_str, resolved_version, CaptureConfig, DEFAULT_OUTDIR};
use crate::artifact::resource::{Resource, ResourceShape};
use crate::contract::assemble::{assemble, assembled_document, ResolvedOperation, ResolvedType};
use crate::contract::document::{DocumentShape, RegistryDocument};
use crate::contract::type_ref::views_of;
use crate::extract::derive::{derived_document, OpMeta, TypeMeta};
use crate::extract::identity::RegistryIdentity;
use crate::text::joined;

verus! {

/// The tool name stamped on every capture's resource.
pub const TOOL_NAME: &'static str = "driftwatch";

/// The language stamped on every capture's resource.
pub const TARGET_LANGUAGE: &'static str = "rust";

/// The trace file written inside the output directory.
pub const TRACE_FILE_NAME: &'static str = "trace.otlp.jsonl";

/// The registry file written inside the output directory.
pub const REGISTRY_FILE_NAME: &'static str = "registry.json";

/// `name` inside the directory `dir`: joined with one `/`, or `name` alone
/// when `dir` is empty.
pub open spec fn path_in(dir: Seq<char>, name: Seq<char>) -> Seq<char> {
    if dir.len() == 0 {
        name
    } else if dir.last() == '/' {
        dir + name
    } else {
        dir + "/"@ + name
    }
}

/// `name` inside the directory `dir`.
pub fn join_path(dir: &str, name: &str) -> (r: String)
    ensures
        r@ == path_in(dir@, name@),
{
    let n = dir.unicode_len();
    if n == 0 {
        String::from_str(name)
    } else if dir.get_char(n - 1) == '/' {
        joined(dir, name)
    } else {
        let a = joined(dir, "/");
        a.concat(name)
    }
}

/// Where and as what a process captures.
#[derive(Debug)]
pub struct CaptureSetup {
    /// The resolved configuration, output-directory override applied.
    pub config: CaptureConfig,
    /// The target the capture is stamped with.
    pub target_name: String,
    /// The resource stamped on every trace line.
    pub resource: Resource,
    /// The trace file's path.
    pub trace_path: String,
    /// The registry file's path.
    pub registry_path: String,
}

/// Why a process emits no capture.
#[derive(Debug, Clone, Copy, PartialEq, Eq, Structural)]
pub enum SetupSkip {
    /// The config names no `[target] name`.
    NoTargetName,
}

/// The target a loaded config names (none without a config).
pub open spec fn loaded_target(loaded: Option<CaptureConfig>) -> Option<Seq<char>> {
    match loaded {
        Some(c) => opt_str(c.target_name),
        None => None,
    }
}

/// The registry version a loaded config names (none without a config).
pub open spec fn loaded_version(loaded: Option<CaptureConfig>) -> Option<Seq<char>> {
    match loaded {
        Some(c) => opt_str(c.registry_version),
        None => None,
    }
}

/// The trace format of a loaded config (the default without one).
pub open spec fn loaded_format(loaded: Option<CaptureConfig>) -> OtlpFormat {
    match loaded {
        Some(c) => c.format,
        None => OtlpFormat::Jsonl,
    }
}

/// Whether a loaded config asks for a clean output directory (not without
/// one).
pub open spec fn loaded_clean(loaded: Option<CaptureConfig>) -> bool {
    match loaded {
        Some(c) => c.clean,
        None => false,
    }
}

/// The output directory: the override, else the loaded config's, else the
/// default.
pub open spec fn outdir_of(loaded: Option<CaptureConfig>, outdir_override: Option<String>) -> Seq<char> {
    match outdir_override {
        Some(d) => d@,
        None => match loaded {
            Some(c) => c.outdir@,
            None => DEFAULT_OUTDIR@,
        },
    }
}

/// Decide how a process captures, from the config file's contents (`None`
/// when it could not be loaded: the defaults apply), the output-directory
/// override, and the emitter's version: a capture needs a target name; it
/// writes under the (overridden) output directory and stamps the
/// `driftwatch` tool, that version, the target and `rust`.
pub fn capture_setup(loaded: Option<CaptureConfig>, outdir_override: Option<String>, tool_version: &str) -> (r: Result<CaptureSetup, SetupSkip>)
    ensures
        match r {
            Err(SetupSkip::NoTargetName) => loaded_target(loaded) is None,
            Ok(s) => {
                &&& loaded_target(loaded) == Some(s.target_name@)
                &&& s.config.outdir@ == outdir_of(loaded, outdir_override)
                &&& opt_str(s.config.target_name) == Some(s.target_name@)
                &&& opt_str(s.config.registry_version) == loaded_version(loaded)
                &&& s.config.format == loaded_format(loaded)
                &&& s.config.clean == loaded_clean(loaded)
                &&& s.resource@ == (ResourceShape {
                    tool_name: TOOL_NAME@,
                    tool_version: tool_version@,
                    target_name: s.target_name@,
                    target_language: TARGET_LANGUAGE@,
                })
                &&& s.trace_path@ == path_in(outdir_of(loaded, outdir_override), TRACE_FILE_NAME@)
                &&& s.registry_path@ == path_in(outdir_of(loaded, outdir_override), REGISTRY_FILE_NAME@)
            },
        },
{
    let base = match loaded {
        Some(c) => c,
        None => CaptureConfig::default(),
    };
    let config = base.with_outdir_override(outdir_override);
    let target_name = match &config.target_name {
        Some(t) => t.clone(),
        None => return Err(SetupSkip::NoTargetName),
    };
    let resource = Resource::new(
        String::from_str(TOOL_NAME),
        String::from_str(tool_version),
        target_name.clone(),
        String::from_str(TARGET_LANGUAGE),
    );
    let trace_path = join_path(config.outdir.as_str(), TRACE_FILE_NAME);
    let registry_path = join_path(config.outdir.as_str(), REGISTRY_FILE_NAME);
    Ok(CaptureSetup { config, target_name, resource, trace_path, registry_path })
}

/// The registry a process derives from its discovery metadata: none when
/// nothing was registered, else the derived document stamped with the
/// target name and the resolved registry version (`version_value`, the
/// version environment value, unless absent or empty; else the config key; else
/// the default).
pub fn derived_registry(
    ops: &[OpMeta],
    types: &[TypeMeta],
    target_name: &str,
    config: &CaptureConfig,
    version_value: Option<String>,
) -> (r: Option<RegistryDocument>)
    ensures
        (ops@.len() == 0 && types@.len() == 0) ==> r is None,
        !(ops@.len() == 0 && types@.len() == 0) ==> (r matches Some(d) && d@ == derived_document(
            ops@,
            types@,
            target_name@,
            resolved_version(nonempty(opt_str(version_value)), opt_str(config.registry_version)),
        )),
{
    if ops.len() == 0 && types.len() == 0 {
        return None;
    }
    let identity = RegistryIdentity {
        registry_id: String::from_str(target_name),
        version: config.resolve_registry_version(version_value),
    };
    Some(crate::extract::derive::derive(ops, types, identity))
}

/// The registry a process writes from resolved operations and types: none
/// when there are none, else the assembled document stamped with the target
/// name and `version`.
pub fn resolved_registry(
    ops: &[ResolvedOperation],
    types: &[ResolvedType],
    target_name: &str,
    version: String,
) -> (r: Option<RegistryDocument>)
    ensures
        (ops@.len() == 0 && types@.len() == 0) ==> r is None,
        !(ops@.len() == 0 && types@.len() == 0) ==> (r matches Some(d) && d@ == assembled_document(
            views_of(ops@),
            views_of(types@),
            target_name@,
            version@,
        )),
{
    if ops.len() == 0 && types.len() == 0 {
        return None;
    }
    Some(assemble(ops, types, String::from_str(target_name), version))
}

} // verus!
