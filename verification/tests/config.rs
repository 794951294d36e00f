use driftwatch::artifact::capture::OtlpFormat;
use driftwatch::artifact::config::{
    resolve_version, CaptureConfig, RawConfig, RawFormat, RawRegistry, RawTarget,
    DEFAULT_OUTDIR,
};

fn raw_with_outdir(outdir: &str) -> RawConfig {
    RawConfig {
        outdir: Some(outdir.to_string()),
        format: None,
        clean: None,
        target: None,
        registry: None,
    }
}

#[test]
fn registry_version_when_unset_resolves_to_default() {
    let version = resolve_version(None, None);
    assert_eq!(version, "0.0.0-dev");
}

#[test]
fn registry_version_config_wins_over_default() {
    let version = resolve_version(None, Some("1.2.3".to_string()));
    assert_eq!(version, "1.2.3");
}

#[test]
fn registry_version_env_wins_over_config() {
    let version = resolve_version(Some("9.9.9".to_string()), Some("1.2.3".to_string()));
    assert_eq!(version, "9.9.9");
}

#[test]
fn outdir_override_when_present_wins_over_config() {
    let config = CaptureConfig::from_raw(raw_with_outdir("from-file"))
        .with_outdir_override(Some("from-env".to_string()));
    assert_eq!(config.outdir, "from-env");
}

#[test]
fn outdir_override_when_absent_keeps_config() {
    let config = CaptureConfig::from_raw(raw_with_outdir("from-file")).with_outdir_override(None);
    assert_eq!(config.outdir, "from-file");
}

#[test]
fn empty_raw_config_is_all_defaults() {
    let raw = RawConfig { outdir: None, format: None, clean: None, target: None, registry: None };
    let config = CaptureConfig::from_raw(raw);
    assert_eq!(config, CaptureConfig::default());
    assert_eq!(config.outdir, DEFAULT_OUTDIR);
    assert_eq!(config.format, OtlpFormat::Jsonl);
    assert!(!config.clean);
}

#[test]
fn raw_keys_are_carried_into_the_config() {
    let raw = RawConfig {
        outdir: Some("artifacts/dw".to_string()),
        format: Some(RawFormat::Json),
        clean: Some(true),
        target: Some(RawTarget { name: Some("order-pricing".to_string()) }),
        registry: Some(RawRegistry { version: Some("2.1.0".to_string()) }),
    };
    let config = CaptureConfig::from_raw(raw);
    assert_eq!(config.outdir, "artifacts/dw");
    assert_eq!(config.format, OtlpFormat::Json);
    assert!(config.clean);
    assert_eq!(config.target_name.as_deref(), Some("order-pricing"));
    assert_eq!(config.registry_version.as_deref(), Some("2.1.0"));
}

#[test]
fn jsonl_format_maps_to_jsonl() {
    assert_eq!(RawFormat::Jsonl.into_otlp(), OtlpFormat::Jsonl);
    assert_eq!(RawFormat::Json.into_otlp(), OtlpFormat::Json);
}

#[test]
fn registry_version_resolution_uses_the_config_key() {
    let raw = RawConfig {
        outdir: None,
        format: None,
        clean: None,
        target: None,
        registry: Some(RawRegistry { version: Some("1.2.3".to_string()) }),
    };
    let config = CaptureConfig::from_raw(raw);
    assert_eq!(config.resolve_registry_version(None), "1.2.3");
    assert_eq!(config.resolve_registry_version(Some("9.9.9".to_string())), "9.9.9");
    assert_eq!(CaptureConfig::default().resolve_registry_version(None), "0.0.0-dev");
}

use driftwatch::artifact::resource::Resource;
use driftwatch::emission::{capture_setup, derived_registry, join_path, resolved_registry, SetupSkip};

fn named_config(target: Option<&str>, outdir: &str) -> CaptureConfig {
    CaptureConfig::from_raw(RawConfig {
        outdir: Some(outdir.to_string()),
        format: None,
        clean: Some(true),
        target: Some(RawTarget { name: target.map(str::to_string) }),
        registry: None,
    })
}

#[test]
fn capture_needs_a_target_name() {
    assert_eq!(capture_setup(None, None, "1.0.0").unwrap_err(), SetupSkip::NoTargetName);
    assert_eq!(
        capture_setup(Some(named_config(None, "out")), None, "1.0.0").unwrap_err(),
        SetupSkip::NoTargetName
    );
}

#[test]
fn capture_writes_under_the_overridden_outdir() {
    let setup = capture_setup(Some(named_config(Some("order-pricing"), "out")), Some("env-out/".to_string()), "2.0.0")
        .unwrap();
    assert_eq!(setup.target_name, "order-pricing");
    assert_eq!(setup.config.outdir, "env-out/");
    assert!(setup.config.clean);
    assert_eq!(setup.trace_path, "env-out/trace.otlp.jsonl");
    assert_eq!(setup.registry_path, "env-out/registry.json");
    assert_eq!(
        setup.resource,
        Resource::new("driftwatch".to_string(), "2.0.0".to_string(), "order-pricing".to_string(), "rust".to_string())
    );
    let setup = capture_setup(Some(named_config(Some("t"), "out")), None, "v").unwrap();
    assert_eq!(setup.trace_path, "out/trace.otlp.jsonl");
    assert_eq!(join_path("", "x"), "x");
}

#[test]
fn registries_are_written_only_when_something_was_registered() {
    let config = CaptureConfig::default();
    assert!(derived_registry(&[], &[], "t", &config, None).is_none());
    assert!(resolved_registry(&[], &[], "t", "1".to_string()).is_none());
    let op = driftwatch::extract::derive::OpMeta {
        name: "f".to_string(),
        module: "m".to_string(),
        fn_name: "f".to_string(),
        is_setup: false,
        is_async: false,
        params: Vec::new(),
        return_type: "()".to_string(),
        fills: String::new(),
        component: "c".to_string(),
    };
    let doc = derived_registry(&[op], &[], "target", &config, Some("9.9.9".to_string())).unwrap();
    assert_eq!(doc.registry_id, "target");
    assert_eq!(doc.version, "9.9.9");
    assert_eq!(doc.components[0].id, "c");
}

#[test]
fn an_empty_version_value_is_treated_as_absent() {
    assert_eq!(CaptureConfig::version_override(Some(String::new())), None);
    assert_eq!(CaptureConfig::version_override(Some("2.0".to_string())), Some("2.0".to_string()));
    assert_eq!(CaptureConfig::version_override(None), None);
    assert_eq!(CaptureConfig::default().resolve_registry_version(Some(String::new())), "0.0.0-dev");
    let config = CaptureConfig::from_raw(RawConfig {
        outdir: None,
        format: None,
        clean: None,
        target: None,
        registry: Some(RawRegistry { version: Some("1.2.3".to_string()) }),
    });
    assert_eq!(config.resolve_registry_version(Some(String::new())), "1.2.3");
    let op = driftwatch::extract::derive::OpMeta {
        name: "f".to_string(),
        module: "m".to_string(),
        fn_name: "f".to_string(),
        is_setup: false,
        is_async: false,
        params: Vec::new(),
        return_type: "()".to_string(),
        fills: String::new(),
        component: "c".to_string(),
    };
    let doc = derived_registry(&[op], &[], "target", &config, Some(String::new())).unwrap();
    assert_eq!(doc.version, "1.2.3");
}
