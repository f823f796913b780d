use flovenet::runtime::{Manifest, RunOutcome, RuntimeError, WasmtimeRunner};

#[test]
fn test_error_display_invalid_manifest() {
    let e = RuntimeError::InvalidManifest("empty image_cid".into());
    assert_eq!(e.to_string(), "manifest validation error: empty image_cid");
}

#[test]
fn test_error_display_execution() {
    let e = RuntimeError::Execution("wasm error".into());
    assert_eq!(e.to_string(), "execution error: wasm error");
}

#[test]
fn test_error_display_timeout() {
    let e = RuntimeError::Timeout(60);
    assert_eq!(e.to_string(), "timeout: exceeded 60s");
}

#[test]
fn test_error_display_resource_limit() {
    let e = RuntimeError::ResourceLimit;
    assert_eq!(e.to_string(), "resource limit exceeded");
}

#[test]
fn test_error_debug() {
    let e = RuntimeError::Execution("test".into());
    assert!(format!("{e:?}").contains("Execution"));
}

fn manifest(image: &str, entry: &str, secs: u64) -> Manifest {
    Manifest {
        image_cid: image.to_string(),
        entrypoint: entry.to_string(),
        args: vec![],
        max_duration_secs: secs,
        slots_required: 1,
    }
}

fn invalid_message(r: Result<(), RuntimeError>) -> String {
    match r {
        Err(RuntimeError::InvalidManifest(m)) => m,
        other => panic!("expected an invalid manifest, got {other:?}"),
    }
}

#[test]
fn validate_rejects_empty_image() {
    let m = manifest("", "_start", 10);
    assert_eq!(invalid_message(WasmtimeRunner::validate(&m)), "empty image_cid");
}

#[test]
fn validate_rejects_empty_entrypoint() {
    let m = manifest("img", "", 10);
    assert_eq!(invalid_message(WasmtimeRunner::validate(&m)), "empty entrypoint");
}

#[test]
fn validate_checks_duration_bounds() {
    assert_eq!(
        invalid_message(WasmtimeRunner::validate(&manifest("img", "run", 0))),
        "max_duration out of range (1-3600)"
    );
    assert_eq!(
        invalid_message(WasmtimeRunner::validate(&manifest("img", "run", 3601))),
        "max_duration out of range (1-3600)"
    );
    assert!(WasmtimeRunner::validate(&manifest("img", "run", 1)).is_ok());
    assert!(WasmtimeRunner::validate(&manifest("img", "run", 3600)).is_ok());
}

#[test]
fn validate_checks_image_before_entrypoint() {
    let m = manifest("", "", 0);
    assert_eq!(invalid_message(WasmtimeRunner::validate(&m)), "empty image_cid");
}

#[test]
fn fuel_budget_is_hundred_thousand_per_second() {
    assert_eq!(WasmtimeRunner::fuel_budget(60), 6_000_000);
    assert_eq!(WasmtimeRunner::fuel_budget(3600), 360_000_000);
}

#[test]
fn image_paths() {
    assert_eq!(WasmtimeRunner::cache_path("/tmp", "abc"), "/tmp/flovenet/wasm_cache/abc");
    assert_eq!(WasmtimeRunner::cache_path("/var/tmp/", "abc"), "/var/tmp/flovenet/wasm_cache/abc");
    assert_eq!(WasmtimeRunner::cache_path("", "x"), "/flovenet/wasm_cache/x");
    assert_eq!(WasmtimeRunner::local_path("abc"), "wasm_images/target/wasm32-wasi/release/abc.wasm");
    assert_eq!(
        WasmtimeRunner::load_error("abc", "not found").to_string(),
        "execution error: cannot load wasm image abc: not found"
    );
    assert_eq!(WasmtimeRunner::invalid_wasm("bad magic").to_string(), "execution error: invalid wasm: bad magic");
    assert_eq!(
        WasmtimeRunner::missing_entrypoint("no export").to_string(),
        "execution error: entrypoint not found: no export"
    );
}

#[test]
fn finish_maps_outcomes() {
    assert_eq!(WasmtimeRunner::finish(RunOutcome::Finished, 5).unwrap(), 0);
    match WasmtimeRunner::finish(RunOutcome::TimedOut, 5) {
        Err(RuntimeError::Timeout(s)) => assert_eq!(s, 5),
        other => panic!("unexpected {other:?}"),
    }
    match WasmtimeRunner::finish(RunOutcome::TaskFailed("join".into()), 5) {
        Err(e) => assert_eq!(e.to_string(), "execution error: task failed: join"),
        Ok(_) => panic!("expected an error"),
    }
    match WasmtimeRunner::finish(RunOutcome::Trapped("unreachable".into()), 5) {
        Err(e) => assert_eq!(e.to_string(), "execution error: unreachable"),
        Ok(_) => panic!("expected an error"),
    }
}

#[test]
fn timeout_message_renders_large_numbers() {
    assert_eq!(RuntimeError::Timeout(0).to_string(), "timeout: exceeded 0s");
    assert_eq!(RuntimeError::Timeout(18446744073709551615).to_string(), "timeout: exceeded 18446744073709551615s");
}
