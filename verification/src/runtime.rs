//! The WASM job runtime: job manifests, their validation, and the errors of a run.
use vstd::prelude::*;
use crate::text::{chars_of, decimal, push_decimal};

verus! {

/// Longest run that a manifest may ask for, in seconds.
pub const MAX_DURATION_SECS: u64 = 3600;
/// Fuel granted per second of allowed run time.
pub const FUEL_PER_SEC: u64 = 100_000;

/// Errors of the runtime.
#[derive(Debug)]
pub enum RuntimeError {
    InvalidManifest(String),
    Execution(String),
    Timeout(u64),
    ResourceLimit,
}

/// The message of a runtime error.
pub open spec fn runtime_error_message(e: RuntimeError) -> Seq<char> {
    match e {
        RuntimeError::InvalidManifest(m) => "manifest validation error: "@ + m@,
        RuntimeError::Execution(m) => "execution error: "@ + m@,
        RuntimeError::Timeout(s) => "timeout: exceeded "@ + decimal(s as nat) + "s"@,
        RuntimeError::ResourceLimit => "resource limit exceeded"@,
    }
}

impl RuntimeError {
    /// The error's message.
    pub fn to_string(&self) -> (s: String)
        ensures
            s@ == runtime_error_message(*self),
    {
        match self {
            RuntimeError::InvalidManifest(m) => {
                let mut s = "manifest validation error: ".to_owned();
                s.append(m.as_str());
                s
            },
            RuntimeError::Execution(m) => {
                let mut s = "execution error: ".to_owned();
                s.append(m.as_str());
                s
            },
            RuntimeError::Timeout(secs) => {
                let mut s = "timeout: exceeded ".to_owned();
                push_decimal(&mut s, *secs);
                s.append("s");
                s
            },
            RuntimeError::ResourceLimit => "resource limit exceeded".to_owned(),
        }
    }
}

/// What to run: a WASM image, its entry point and arguments, and the limits of the run.
#[derive(Debug)]
pub struct Manifest {
    pub image_cid: String,
    pub entrypoint: String,
    pub args: Vec<String>,
    pub max_duration_secs: u64,
    pub slots_required: u32,
}

/// The reason, if any, for which a manifest is refused, checked in this order: no image,
/// no entry point, a duration outside `1..=MAX_DURATION_SECS`.
pub open spec fn manifest_problem(image_cid: Seq<char>, entrypoint: Seq<char>, max_duration_secs: u64) -> Option<Seq<char>> {
    if image_cid.len() == 0 {
        Some("empty image_cid"@)
    } else if entrypoint.len() == 0 {
        Some("empty entrypoint"@)
    } else if max_duration_secs == 0 || max_duration_secs > MAX_DURATION_SECS {
        Some("max_duration out of range (1-3600)"@)
    } else {
        None
    }
}

/// How a started run ended.
#[derive(Debug)]
pub enum RunOutcome {
    /// The entry point returned.
    Finished,
    /// The entry point trapped or failed, with this message.
    Trapped(String),
    /// The task that ran it failed, with this message.
    TaskFailed(String),
    /// The run went past its time limit.
    TimedOut,
}

/// Runs WASM jobs with Wasmtime.
#[derive(Debug)]
pub struct WasmtimeRunner;

impl WasmtimeRunner {
    /// A runner.
    pub fn new() -> (r: WasmtimeRunner) {
        WasmtimeRunner
    }

    /// Checks that `manifest` can be run.
    pub fn validate(manifest: &Manifest) -> (r: Result<(), RuntimeError>)
        ensures
            match manifest_problem(manifest.image_cid@, manifest.entrypoint@, manifest.max_duration_secs) {
                Some(p) => r matches Err(RuntimeError::InvalidManifest(m)) && m@ == p,
                None => r is Ok,
            },
    {
        if manifest.image_cid.as_str().is_empty() {
            proof { reveal_strlit("empty image_cid"); }
            return Err(RuntimeError::InvalidManifest("empty image_cid".to_owned()));
        }
        if manifest.entrypoint.as_str().is_empty() {
            proof { reveal_strlit("empty entrypoint"); }
            return Err(RuntimeError::InvalidManifest("empty entrypoint".to_owned()));
        }
        if manifest.max_duration_secs == 0 || manifest.max_duration_secs > MAX_DURATION_SECS {
            proof { reveal_strlit("max_duration out of range (1-3600)"); }
            return Err(RuntimeError::InvalidManifest("max_duration out of range (1-3600)".to_owned()));
        }
        Ok(())
    }

    /// The fuel granted to a run of `max_duration_secs` seconds.
    pub fn fuel_budget(max_duration_secs: u64) -> (fuel: u64)
        requires
            max_duration_secs * FUEL_PER_SEC <= u64::MAX,
        ensures
            fuel == max_duration_secs * FUEL_PER_SEC,
    {
        max_duration_secs * FUEL_PER_SEC
    }

    /// Where a cached image with content id `cid` is looked up first: under
    /// `flovenet/wasm_cache` in the temporary directory `tmp`.
    pub fn cache_path(tmp: &str, cid: &str) -> (p: String)
        ensures
            p@ == tmp@ + (if tmp@.len() > 0 && tmp@.last() == '/' { Seq::<char>::empty() } else { "/"@ })
                + "flovenet/wasm_cache/"@ + cid@,
    {
        let mut p = tmp.to_owned();
        let chars = chars_of(tmp);
        if chars.len() == 0 || chars[chars.len() - 1] != '/' {
            p.append("/");
        }
        p.append("flovenet/wasm_cache/");
        p.append(cid);
        p
    }

    /// Where a locally built image with content id `cid` is looked up next.
    pub fn local_path(cid: &str) -> (p: String)
        ensures
            p@ == "wasm_images/target/wasm32-wasi/release/"@ + cid@ + ".wasm"@,
    {
        let mut p = "wasm_images/target/wasm32-wasi/release/".to_owned();
        p.append(cid);
        p.append(".wasm");
        p
    }

    /// The error for an image that could be read from neither place.
    pub fn load_error(cid: &str, detail: &str) -> (e: RuntimeError)
        ensures
            e matches RuntimeError::Execution(m) && m@ == "cannot load wasm image "@ + cid@ + ": "@ + detail@,
    {
        let mut m = "cannot load wasm image ".to_owned();
        m.append(cid);
        m.append(": ");
        m.append(detail);
        RuntimeError::Execution(m)
    }

    /// The error for bytes that are not a valid WASM module.
    pub fn invalid_wasm(detail: &str) -> (e: RuntimeError)
        ensures
            e matches RuntimeError::Execution(m) && m@ == "invalid wasm: "@ + detail@,
    {
        let mut m = "invalid wasm: ".to_owned();
        m.append(detail);
        RuntimeError::Execution(m)
    }

    /// The error for a module without the requested entry point nor `_start`.
    pub fn missing_entrypoint(detail: &str) -> (e: RuntimeError)
        ensures
            e matches RuntimeError::Execution(m) && m@ == "entrypoint not found: "@ + detail@,
    {
        let mut m = "entrypoint not found: ".to_owned();
        m.append(detail);
        RuntimeError::Execution(m)
    }

    /// The exit code of a run that ended with `outcome`, or its error.
    pub fn finish(outcome: RunOutcome, max_duration_secs: u64) -> (r: Result<i32, RuntimeError>)
        ensures
            match outcome {
                RunOutcome::Finished => r == Ok::<i32, RuntimeError>(0),
                RunOutcome::Trapped(m) => r matches Err(RuntimeError::Execution(e)) && e@ == m@,
                RunOutcome::TaskFailed(m) => r matches Err(RuntimeError::Execution(e)) && e@ == "task failed: "@ + m@,
                RunOutcome::TimedOut => r matches Err(RuntimeError::Timeout(s)) && s == max_duration_secs,
            },
    {
        match outcome {
            RunOutcome::Finished => Ok(0),
            RunOutcome::Trapped(m) => Err(RuntimeError::Execution(m)),
            RunOutcome::TaskFailed(m) => {
                let mut e = "task failed: ".to_owned();
                e.append(m.as_str());
                Err(RuntimeError::Execution(e))
            },
            RunOutcome::TimedOut => Err(RuntimeError::Timeout(max_duration_secs)),
        }
    }
}

impl Default for WasmtimeRunner {
    fn default() -> (r: WasmtimeRunner) {
        WasmtimeRunner::new()
    }
}

} // verus!
