//! Runtime descriptions and the errors raised when a runtime cannot be used.

use vstd::prelude::*;

verus! {

/// Available runtime types for benchmarking.
#[derive(Debug, Clone, Copy, PartialEq, Eq, Structural)]
pub enum RuntimeType {
    /// Tokio multi-threaded runtime
    TokioMultiThread,
    /// Tokio single-threaded runtime
    TokioSingleThread,
    /// futures-lite minimal executor
    FuturesLite,
    /// Embassy async runtime
    Embassy,
}

impl RuntimeType {
    /// The variant's name, as `{:?}` prints it.
    pub fn debug_name(&self) -> (r: &'static str)
        ensures
            r@ == match self {
                RuntimeType::TokioMultiThread => "TokioMultiThread"@,
                RuntimeType::TokioSingleThread => "TokioSingleThread"@,
                RuntimeType::FuturesLite => "FuturesLite"@,
                RuntimeType::Embassy => "Embassy"@,
            },
    {
        match self {
            RuntimeType::TokioMultiThread => "TokioMultiThread",
            RuntimeType::TokioSingleThread => "TokioSingleThread",
            RuntimeType::FuturesLite => "FuturesLite",
            RuntimeType::Embassy => "Embassy",
        }
    }

    /// Worker thread count an executor of this type reports: the configured
    /// count for the multi-threaded Tokio runtime, none otherwise.
    pub fn reported_worker_threads(&self, configured: Option<usize>) -> (r: Option<usize>)
        ensures
            r == (if *self == RuntimeType::TokioMultiThread { configured } else { None }),
    {
        match self {
            RuntimeType::TokioMultiThread => configured,
            _ => None,
        }
    }
}

/// Runtime-specific errors of executor operations.
#[derive(Debug, Clone, PartialEq, Eq)]
pub enum RuntimeError {
    /// Embassy needs a spawner context and cannot be created directly
    EmbassyRequiresSpawner { message: String },
    /// Embassy executors do not support blocking operations
    EmbassyBlockingNotSupported { message: String },
    /// Tokio support is not enabled
    TokioNotEnabled { requested_runtime: RuntimeType, message: String },
}

/// Text of a `RuntimeError`.
pub open spec fn runtime_error_text(e: RuntimeError) -> Seq<char> {
    match e {
        RuntimeError::EmbassyRequiresSpawner { message } => "Embassy runtime configuration error: "@ + message@,
        RuntimeError::EmbassyBlockingNotSupported { message } => "Embassy blocking operation not supported: "@ + message@,
        RuntimeError::TokioNotEnabled { requested_runtime, message } => "Tokio runtime '"@ + debug_text(requested_runtime) + "' not available: "@ + message@,
    }
}

/// Name of a runtime type as `{:?}` prints it.
pub open spec fn debug_text(t: RuntimeType) -> Seq<char> {
    match t {
        RuntimeType::TokioMultiThread => "TokioMultiThread"@,
        RuntimeType::TokioSingleThread => "TokioSingleThread"@,
        RuntimeType::FuturesLite => "FuturesLite"@,
        RuntimeType::Embassy => "Embassy"@,
    }
}

impl RuntimeError {
    /// Human-readable description of the error.
    pub fn to_string(&self) -> (r: String)
        ensures
            r@ == runtime_error_text(*self),
    {
        match self {
            RuntimeError::EmbassyRequiresSpawner { message } => {
                String::from_str("Embassy runtime configuration error: ").concat(message.as_str())
            },
            RuntimeError::EmbassyBlockingNotSupported { message } => {
                String::from_str("Embassy blocking operation not supported: ").concat(message.as_str())
            },
            RuntimeError::TokioNotEnabled { requested_runtime, message } => {
                let s = String::from_str("Tokio runtime '").concat(requested_runtime.debug_name());
                let s = s.concat("' not available: ");
                let r = s.concat(message.as_str());
                proof {
                    assert(r@ =~= "Tokio runtime '"@ + debug_text(*requested_runtime) + "' not available: "@ + message@);
                }
                r
            },
        }
    }
}

/// The executor a benchmark runs on, with its settings.
#[derive(Debug, Clone, Copy, PartialEq, Eq, Structural)]
pub enum ExecutorPlan {
    /// A multi-threaded Tokio runtime, with the requested worker count if any.
    TokioMultiThread { worker_threads: Option<usize> },
    /// A current-thread Tokio runtime.
    TokioSingleThread,
    /// An `async-executor` driven by a background thread.
    FuturesLite,
}

/// Why an Embassy executor cannot be created without a spawner.
pub open spec fn spawner_required_text() -> Seq<char> {
    "Embassy runtime requires a spawner from an Embassy executor context. Embassy executors must be created within an Embassy runtime using embassy_executor::Spawner::new(). Consider using create_embassy_executor_with_spawner() instead."@
}

/// Why an Embassy executor cannot block.
pub open spec fn blocking_unsupported_text() -> Seq<char> {
    "Embassy executors are designed for embedded environments and don't support synchronous blocking operations. Use the Embassy executor's main function or spawn tasks instead."@
}

/// The executor to create for `runtime_type`: Tokio runtimes and the
/// futures-lite executor can be created directly; an Embassy executor needs
/// a spawner from an Embassy context, which is the error.
pub fn executor_plan(runtime_type: RuntimeType, worker_threads: Option<usize>) -> (r: Result<ExecutorPlan, RuntimeError>)
    ensures
        match runtime_type {
            RuntimeType::TokioMultiThread => r == Ok::<ExecutorPlan, RuntimeError>(ExecutorPlan::TokioMultiThread { worker_threads }),
            RuntimeType::TokioSingleThread => r == Ok::<ExecutorPlan, RuntimeError>(ExecutorPlan::TokioSingleThread),
            RuntimeType::FuturesLite => r == Ok::<ExecutorPlan, RuntimeError>(ExecutorPlan::FuturesLite),
            RuntimeType::Embassy => r matches Err(RuntimeError::EmbassyRequiresSpawner { message }) && message@ == spawner_required_text(),
        },
{
    match runtime_type {
        RuntimeType::TokioMultiThread => Ok(ExecutorPlan::TokioMultiThread { worker_threads }),
        RuntimeType::TokioSingleThread => Ok(ExecutorPlan::TokioSingleThread),
        RuntimeType::FuturesLite => Ok(ExecutorPlan::FuturesLite),
        RuntimeType::Embassy => Err(RuntimeError::EmbassyRequiresSpawner {
            message: String::from_str(
                "Embassy runtime requires a spawner from an Embassy executor context. Embassy executors must be created within an Embassy runtime using embassy_executor::Spawner::new(). Consider using create_embassy_executor_with_spawner() instead.",
            ),
        }),
    }
}

/// The error an Embassy executor raises when asked to block on a future.
pub fn blocking_unsupported_error() -> (r: RuntimeError)
    ensures
        r matches RuntimeError::EmbassyBlockingNotSupported { message } && message@ == blocking_unsupported_text(),
{
    RuntimeError::EmbassyBlockingNotSupported {
        message: String::from_str(
            "Embassy executors are designed for embedded environments and don't support synchronous blocking operations. Use the Embassy executor's main function or spawn tasks instead.",
        ),
    }
}

} // verus!
