use vstd::prelude::*;
use crate::log::LogStream;

verus! {

/// An error handed back to the caller of a tool call, as text.
#[derive(Debug, PartialEq, Eq)]
pub enum FunctionCallError {
    RespondToModel(String),
}

/// What the process-spawning collaborator can fail with.
#[derive(Debug, PartialEq, Eq)]
pub enum ExecError {
    /// A failure already in the caller-facing form, passed on as it is.
    Function(FunctionCallError),
    /// Any other failure, as its diagnostic rendering.
    Codex(String),
}

/// Passes a caller-facing failure on verbatim and wraps any other one.
pub fn error_to_function_call(err: ExecError) -> (r: FunctionCallError)
    ensures
        match err {
            ExecError::Function(inner) => r == inner,
            ExecError::Codex(detail) => r matches FunctionCallError::RespondToModel(m) && m@
                == "execution error: "@ + detail@,
        },
{
    match err {
        ExecError::Function(inner) => inner,
        ExecError::Codex(detail) => {
            let prefix = "execution error: ";
            FunctionCallError::RespondToModel(prefix.to_owned().concat(detail.as_str()))
        },
    }
}

/// The error for a process identifier that is not registered.
pub fn unknown_process_error(process_id: &String) -> (r: FunctionCallError)
    ensures
        r matches FunctionCallError::RespondToModel(m) && m@ == "unknown background process: "@
            + process_id@,
{
    let prefix = "unknown background process: ";
    FunctionCallError::RespondToModel(prefix.to_owned().concat(process_id.as_str()))
}

/// The error for a child whose output stream could not be captured.
pub fn capture_error(stream: LogStream) -> (r: FunctionCallError)
    ensures
        r matches FunctionCallError::RespondToModel(m) && m@ == "failed to capture "@
            + stream.spec_name(),
{
    let prefix = "failed to capture ";
    FunctionCallError::RespondToModel(prefix.to_owned().concat(stream.as_str()))
}

/// A failed request to terminate a child.
#[derive(Debug, PartialEq, Eq)]
pub struct StartKillError {
    /// The request was refused as invalid: there was nothing left to kill.
    pub invalid_input: bool,
    pub message: String,
}

/// The caller-facing result of a termination request. Finding nothing to
/// kill is success; any other failure is reported with its message.
pub fn kill_result(result: Result<(), StartKillError>) -> (r: Result<(), FunctionCallError>)
    ensures
        match result {
            Ok(()) => r is Ok,
            Err(e) => if e.invalid_input {
                r is Ok
            } else {
                r == Err::<(), FunctionCallError>(FunctionCallError::RespondToModel(e.message))
            },
        },
{
    match result {
        Ok(()) => Ok(()),
        Err(e) => {
            if e.invalid_input {
                Ok(())
            } else {
                Err(FunctionCallError::RespondToModel(e.message))
            }
        },
    }
}

} // verus!
