//! What the command that asks a proving backend for a proof decides by
//! itself: the arguments that it hands to the backend, and what the
//! backend's exit code means.

use vstd::prelude::*;

verus! {

/// The backend ended with an exit code that reports a failure.
#[derive(Clone, Copy, Debug, PartialEq, Eq)]
pub struct BackendFailure {
    pub code: i32,
}

/// The arguments for the backend: the name of its proving command, then
/// what the user passed through.
pub fn backend_arguments(raw_pass_through: Vec<String>) -> (arguments: Vec<String>)
    ensures
        arguments@.len() == raw_pass_through@.len() + 1,
        arguments@[0]@ == "prove"@,
        arguments@.subrange(1, arguments@.len() as int) == raw_pass_through@,
{
    let ghost passed = raw_pass_through@;
    let mut raw_pass_through = raw_pass_through;
    let mut arguments: Vec<String> = Vec::new();
    arguments.push("prove".to_string());
    arguments.append(&mut raw_pass_through);
    assert(arguments@.subrange(1, arguments@.len() as int) =~= passed);
    arguments
}

/// What the exit code of the backend means: a code above zero is a failure,
/// any other code is handed on.
pub fn exit_code_result(code: i32) -> (result: Result<i32, BackendFailure>)
    ensures
        code > 0 ==> result == Err::<i32, BackendFailure>(BackendFailure { code }),
        code <= 0 ==> result == Ok::<i32, BackendFailure>(code),
{
    if code > 0 {
        Err(BackendFailure { code })
    } else {
        Ok(code)
    }
}

} // verus!
