//! Running a future to its end from code that is not itself asynchronous.

use std::future::Future;
use tokio::runtime::Runtime;
use vstd::future::*;
use vstd::prelude::*;

verus! {

#[verifier::external_type_specification]
#[verifier::external_body]
pub struct ExRuntime(tokio::runtime::Runtime);

/// Drives `future` on `runtime` unless the calling thread is inside a
/// runtime already.
///
/// Trusted: `tokio::runtime::Runtime::block_on` drives the future on the
/// calling thread until it is done and hands back its output; it panics where
/// it is called from a thread that is inside a runtime. So it is called only
/// where `tokio::runtime::Handle::try_current` finds no runtime on the
/// calling thread, and `None` is handed back where it finds one. Whether it
/// finds one depends on the caller's thread, so nothing is claimed of when
/// the result is `Some`. A future that panics takes the call with it.
#[verifier::external_body]
fn block_on_from_outside<F: Future>(runtime: &Runtime, future: F) -> (output: Option<F::Output>)
    ensures
        match output {
            Some(value) => value == future@,
            None => true,
        },
{
    match tokio::runtime::Handle::try_current() {
        Ok(_) => None,
        Err(_) => Some(runtime.block_on(future)),
    }
}

/// Runs `future` to its end on `runtime`, blocking the calling thread, and
/// hands back what the future came to. It is for callers outside
/// asynchronous code: called from inside a runtime it runs nothing and hands
/// back `None`, since blocking there would not end.
pub fn tokio_run<F: Future>(runtime: &Runtime, future: F) -> (output: Option<F::Output>)
    ensures
        match output {
            Some(value) => value == future@,
            None => true,
        },
{
    block_on_from_outside(runtime, future)
}

} // verus!
