//! The body of a job.

use vstd::prelude::*;

verus! {

/// Something that can be executed each time its schedule fires. The runtime
/// gives the body exclusive access for the length of one execution and never
/// looks at what it did.
pub trait Job: Send + Sync + 'static {
    /// Executes the body once, to completion.
    fn run(&mut self);
}

/// Calls a plain function or closure once, through `Fn::call`. Where the
/// callee accepts a call without arguments, the call that was made is one of
/// those that the callee's own contract describes; of any other callee
/// nothing is claimed.
#[verifier::external_body]
fn call_plain<F: Fn()>(body: &F) -> (done: ())
    ensures
        call_requires(*body, ()) ==> call_ensures(*body, (), done),
{
    body()
}

/// Any plain function or closure without arguments is a job: one execution
/// of the job is one call of it, which leaves the callable itself as it was.
impl<T> Job for T where T: Send + Sync + 'static + Fn() {
    fn run(&mut self)
        ensures
            call_requires(*old(self), ()) ==> call_ensures(*old(self), (), ()),
            *final(self) == *old(self),
    {
        call_plain(&*self)
    }
}

} // verus!
