//! Sandboxing through a `Q` and the hooks of a running Squeak image.
use std::marker::PhantomData;

use vstd::prelude::*;

verus! {

/// A sandbox that runs blocks under an instruction and can be left again.
pub trait Q {
    fn sandbox<F: FnOnce()>(&mut self, instruction: u8, block: F);

    fn pop_sandbox(&mut self);
}

/// The sandbox driven by the processor's own instructions.
pub struct AsmQ {}

/// The controls of a running Squeak image: how to kill it, how to hook into
/// it, and how to set its arguments.
pub struct SqueakRunning<Kill, AddHook, SetArgs> {
    kill: Kill,
    add_hook: AddHook,
    set_args: SetArgs,
}

/// The hook installed for a sandbox: it leaves every sandbox it is handed as
/// it was.  The hook accepts every sandbox and changes none.
pub fn sqs<M: Q>(mq1: &mut M) -> (r: impl Fn(&mut M))
    ensures
        *final(mq1) == *old(mq1),
        forall|m: &mut M| r.requires((m,)),
        forall|m: &mut M, u: ()| #[trigger] r.ensures((m,), u) ==> *final(m) == *m,
{
    |mq2: &mut M|
        ensures
            *final(mq2) == *old(mq2),
        {}
}

/// A secure enclave.
pub struct Enclave {}

/// Keyed storage of an enclave.
pub trait IEnclave {
    fn get_data(&self, key: u64) -> Vec<u64>;

    fn set_data(&mut self, key: u64, val: Vec<u64>);
}

/// A value held under a lifetime.
pub struct R<'l, T> {
    pub val: T,
    pub lifetime: PhantomData<&'l ()>,
}

} // verus!
