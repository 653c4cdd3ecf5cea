//! What a panic turns into: kernel panics cannot be recovered; elsewhere the
//! panic hooks run and their failures are reported together.
use vstd::prelude::*;

verus! {

/// The failure a panic handler reports.
#[derive(Debug)]
pub enum Error {
    /// The panic happened in the kernel and nothing can recover from it.
    UnrecoverablePanic,
    /// The failures of the panic hooks, in hook order.
    GroupError(Vec<Error>),
}

/// The failures among the hook results, in order.
pub open spec fn hook_failures(results: Seq<Result<(), Error>>) -> Seq<Error>
    decreases results.len(),
{
    if results.len() == 0 {
        Seq::empty()
    } else {
        let rest = hook_failures(results.drop_last());
        match results.last() {
            Ok(()) => rest,
            Err(e) => rest.push(e),
        }
    }
}

/// The outcome of a panic: in the kernel it is unrecoverable and no hook runs.
/// Otherwise the hooks run; on a booted system without a sandbox the panic is
/// then unrecoverable all the same.  Elsewhere it is recovered when every hook
/// succeeded, and reported as the group of the hooks' failures when some
/// failed.  `unsandboxed_boot` tells whether the system was booted and runs
/// without a sandbox.
pub fn on_panic(is_kernel: bool, unsandboxed_boot: bool, hook_results: Vec<Result<(), Error>>) -> (r:
    Result<(), Error>)
    ensures
        is_kernel || unsandboxed_boot ==> r matches Err(Error::UnrecoverablePanic),
        !is_kernel && !unsandboxed_boot && hook_failures(hook_results@).len() == 0 ==> r is Ok,
        !is_kernel && !unsandboxed_boot && hook_failures(hook_results@).len() > 0 ==> (r matches Err(
            Error::GroupError(errs),
        ) && errs@ == hook_failures(hook_results@)),
{
    if is_kernel || unsandboxed_boot {
        return Err(Error::UnrecoverablePanic);
    }
    let mut results = hook_results;
    let ghost all = results@;
    // Failures in reverse hook order, as the results are taken from the back.
    let mut backwards: Vec<Error> = Vec::new();
    while results.len() > 0
        invariant
            hook_failures(all) == hook_failures(results@) + backwards@.reverse(),
        decreases results.len(),
    {
        let ghost before = results@;
        let ghost old_back = backwards@;
        let r = results.pop().unwrap();
        assert(before.drop_last() == results@);
        match r {
            Ok(()) => {},
            Err(e) => {
                backwards.push(e);
                assert(old_back.push(e).reverse() =~= seq![e] + old_back.reverse());
                assert(hook_failures(before) == hook_failures(results@).push(e));
                assert(hook_failures(all) =~= hook_failures(results@) + backwards@.reverse());
            },
        }
    }
    assert(results@ =~= Seq::<Result<(), Error>>::empty());
    assert(hook_failures(all) =~= backwards@.reverse());
    if backwards.len() == 0 {
        return Ok(());
    }
    let ghost target = backwards@.reverse();
    let mut errs: Vec<Error> = Vec::new();
    while backwards.len() > 0
        invariant
            target == errs@ + backwards@.reverse(),
        decreases backwards.len(),
    {
        let ghost before = backwards@;
        let e = backwards.pop().unwrap();
        assert(before =~= backwards@.push(e));
        assert(before.reverse() =~= seq![e] + backwards@.reverse());
        errs.push(e);
        assert(target =~= errs@ + backwards@.reverse());
    }
    assert(errs@ =~= target);
    Err(Error::GroupError(errs))
}

} // verus!
