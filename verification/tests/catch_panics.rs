use squeak::catch_panics::{on_panic, Error};

#[test]
fn kernel_panics_are_unrecoverable() {
    assert!(matches!(on_panic(true, false, vec![Ok(())]), Err(Error::UnrecoverablePanic)));
}

#[test]
fn panics_recover_when_every_hook_succeeds() {
    assert!(on_panic(false, false, vec![Ok(()), Ok(())]).is_ok());
    assert!(on_panic(false, false, vec![]).is_ok());
}

#[test]
fn hook_failures_are_grouped_in_order() {
    let r = on_panic(
        false,
        false,
        vec![
            Err(Error::UnrecoverablePanic),
            Ok(()),
            Err(Error::GroupError(vec![])),
        ],
    );
    match r {
        Err(Error::GroupError(errs)) => {
            assert_eq!(errs.len(), 2);
            assert!(matches!(errs[0], Error::UnrecoverablePanic));
            assert!(matches!(errs[1], Error::GroupError(_)));
        }
        _ => panic!("expected grouped failures"),
    }
}

#[test]
fn booted_system_without_sandbox_cannot_recover() {
    assert!(matches!(on_panic(false, true, vec![Ok(())]), Err(Error::UnrecoverablePanic)));
    assert!(matches!(
        on_panic(false, true, vec![Err(Error::GroupError(vec![]))]),
        Err(Error::UnrecoverablePanic)
    ));
}
