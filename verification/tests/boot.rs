use squeak::boot::{boot_args, boot_phase2_action, choose_q, output_requests_scan, Phase2Action, QSource};

#[test]
fn boot_args_name_the_addresses_in_decimal() {
    assert_eq!(
        boot_args(4096, 7),
        vec!["-no-q", "--addr", "addr:4096", "--bts", "bts:7"]
    );
    assert_eq!(
        boot_args(0, u64::MAX),
        vec!["-no-q", "--addr", "addr:0", "--bts", "bts:18446744073709551615"]
    );
}

#[test]
fn sandbox_choice_follows_the_flag() {
    assert_eq!(choose_q(1000, 1, 0), QSource::Asm);
    assert_eq!(choose_q(1000, 2, 5), QSource::External(1024));
    assert_eq!(choose_q(1000, 2, 0), QSource::NoQ);
    assert_eq!(choose_q(1000, 0, 5), QSource::NoQ);
}

#[test]
fn phase2_hooks_or_sets_arguments() {
    assert_eq!(boot_phase2_action(true, false, 1, 2), Phase2Action::Nothing);
    assert_eq!(boot_phase2_action(false, false, 1, 2), Phase2Action::Nothing);
    assert_eq!(boot_phase2_action(true, true, 1, 2), Phase2Action::InstallHooks);
    assert_eq!(
        boot_phase2_action(false, true, 12, 34),
        Phase2Action::SetArgs(vec![
            "-no-q".to_string(),
            "--addr".to_string(),
            "addr:12".to_string(),
            "--bts".to_string(),
            "bts:34".to_string()
        ])
    );
}

#[test]
fn scan_marker_is_found_anywhere() {
    assert!(output_requests_scan("Fe2O3"));
    assert!(output_requests_scan("rust: Fe2O3 found"));
    assert!(output_requests_scan("xxFe2O3"));
    assert!(!output_requests_scan("Fe2O"));
    assert!(!output_requests_scan(""));
    assert!(!output_requests_scan("fe2o3 and Fe2 O3"));
    assert!(output_requests_scan("é Fe2O3"));
}
