use squeak::sandbox::{sqs, Q};
use squeak::secure::{NonSecure, Secure, SecureStruct};

#[derive(Debug, PartialEq, Clone)]
struct Recorder {
    entered: Vec<u8>,
}

impl Q for Recorder {
    fn sandbox<F: FnOnce()>(&mut self, instruction: u8, block: F) {
        self.entered.push(instruction);
        block();
    }

    fn pop_sandbox(&mut self) {
        self.entered.pop();
    }
}

#[test]
fn sqs_hook_leaves_sandboxes_alone() {
    let mut q1 = Recorder { entered: vec![1] };
    let hook = sqs(&mut q1);
    let mut q2 = Recorder { entered: vec![2, 3] };
    hook(&mut q2);
    assert_eq!(q2, Recorder { entered: vec![2, 3] });
    assert_eq!(q1, Recorder { entered: vec![1] });
}

fn is_secure<T: Secure>() -> bool {
    true
}

#[test]
fn secure_markers_compose() {
    assert!(is_secure::<SecureStruct<u8>>());
    assert!(is_secure::<&SecureStruct<u8>>());
    assert!(is_secure::<Vec<&SecureStruct<u8>>>());
    assert!(is_secure::<(SecureStruct<u8>, std::rc::Rc<SecureStruct<i32>>)>());
    assert!(is_secure::<std::cell::RefCell<SecureStruct<u8>>>());
    assert!(is_secure::<Result<SecureStruct<u8>, NonSecure<u8>>>());
}
