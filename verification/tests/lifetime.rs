use squeak::lifetime::WithLifetime;

#[test]
fn produces_hands_on_the_produced_reference() {
    let r: &'static mut i32 = WithLifetime::<'static, i32>::produces(|| Box::leak(Box::new(41)));
    *r += 1;
    assert_eq!(*r, 42);
}

#[test]
fn consumes_leaves_the_value() {
    let mut v = vec![1, 2];
    WithLifetime::consumes(&mut v);
    assert_eq!(v, vec![1, 2]);
}
