use std::sync::Arc;

#[test]
fn test() {
    let a1 = Arc::new("123");
    let a2 = Arc::downgrade(&a1);
    println!("{}", Arc::strong_count(&a1));
    {
        let _a3 = a2.upgrade().unwrap();
    }
    println!("{}", Arc::strong_count(&a1));
}
