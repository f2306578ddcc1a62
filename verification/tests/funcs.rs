use coral::funcs::NativeFunc;
use coral::types::{FuncType, ValueType};

fn func_1() {}
fn func_2(_a: u32) {}
fn func_3(_a: i32, _b: u64) {}
fn func_4() -> u64 {
    0
}
fn func_5() -> (i32, u64) {
    (0, 0)
}
fn func_6(_a: i32, _b: u32) -> (i32, i32, i32) {
    (0, 0, 0)
}

#[test]
fn native_func() {
    let f1 = NativeFunc::<(), ()>::new(func_1 as usize);
    let f2 = NativeFunc::<(u32,), ()>::new(func_2 as usize);
    let f3 = NativeFunc::<(i32, u64), ()>::new(func_3 as usize);
    let f4 = NativeFunc::<(), u64>::new(func_4 as usize);
    let f5 = NativeFunc::<(), (i32, u64)>::new(func_5 as usize);
    let f6 = NativeFunc::<(i32, u32), (i32, i32, i32)>::new(func_6 as usize);

    assert!(f1.ty().eq(&FuncType::new(vec![], vec![])));
    assert!(f2.ty().eq(&FuncType::new(vec![ValueType::I32], vec![])));
    assert!(f3
        .ty()
        .eq(&FuncType::new(vec![ValueType::I32, ValueType::I64], vec![])));
    assert!(f4.ty().eq(&FuncType::new(vec![], vec![ValueType::I64])));
    assert!(f5
        .ty()
        .eq(&FuncType::new(vec![], vec![ValueType::I32, ValueType::I64])));
    assert!(f6.ty().eq(&FuncType::new(
        vec![ValueType::I32, ValueType::I32],
        vec![ValueType::I32, ValueType::I32, ValueType::I32]
    )));
}

#[test]
fn native_func_ptr_is_kept() {
    let f = NativeFunc::<(u32,), u64>::new(0x1234);
    assert_eq!(f.ptr(), 0x1234);
    assert!(!f.ty().eq(&FuncType::new(vec![], vec![])));
}
