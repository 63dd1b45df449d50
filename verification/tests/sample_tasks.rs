//! The example tasks and the typed function handle.

use wasmworker::func::WebWorkerFn;
use wasmworker::samples::{sort, sort_vec, VecType};

#[test]
fn sort_orders_raw_bytes() {
    assert_eq!(sort(vec![8, 1, 5, 0, 4]), vec![0, 1, 4, 5, 8]);
    assert_eq!(sort(vec![]), vec![]);
    assert_eq!(sort(vec![7]), vec![7]);
    assert_eq!(sort(vec![5, 5, 1, 5]), vec![1, 5, 5, 5]);
}

#[test]
fn sort_vec_orders_the_wrapped_bytes() {
    let sorted = sort_vec(VecType(vec![8, 1, 5, 0, 4]));
    assert_eq!(sorted, VecType(vec![0, 1, 4, 5, 8]));
}

#[test]
fn function_handle_carries_the_registered_name() {
    let handle: WebWorkerFn<VecType, VecType> = WebWorkerFn::new_unchecked("sort_vec", sort_vec);
    assert_eq!(handle.name, "sort_vec");
    let copy = handle;
    assert_eq!(copy.name, handle.name);
}
