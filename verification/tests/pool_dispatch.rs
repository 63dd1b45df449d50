//! The worker pool: dispatching across units, pool-wide load reporting,
//! and the pool options.

use wasmworker::convert::{from_bytes, to_bytes};
use wasmworker::pool::scheduler::Strategy;
use wasmworker::pool::{WebWorkerPool, WorkerPoolOptions};
use wasmworker::samples::sort;
use wasmworker::webworker::com::Response;
use wasmworker::webworker::worker::Delivery;

fn simulated_answer(request_arg: &[u8]) -> Vec<u8> {
    to_bytes(&sort(from_bytes(request_arg)))
}

#[test]
fn can_schedule_task() {
    let mut pool = WebWorkerPool::new(2, Strategy::RoundRobin);
    assert_eq!(pool.num_workers(), 2);

    let (worker_id, request) = pool.dispatch("sort", vec![8, 1, 5, 0, 4]);
    assert_eq!(worker_id, 0);
    assert_eq!(pool.current_load(), 1);

    let answer = simulated_answer(&request.arg);
    let delivery = pool.on_response(worker_id, Response { id: request.id, response: Some(answer) });
    match delivery {
        Delivery::Delivered(Ok(payload)) => assert_eq!(from_bytes(&payload), vec![0, 1, 4, 5, 8]),
        other => panic!("expected a delivered result, got {:?}", other),
    }
    assert_eq!(pool.current_load(), 0);
}

#[test]
fn round_robin_pool_assigns_cyclically() {
    let mut pool = WebWorkerPool::new(3, Strategy::RoundRobin);
    let mut picked = Vec::new();
    for i in 0..6u8 {
        let (worker_id, _request) = pool.dispatch("sort", vec![i]);
        picked.push(worker_id);
    }
    assert_eq!(picked, vec![0, 1, 2, 0, 1, 2]);
    assert_eq!(pool.current_load(), 6);
}

#[test]
fn load_based_pool_prefers_the_idle_unit() {
    let mut pool = WebWorkerPool::new(2, Strategy::LoadBased);
    // Three calls, none answered: loads 0,0 -> unit 0; 1,0 -> unit 1; 1,1 -> unit 0.
    let (first, _) = pool.dispatch("sort", vec![1]);
    let (second, _) = pool.dispatch("sort", vec![2]);
    let (third, _) = pool.dispatch("sort", vec![3]);
    assert_eq!((first, second, third), (0, 1, 0));
}

#[test]
fn responses_are_routed_to_their_own_unit() {
    let mut pool = WebWorkerPool::new(2, Strategy::RoundRobin);
    let (w0, r0) = pool.dispatch("sort", vec![4, 2]);
    let (w1, r1) = pool.dispatch("sort", vec![9, 5]);
    assert_ne!(w0, w1);
    // Both units assigned id 0 independently; correlation is per unit.
    assert_eq!(r0.id, r1.id);

    let delivery = pool.on_response(w1, Response {
        id: r1.id,
        response: Some(simulated_answer(&r1.arg)),
    });
    match delivery {
        Delivery::Delivered(Ok(payload)) => assert_eq!(from_bytes(&payload), vec![5, 9]),
        other => panic!("expected a delivered result, got {:?}", other),
    }
    // Unit 0's call is still pending.
    assert_eq!(pool.current_load(), 1);
}

#[test]
fn options_fall_back_to_defaults() {
    let options = WorkerPoolOptions::new();
    assert!(options.path().is_none());
    assert_eq!(options.strategy(), Strategy::RoundRobin);
    assert_eq!(options.num_workers(8), 8);

    let options = WorkerPoolOptions {
        path: Some(String::from("./pkg/app.js")),
        strategy: Some(Strategy::LoadBased),
        num_workers: Some(2),
    };
    assert_eq!(options.path(), Some("./pkg/app.js"));
    assert_eq!(options.strategy(), Strategy::LoadBased);
    assert_eq!(options.num_workers(8), 2);
}
