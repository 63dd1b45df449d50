//! The fan-out helper: results come back in input order, whatever unit
//! handled which element and whatever order the responses arrive in.

use wasmworker::convert::{from_bytes, to_bytes};
use wasmworker::pool::scheduler::Strategy;
use wasmworker::pool::WebWorkerPool;
use wasmworker::samples::sort;
use wasmworker::webworker::com::Response;
use wasmworker::webworker::worker::Delivery;

fn simulated_answer(request_arg: &[u8]) -> Vec<u8> {
    to_bytes(&sort(from_bytes(request_arg)))
}

#[test]
fn fan_out_preserves_input_order() {
    let mut pool = WebWorkerPool::new(3, Strategy::RoundRobin);
    let inputs = vec![vec![8u8, 1, 5, 0, 4], vec![8u8, 2, 5, 0, 4]];

    let (mut fan, requests) = pool.submit_all("sort", inputs);
    assert_eq!(fan.num_calls(), 2);
    assert!(!fan.is_complete());

    // Deliver the responses in reverse order.
    for (worker_id, request) in requests.iter().rev() {
        let answer = simulated_answer(&request.arg);
        let delivery = pool.on_response(
            *worker_id,
            Response { id: request.id, response: Some(answer) },
        );
        match delivery {
            Delivery::Delivered(Ok(payload)) => {
                assert!(fan.record(*worker_id, request.id, payload));
            }
            other => panic!("expected a delivered result, got {:?}", other),
        }
    }

    assert!(fan.is_complete());
    let outputs: Vec<Vec<u8>> = fan.take_results().iter().map(|p| from_bytes(p)).collect();
    assert_eq!(outputs, vec![vec![0u8, 1, 4, 5, 8], vec![0u8, 2, 4, 5, 8]]);
}

#[test]
fn fan_out_spreads_calls_across_the_pool() {
    let mut pool = WebWorkerPool::new(3, Strategy::RoundRobin);
    let inputs: Vec<Vec<u8>> = (0..6u8).map(|i| vec![i]).collect();
    let (fan, requests) = pool.submit_all("sort", inputs);
    assert_eq!(fan.num_calls(), 6);
    let units: Vec<usize> = requests.iter().map(|(w, _)| *w).collect();
    assert_eq!(units, vec![0, 1, 2, 0, 1, 2]);
    assert_eq!(pool.current_load(), 6);
}

#[test]
fn empty_fan_out_is_complete_immediately() {
    let mut pool = WebWorkerPool::new(2, Strategy::RoundRobin);
    let (fan, requests) = pool.submit_all("sort", vec![]);
    assert!(requests.is_empty());
    assert!(fan.is_complete());
    assert!(fan.take_results().is_empty());
    assert_eq!(pool.current_load(), 0);
}

#[test]
fn recording_an_unknown_call_changes_nothing() {
    let mut pool = WebWorkerPool::new(2, Strategy::RoundRobin);
    let (mut fan, requests) = pool.submit_all("sort", vec![vec![3u8, 1]]);
    assert!(!fan.record(1, 999, vec![0]));
    let (worker_id, request) = &requests[0];
    assert!(fan.record(*worker_id, request.id, simulated_answer(&request.arg)));
    // A duplicate response finds no open slot.
    assert!(!fan.record(*worker_id, request.id, vec![0]));
    assert!(fan.is_complete());
}
