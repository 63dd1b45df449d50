//! One execution unit: correlation of out-of-order responses, capacity
//! enforcement, cancellation, late responses, and teardown.

use wasmworker::convert::{from_bytes, to_bytes};
use wasmworker::error::Full;
use wasmworker::samples::sort;
use wasmworker::webworker::com::Response;
use wasmworker::webworker::worker::{CallError, Delivery, WebWorker};

/// What the isolated unit would answer: decode the request's payload, sort
/// it, and frame the result.
fn simulated_answer(request_arg: &[u8]) -> Vec<u8> {
    let decoded = from_bytes(request_arg);
    to_bytes(&sort(decoded))
}

#[test]
fn can_run_task() {
    let mut worker = WebWorker::new(None);
    let request = worker.submit("sort", vec![8, 1, 5, 0, 4]);
    assert_eq!(worker.current_load(), 1);

    let answer = simulated_answer(&request.arg);
    let delivery = worker.on_response(Response { id: request.id, response: Some(answer) });
    match delivery {
        Delivery::Delivered(Ok(payload)) => {
            assert_eq!(from_bytes(&payload), vec![0, 1, 4, 5, 8]);
        }
        other => panic!("expected a delivered result, got {:?}", other),
    }
    assert_eq!(worker.current_load(), 0);
}

#[test]
fn correlates_responses_delivered_in_any_order() {
    let mut worker = WebWorker::new(None);
    let inputs: Vec<Vec<u8>> = vec![
        vec![8, 1, 5, 0, 4],
        vec![9, 9, 1],
        vec![],
        vec![3],
        vec![200, 100],
    ];
    let mut requests = Vec::new();
    for input in &inputs {
        requests.push(worker.submit("sort", input.clone()));
    }
    assert_eq!(worker.current_load(), inputs.len());

    // Deliver the responses in a scrambled order.
    for &pos in &[3usize, 0, 4, 2, 1] {
        let request = &requests[pos];
        let answer = simulated_answer(&request.arg);
        let delivery = worker.on_response(Response { id: request.id, response: Some(answer) });
        // Each caller is resolved with the sorted version of its own input.
        let mut expected = inputs[pos].clone();
        expected.sort();
        match delivery {
            Delivery::Delivered(Ok(payload)) => assert_eq!(from_bytes(&payload), expected),
            other => panic!("expected a delivered result, got {:?}", other),
        }
    }
    assert_eq!(worker.current_load(), 0);
}

#[test]
fn can_limit_tasks() {
    let mut worker = WebWorker::new(Some(0));
    assert_eq!(worker.capacity(), Some(0));
    let result = worker.try_submit("sort", vec![8, 1, 5, 0, 4]);
    assert_eq!(result, Err(Full));
    assert_eq!(Full.message(), "WebWorker capacity reached");
    assert_eq!(worker.current_load(), 0);
}

#[test]
fn blocked_submission_proceeds_once_a_permit_is_released() {
    let mut worker = WebWorker::new(Some(0));
    // A blocking caller would suspend here: no permit is available.
    assert!(!worker.can_submit());
    // Until a permit is manually released.
    worker.release_permit();
    assert!(worker.can_submit());
    let request = worker.try_submit("sort", vec![1]).expect("permit was released");
    assert_eq!(worker.capacity(), Some(0));
    assert_eq!(request.id, 0);
}

#[test]
fn permit_returns_when_the_call_completes() {
    let mut worker = WebWorker::new(Some(2));
    let request = worker.try_submit("sort", vec![2, 1]).unwrap();
    assert_eq!(worker.capacity(), Some(1));
    let answer = simulated_answer(&request.arg);
    let delivery = worker.on_response(Response { id: request.id, response: Some(answer) });
    assert!(matches!(delivery, Delivery::Delivered(Ok(_))));
    // The caller is done with the response: its permit frees.
    worker.release_permit();
    assert_eq!(worker.capacity(), Some(2));
}

#[test]
fn abandoned_call_response_is_discarded_silently() {
    let mut worker = WebWorker::new(None);
    let abandoned = worker.submit("sort", vec![5, 4]);
    let kept = worker.submit("sort", vec![9, 3]);
    assert_eq!(worker.current_load(), 2);

    // The first caller stops awaiting before its response arrives.
    worker.abandon(abandoned.id);
    assert_eq!(worker.current_load(), 2);

    // Its response arrives anyway: no error, and no other call affected.
    let answer = simulated_answer(&abandoned.arg);
    let delivery = worker.on_response(Response { id: abandoned.id, response: Some(answer) });
    assert_eq!(delivery, Delivery::Discarded);
    assert_eq!(worker.current_load(), 1);

    // The other call still resolves with its own result.
    let answer = simulated_answer(&kept.arg);
    let delivery = worker.on_response(Response { id: kept.id, response: Some(answer) });
    match delivery {
        Delivery::Delivered(Ok(payload)) => assert_eq!(from_bytes(&payload), vec![3, 9]),
        other => panic!("expected a delivered result, got {:?}", other),
    }
}

#[test]
fn late_and_duplicate_responses_are_not_errors() {
    let mut worker = WebWorker::new(None);
    let request = worker.submit("sort", vec![1, 2]);
    let answer = simulated_answer(&request.arg);

    // A response for an id that was never assigned.
    let delivery = worker.on_response(Response { id: 999, response: Some(answer.clone()) });
    assert_eq!(delivery, Delivery::Unmatched);

    let delivery = worker.on_response(Response { id: request.id, response: Some(answer.clone()) });
    assert!(matches!(delivery, Delivery::Delivered(Ok(_))));

    // The same response delivered twice: the second copy is discarded.
    let delivery = worker.on_response(Response { id: request.id, response: Some(answer) });
    assert_eq!(delivery, Delivery::Unmatched);
}

#[test]
fn missing_result_surfaces_as_function_not_found() {
    let mut worker = WebWorker::new(None);
    let request = worker.submit("no_such_function", vec![1]);
    let delivery = worker.on_response(Response { id: request.id, response: None });
    assert_eq!(delivery, Delivery::Delivered(Err(CallError::FunctionNotFound)));
}

#[test]
fn teardown_reports_the_still_waiting_calls() {
    let mut worker = WebWorker::new(None);
    let waiting = worker.submit("sort", vec![1]);
    let abandoned = worker.submit("sort", vec![2]);
    worker.abandon(abandoned.id);

    let to_fail = worker.terminate();
    // Exactly the still-awaited call must be resolved with UnitTerminated.
    assert_eq!(to_fail, vec![waiting.id]);
    assert_eq!(worker.current_load(), 0);
}

#[test]
fn ids_are_assigned_in_sequence() {
    let mut worker = WebWorker::new(None);
    let a = worker.submit("sort", vec![1]);
    let b = worker.submit("sort", vec![2]);
    let c = worker.submit("sort", vec![3]);
    assert_eq!((a.id, b.id, c.id), (0, 1, 2));
    assert_eq!(a.func_name, "sort");
}
