use rutenspitz::boundary::CallOutcome;
use rutenspitz::buf_surface::{buf_surface_table, BufModel, LaxBuf};
use rutenspitz::classify::{classification_fails, classify, failure_of, Classification, FailureKind};
use rutenspitz::descriptor::{canonicalize, CompareMode, Normalizer};
use rutenspitz::engine::{
    execute_and_compare, execute_only, run_and_compare, run_execute_only, NoHooks, RunResult,
    Surface,
};
use rutenspitz::escalate::OutcomePanic;
use rutenspitz::heap_surface::{heap_surface_table, HeapModel, OrderedHeap, HEAP_POP};
use rutenspitz::map_surface::{map_surface_table, CapacityMap, MapModel};
use rutenspitz::operation::Operation;
use rutenspitz::value::Value;

fn push_u16(bytes: &mut Vec<u8>, v: u16) {
    bytes.push((v % 256) as u8);
    bytes.push((v / 256) as u8);
}

#[test]
fn heap_pop_returns_the_maximum_on_both_sides() {
    let table = heap_surface_table();
    let mut bytes: Vec<u8> = Vec::new();
    for item in [5u16, 3, 9] {
        bytes.push(0);
        push_u16(&mut bytes, item);
    }
    bytes.push(1); // pop
    let mut model = HeapModel::new();
    let mut tested = OrderedHeap::new();
    let mut hooks = NoHooks::new();
    let r = run_and_compare(&table, &bytes, &mut model, &mut tested, &mut hooks);
    assert_eq!(r, RunResult::Passed { executed: 4 });

    // The popped value itself: 9 on both sides.
    let mut model = HeapModel::new();
    let mut tested = OrderedHeap::new();
    for item in [5u64, 3, 9] {
        let op = Operation { method: 0, args: vec![Value::U64(item)] };
        assert_eq!(model.apply(&op), CallOutcome::Completed(Value::Unit));
        assert_eq!(tested.apply(&op), CallOutcome::Completed(Value::Unit));
    }
    let pop = Operation { method: HEAP_POP, args: vec![] };
    assert_eq!(
        model.apply(&pop),
        CallOutcome::Completed(Value::OptU64(Some(9)))
    );
    assert_eq!(
        tested.apply(&pop),
        CallOutcome::Completed(Value::OptU64(Some(9)))
    );
}

#[test]
fn broken_removal_is_reported_as_a_result_mismatch() {
    let table = map_surface_table();
    let mut bytes: Vec<u8> = Vec::new();
    bytes.push(0); // insert(7, 42)
    push_u16(&mut bytes, 7);
    push_u16(&mut bytes, 42);
    bytes.push(1); // remove(&7): answers correctly but removes nothing
    push_u16(&mut bytes, 7);
    bytes.push(2); // contains_key(&7): the divergence surfaces here
    push_u16(&mut bytes, 7);
    let mut model = MapModel::new();
    let mut tested = CapacityMap::with_faults(16, false, true);
    let mut hooks = NoHooks::new();
    let r = run_and_compare(&table, &bytes, &mut model, &mut tested, &mut hooks);
    assert_eq!(
        r,
        RunResult::Failed { index: 2, kind: FailureKind::ResultMismatch }
    );
    let panic_payload = OutcomePanic::from_failure(&FailureKind::ResultMismatch);
    assert_eq!(panic_payload.message(), "The return values aren't equal");
}

#[test]
fn unchecked_bounds_are_reported_as_one_sided_failure() {
    let table = buf_surface_table();
    let mut bytes: Vec<u8> = Vec::new();
    bytes.push(0); // push(5)
    push_u16(&mut bytes, 5);
    bytes.push(1); // get(3): the model aborts, the tested side hands back 0
    bytes.push(3);
    let mut model = BufModel::new();
    let mut tested = LaxBuf::new();
    let mut hooks = NoHooks::new();
    let r = run_and_compare(&table, &bytes, &mut model, &mut tested, &mut hooks);
    assert_eq!(
        r,
        RunResult::Failed { index: 1, kind: FailureKind::FirstFailedOnly }
    );
}

#[test]
fn symmetric_failure_lets_the_run_continue() {
    let table = buf_surface_table();
    let mut bytes: Vec<u8> = Vec::new();
    bytes.push(0); // push(5)
    push_u16(&mut bytes, 5);
    bytes.push(1); // get(9): out of range on both sides
    bytes.push(9);
    bytes.push(0); // push(6): still executed
    push_u16(&mut bytes, 6);
    let mut model = BufModel::new();
    let mut tested = BufModel::new();
    let mut hooks = NoHooks::new();
    let r = run_and_compare(&table, &bytes, &mut model, &mut tested, &mut hooks);
    assert_eq!(r, RunResult::Passed { executed: 3 });
    let get1 = Operation { method: 1, args: vec![Value::U64(1)] };
    assert_eq!(model.apply(&get1), CallOutcome::Completed(Value::U64(6)));
}

#[test]
fn fail_fast_applies_nothing_after_the_failure() {
    let table = buf_surface_table();
    let mut bytes: Vec<u8> = Vec::new();
    bytes.push(1); // get(0) on an empty buffer: one-sided failure at once
    bytes.push(0);
    bytes.push(0); // push(5): must never run
    push_u16(&mut bytes, 5);
    let mut model = BufModel::new();
    let mut tested = LaxBuf::new();
    let mut hooks = NoHooks::new();
    let r = run_and_compare(&table, &bytes, &mut model, &mut tested, &mut hooks);
    assert_eq!(
        r,
        RunResult::Failed { index: 0, kind: FailureKind::FirstFailedOnly }
    );
    let len_op = Operation { method: 2, args: vec![] };
    assert_eq!(model.apply(&len_op), CallOutcome::Completed(Value::U64(0)));
    assert_eq!(tested.apply(&len_op), CallOutcome::Completed(Value::U64(0)));
}

#[test]
fn normalized_iteration_order_is_no_divergence() {
    let table = map_surface_table();
    let mut bytes: Vec<u8> = Vec::new();
    bytes.push(0);
    push_u16(&mut bytes, 1);
    push_u16(&mut bytes, 10);
    bytes.push(0);
    push_u16(&mut bytes, 2);
    push_u16(&mut bytes, 20);
    bytes.push(7); // keys(): insertion order vs front-first order
    let mut model = MapModel::new();
    let mut tested = CapacityMap::new(8);
    let mut hooks = NoHooks::new();
    let r = run_and_compare(&table, &bytes, &mut model, &mut tested, &mut hooks);
    assert_eq!(r, RunResult::Passed { executed: 3 });
}

#[test]
fn normalizer_sorts_integer_sequences() {
    let raw = Value::U64s(vec![3, 1, 2]);
    let sorted = canonicalize(
        &CompareMode::EqualWith(Normalizer::SortU64s),
        raw,
    );
    assert_eq!(sorted, Value::U64s(vec![1, 2, 3]));
    let untouched = canonicalize(&CompareMode::Equal, Value::U64s(vec![3, 1, 2]));
    assert_eq!(untouched, Value::U64s(vec![3, 1, 2]));
}

#[test]
fn classification_covers_all_outcome_pairs() {
    let cmp = CompareMode::Equal;
    assert_eq!(
        classify(CallOutcome::Aborted, CallOutcome::Aborted, &cmp),
        Classification::BothFailed
    );
    assert_eq!(
        classify(
            CallOutcome::Aborted,
            CallOutcome::Completed(Value::U64(1)),
            &cmp
        ),
        Classification::FirstFailedOnly
    );
    assert_eq!(
        classify(
            CallOutcome::Completed(Value::U64(1)),
            CallOutcome::Aborted,
            &cmp
        ),
        Classification::SecondFailedOnly
    );
    assert_eq!(
        classify(
            CallOutcome::Completed(Value::U64(1)),
            CallOutcome::Completed(Value::U64(1)),
            &cmp
        ),
        Classification::Equal
    );
    assert_eq!(
        classify(
            CallOutcome::Completed(Value::U64(1)),
            CallOutcome::Completed(Value::U64(2)),
            &cmp
        ),
        Classification::Unequal
    );
    assert!(!classification_fails(&Classification::Equal));
    assert!(!classification_fails(&Classification::BothFailed));
    assert!(classification_fails(&Classification::Unequal));
    assert!(classification_fails(&Classification::FirstFailedOnly));
    assert!(classification_fails(&Classification::SecondFailedOnly));
    assert_eq!(failure_of(&Classification::Equal), None);
    assert_eq!(failure_of(&Classification::BothFailed), None);
    assert_eq!(
        failure_of(&Classification::Unequal),
        Some(FailureKind::ResultMismatch)
    );
}

#[test]
fn one_step_reports_its_classification() {
    let table = map_surface_table();
    let mut model = MapModel::new();
    let mut tested = CapacityMap::new(4);
    let mut hooks = NoHooks::new();
    let op = Operation { method: 0, args: vec![Value::U64(7), Value::U64(42)] };
    let report = execute_and_compare(&table[0], &op, &mut model, &mut tested, &mut hooks);
    assert_eq!(report.classification, Classification::Equal);
    assert_eq!(report.failure, None);
}

#[test]
fn execute_only_propagates_abrupt_termination() {
    let table = buf_surface_table();
    let mut bytes: Vec<u8> = Vec::new();
    bytes.push(0); // push(5)
    push_u16(&mut bytes, 5);
    bytes.push(1); // get(7): aborts
    bytes.push(7);
    bytes.push(0); // push(6): never applied
    push_u16(&mut bytes, 6);
    let mut tested = BufModel::new();
    let r = run_execute_only(&table, &bytes, &mut tested);
    assert_eq!(r, Some(1));
    let len_op = Operation { method: 2, args: vec![] };
    assert_eq!(tested.apply(&len_op), CallOutcome::Completed(Value::U64(1)));

    let mut lax = LaxBuf::new();
    let r = run_execute_only(&table, &bytes, &mut lax);
    assert_eq!(r, None);
    assert_eq!(lax.apply(&len_op), CallOutcome::Completed(Value::U64(2)));

    let get_op = Operation { method: 1, args: vec![Value::U64(9)] };
    let mut model = BufModel::new();
    assert_eq!(execute_only(&get_op, &mut model), CallOutcome::Aborted);
}
