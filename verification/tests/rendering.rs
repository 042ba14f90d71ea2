use rutenspitz::boundary::{CallOutcome, Progress, ProgressMarker};
use rutenspitz::classify::FailureKind;
use rutenspitz::engine::{run_and_compare_traced, NoHooks, RunResult};
use rutenspitz::escalate::{failure_message, OutcomePanic};
use rutenspitz::map_surface::{map_surface_table, CapacityMap, MapModel};
use rutenspitz::operation::Operation;
use rutenspitz::sort::sort_u64s;
use rutenspitz::trace::{render_op, render_value, u64_to_dec, TraceRecorder};
use rutenspitz::value::{value_eq, Value};

fn push_u16(bytes: &mut Vec<u8>, v: u16) {
    bytes.push((v % 256) as u8);
    bytes.push((v / 256) as u8);
}

#[test]
fn decimal_rendering_is_exact() {
    assert_eq!(u64_to_dec(0), "0");
    assert_eq!(u64_to_dec(9), "9");
    assert_eq!(u64_to_dec(10), "10");
    assert_eq!(u64_to_dec(1988), "1988");
    assert_eq!(u64_to_dec(u64::MAX), "18446744073709551615");
}

#[test]
fn values_render_by_shape() {
    assert_eq!(render_value(&Value::Unit), "()");
    assert_eq!(render_value(&Value::Bool(true)), "true");
    assert_eq!(render_value(&Value::Bool(false)), "false");
    assert_eq!(render_value(&Value::U64(29987)), "29987");
    assert_eq!(render_value(&Value::OptU64(None)), "None");
    assert_eq!(render_value(&Value::OptU64(Some(9))), "Some(9)");
    assert_eq!(render_value(&Value::U64s(vec![5, 3, 9])), "[5, 3, 9]");
    assert_eq!(render_value(&Value::Bytes(vec![1, 2])), "[1, 2]");
}

#[test]
fn operations_render_as_replayable_calls() {
    let table = map_surface_table();
    let insert = Operation { method: 0, args: vec![Value::U64(1988), Value::U64(29987)] };
    assert_eq!(render_op(&table[0], &insert), "v.insert(1988, 29987);");
    let remove = Operation { method: 1, args: vec![Value::U64(29517)] };
    assert_eq!(render_op(&table[1], &remove), "v.remove(&29517);");
    let clear = Operation { method: 6, args: vec![] };
    assert_eq!(render_op(&table[6], &clear), "v.clear();");
}

#[test]
fn trace_recorder_collects_lines_only_when_enabled() {
    let table = map_surface_table();
    let insert = Operation { method: 0, args: vec![Value::U64(7), Value::U64(42)] };
    let mut on = TraceRecorder::new(true);
    on.append(&table[0], &insert);
    on.append(&table[0], &insert);
    assert_eq!(on.text(), "v.insert(7, 42);\nv.insert(7, 42);\n");
    let mut off = TraceRecorder::new(false);
    off.append(&table[0], &insert);
    assert_eq!(off.text(), "");
}

#[test]
fn traced_run_logs_every_started_operation() {
    let table = map_surface_table();
    let mut bytes: Vec<u8> = Vec::new();
    bytes.push(0);
    push_u16(&mut bytes, 7);
    push_u16(&mut bytes, 42);
    bytes.push(6); // clear
    let mut model = MapModel::new();
    let mut tested = CapacityMap::new(8);
    let mut hooks = NoHooks::new();
    let mut trace = TraceRecorder::new(true);
    let r = run_and_compare_traced(
        &table, &bytes, &mut model, &mut tested, &mut hooks, &mut trace,
    );
    assert_eq!(r, RunResult::Passed { executed: 2 });
    assert_eq!(trace.text(), "v.insert(7, 42);\nv.clear();\n");
}

#[test]
fn failure_messages_name_each_failure() {
    assert_eq!(
        failure_message(&FailureKind::ResultMismatch),
        "The return values aren't equal"
    );
    assert_eq!(
        failure_message(&FailureKind::FirstFailedOnly),
        "Implementation did not panic while the model did"
    );
    assert_eq!(
        failure_message(&FailureKind::SecondFailedOnly),
        "Implementation panicked while the model did not"
    );
    assert_eq!(
        failure_message(&FailureKind::InvariantViolation),
        "A post-hook invariant was violated"
    );
    let p = OutcomePanic::from_failure(&FailureKind::SecondFailedOnly);
    assert_eq!(p.message(), "Implementation panicked while the model did not");
}

#[test]
fn progress_marker_tells_the_three_histories_apart() {
    let fresh = ProgressMarker::new();
    assert_eq!(fresh.status(), Progress::NotStarted);
    assert_eq!(fresh.resolve(None), None);

    let mut aborted = ProgressMarker::new();
    aborted.begin();
    assert_eq!(aborted.status(), Progress::Started);
    assert_eq!(aborted.resolve(None), Some(CallOutcome::Aborted));

    let mut finished = ProgressMarker::new();
    finished.begin();
    finished.complete();
    assert_eq!(finished.status(), Progress::Finished);
    assert_eq!(
        finished.resolve(Some(Value::U64(5))),
        Some(CallOutcome::Completed(Value::U64(5)))
    );
}

#[test]
fn value_equality_is_structural() {
    assert!(value_eq(&Value::U64s(vec![1, 2]), &Value::U64s(vec![1, 2])));
    assert!(!value_eq(&Value::U64s(vec![1, 2]), &Value::U64s(vec![2, 1])));
    assert!(!value_eq(&Value::U64(1), &Value::Bool(true)));
    assert!(value_eq(&Value::OptU64(None), &Value::OptU64(None)));
    assert!(!value_eq(&Value::Bytes(vec![1]), &Value::Bytes(vec![1, 1])));
}

#[test]
fn sorting_orders_ascending_and_keeps_elements() {
    assert_eq!(sort_u64s(vec![9, 5, 9, 3]), vec![3, 5, 9, 9]);
    assert_eq!(sort_u64s(vec![]), Vec::<u64>::new());
    assert_eq!(sort_u64s(vec![7]), vec![7]);
}
