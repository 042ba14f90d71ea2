use rutenspitz::classify::FailureKind;
use rutenspitz::engine::{run_and_compare, RunResult};
use rutenspitz::map_surface::{map_surface_table, CapacityHooks, CapacityMap, MapModel};

const ITEMS: [(u16, u16); 24] = [
    (1988, 29987),
    (2666, 27242),
    (6040, 2394),
    (25752, 61248),
    (27146, 27242),
    (27241, 27242),
    (27242, 27242),
    (27243, 27242),
    (27285, 27242),
    (27331, 27242),
    (28712, 1989),
    (29517, 57394),
    (32582, 1480),
    (34410, 27242),
    (35690, 26931),
    (38250, 27242),
    (39274, 15180),
    (44843, 27864),
    (48680, 48830),
    (56389, 27242),
    (57394, 52917),
    (61248, 34543),
    (61510, 51837),
    (63016, 47943),
];

fn push_u16(bytes: &mut Vec<u8>, v: u16) {
    bytes.push((v % 256) as u8);
    bytes.push((v / 256) as u8);
}

fn capacity_scenario_bytes() -> Vec<u8> {
    let mut bytes: Vec<u8> = Vec::new();
    for (k, v) in ITEMS {
        bytes.push(0); // insert(k, v)
        push_u16(&mut bytes, k);
        push_u16(&mut bytes, v);
    }
    bytes.push(1); // remove(&29517)
    push_u16(&mut bytes, 29517);
    bytes.push(6); // clear()
    bytes
}

#[test]
fn map_capacity_survives_clear() {
    let table = map_surface_table();
    let bytes = capacity_scenario_bytes();
    let mut model = MapModel::new();
    let mut tested = CapacityMap::new(28);
    let mut hooks = CapacityHooks::new();
    let r = run_and_compare(&table, &bytes, &mut model, &mut tested, &mut hooks);
    assert_eq!(r, RunResult::Passed { executed: 26 });
    assert_eq!(tested.capacity(), 28);
    assert_eq!(tested.len(), 0);
    assert_eq!(model.len(), 0);
}

#[test]
fn map_capacity_drop_on_clear_is_an_invariant_violation() {
    let table = map_surface_table();
    let bytes = capacity_scenario_bytes();
    let mut model = MapModel::new();
    let mut tested = CapacityMap::with_faults(28, true, false);
    let mut hooks = CapacityHooks::new();
    let r = run_and_compare(&table, &bytes, &mut model, &mut tested, &mut hooks);
    assert_eq!(
        r,
        RunResult::Failed { index: 25, kind: FailureKind::InvariantViolation }
    );
    assert_eq!(tested.capacity(), 0);
}

#[test]
fn map_capacity_grows_with_the_entry_count() {
    let table = map_surface_table();
    let mut bytes: Vec<u8> = Vec::new();
    for (k, v) in [(1u16, 10u16), (2, 20), (3, 30)] {
        bytes.push(0);
        push_u16(&mut bytes, k);
        push_u16(&mut bytes, v);
    }
    let mut model = MapModel::new();
    let mut tested = CapacityMap::new(1);
    let mut hooks = CapacityHooks::new();
    let r = run_and_compare(&table, &bytes, &mut model, &mut tested, &mut hooks);
    assert_eq!(r, RunResult::Passed { executed: 3 });
    // Capacity doubled the demand when it was outgrown by the second entry.
    assert_eq!(tested.capacity(), 4);
    assert_eq!(tested.len(), 3);
    assert_eq!(tested.get(2), Some(20));
    assert_eq!(model.get(2), Some(20));
}
