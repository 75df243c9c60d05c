use terrarium::gpu_resources::{
    instance_slot_contents, unused_positions, vec_remove_multiple, StaticInstancesState,
};

#[test]
fn removes_listed_positions_in_any_order() {
    let mut v = vec!['a', 'b', 'c', 'd', 'e'];
    let mut idx = [3usize, 0, 1];
    vec_remove_multiple(&mut v, &mut idx);
    assert_eq!(v, vec!['c', 'e']);
    assert_eq!(idx, [0, 1, 3]);
}

#[test]
fn removing_nothing_keeps_everything() {
    let mut v = vec![1, 2, 3];
    let mut idx: [usize; 0] = [];
    vec_remove_multiple(&mut v, &mut idx);
    assert_eq!(v, vec![1, 2, 3]);
}

#[test]
fn removing_every_position_empties() {
    let mut v = vec![String::from("x"), String::from("y")];
    let mut idx = [1usize, 0];
    vec_remove_multiple(&mut v, &mut idx);
    assert!(v.is_empty());
}

#[test]
fn unused_meshes_are_listed_in_order_and_removed() {
    let unused = [false, true, true, false, true];
    let mut positions = unused_positions(&unused);
    assert_eq!(positions, vec![1, 2, 4]);
    let mut meshes = vec!["a", "b", "c", "d", "e"];
    vec_remove_multiple(&mut meshes, &mut positions);
    assert_eq!(meshes, vec!["a", "d"]);
    assert!(unused_positions(&[false, false]).is_empty());
    assert!(unused_positions(&[]).is_empty());
}

#[test]
fn instance_slots_hold_the_submitted_instances_then_nothing() {
    assert_eq!(instance_slot_contents(2, 4), vec![Some(0), Some(1), None, None]);
    assert_eq!(instance_slot_contents(0, 2), vec![None, None]);
    assert_eq!(instance_slot_contents(3, 3), vec![Some(0), Some(1), Some(2)]);
}

#[test]
fn static_instances_rebuild_only_when_marked() {
    let mut s = StaticInstancesState::new();
    assert!(s.update());
    assert!(!s.update());
    s.mark_statics_dirty();
    assert!(s.update());
    assert!(!s.update());
}
