use aquarium::raymarch::{body_draw_order, MAX_RAYMARCH_BODIES};

fn ids(v: &[&str]) -> Vec<String> {
    v.iter().map(|s| s.to_string()).collect()
}

#[test]
fn bodies_are_drawn_in_id_order() {
    let order = body_draw_order(&ids(&["self", "agent-2", "agent-10", "dwarf"]));
    assert_eq!(order, vec![2, 1, 3, 0]);
}

#[test]
fn equal_ids_keep_their_order() {
    let order = body_draw_order(&ids(&["b", "a", "b", "a"]));
    assert_eq!(order, vec![1, 3, 0, 2]);
}

#[test]
fn at_most_the_slots_are_filled() {
    let many: Vec<String> = (0..12).rev().map(|i| format!("body-{i:02}")).collect();
    let order = body_draw_order(&many);
    assert_eq!(order.len(), MAX_RAYMARCH_BODIES);
    assert_eq!(order, vec![11, 10, 9, 8, 7, 6, 5, 4]);
    assert!(body_draw_order(&Vec::new()).is_empty());
}
