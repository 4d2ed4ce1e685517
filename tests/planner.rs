use gta_assistant::planner::{
    move_to, plan_grid, plan_grid_unsorted, plan_wheel, relative_array, Key,
};
use Key::{Down, Enter, Left, Right, Tab};

#[test]
fn relative_of_sorted_indices() {
    assert_eq!(relative_array(&[1, 3, 6]), vec![1, 2, 3]);
    assert_eq!(relative_array(&[0, 0, 5]), vec![0, 0, 5]);
    assert_eq!(relative_array(&[]), Vec::<usize>::new());
}

#[test]
fn relative_deltas_sum_to_last_index() {
    let idx = [2, 3, 5, 7];
    let deltas = relative_array(&idx);
    assert_eq!(deltas.iter().sum::<usize>(), 7);
}

#[test]
fn grid_step_of_three_is_one_right_one_down() {
    assert_eq!(plan_grid(&[3]), vec![Key::Right, Key::Down, Key::Enter, Key::Tab]);
}

#[test]
fn grid_plan_for_one_three_six() {
    assert_eq!(
        plan_grid(&[1, 3, 6]),
        vec![Right, Enter, Down, Enter, Right, Down, Enter, Tab]
    );
}

#[test]
fn grid_plan_sorts_first() {
    assert_eq!(plan_grid_unsorted(vec![6, 1, 3]), plan_grid(&[1, 3, 6]));
    assert_eq!(plan_grid_unsorted(vec![]), vec![Key::Tab]);
}

#[test]
fn grid_plan_length_counts_confirms_and_moves() {
    let keys = plan_grid(&[0, 4, 5, 7]);
    // deltas 0, 4, 1, 2: moves 0 + 2 + 1 + 1, four confirms, one validation
    assert_eq!(keys.len(), 4 + 4 + 1);
}

#[test]
fn wheel_half_turn_goes_backward() {
    assert_eq!(move_to(2, 6), vec![Key::Left; 4]);
    assert_eq!(move_to(6, 2), vec![Key::Left; 4]);
}

#[test]
fn wheel_one_step_forward() {
    assert_eq!(move_to(0, 1), vec![Key::Right]);
}

#[test]
fn wheel_wraps_forward() {
    assert_eq!(move_to(7, 0), vec![Key::Right]);
    assert_eq!(move_to(0, 7), vec![Key::Left]);
    assert_eq!(move_to(1, 4), vec![Key::Right; 3]);
    assert_eq!(move_to(1, 6), vec![Key::Left; 3]);
}

#[test]
fn wheel_stays_when_on_target() {
    assert_eq!(move_to(5, 5), Vec::<Key>::new());
}

#[test]
fn wheel_plan_solves_each_row_on_its_own() {
    assert_eq!(plan_wheel(&[0, 0, 3]), vec![Down, Right, Down, Left, Down]);
    assert_eq!(plan_wheel(&[1, 1]), vec![Left, Down, Down]);
    let keys = plan_wheel(&[0, 1, 2, 3, 4, 5, 6, 7]);
    assert_eq!(keys, vec![Down; 8]);
}
