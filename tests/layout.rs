use tez::layout::{inline_height, place, Placement};

#[test]
fn left_placement_stops_at_right_edge() {
    assert_eq!(place(100, 40, Placement::Left(0)), (0, 40));
    assert_eq!(place(100, 40, Placement::Left(10)), (10, 40));
    assert_eq!(place(100, 40, Placement::Left(90)), (60, 40));
}

#[test]
fn width_is_cut_to_the_area() {
    assert_eq!(place(30, 50, Placement::Left(5)), (0, 30));
    assert_eq!(place(30, 50, Placement::Right(5)), (0, 30));
    assert_eq!(place(30, 50, Placement::Center), (0, 30));
}

#[test]
fn center_and_right_placement() {
    assert_eq!(place(100, 40, Placement::Center), (30, 40));
    assert_eq!(place(7, 4, Placement::Center), (1, 4));
    assert_eq!(place(100, 40, Placement::Right(0)), (60, 40));
    assert_eq!(place(100, 40, Placement::Right(15)), (45, 40));
    assert_eq!(place(100, 40, Placement::Right(80)), (0, 40));
}

#[test]
fn inline_height_stays_below_terminal() {
    assert_eq!(inline_height(10, 24), 10);
    assert_eq!(inline_height(24, 24), 23);
    assert_eq!(inline_height(100, 24), 23);
    assert_eq!(inline_height(5, 1), 0);
}
