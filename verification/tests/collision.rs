use lumberjack::collision::{is_valid_hit, overlaps, Footprint, OverlapSide};

fn fp(cx: i32, cy: i32, hx: i32, hy: i32) -> Footprint {
    Footprint { cx, cy, hx, hy }
}

#[test]
fn disjoint_boxes_do_not_overlap() {
    let a = fp(0, 0, 5, 5);
    let b = fp(100, 100, 5, 5);
    assert_eq!(overlaps(&a, &b), None);
}

#[test]
fn touching_edges_do_not_overlap() {
    let a = fp(0, 0, 5, 5);
    let b = fp(10, 0, 5, 5);
    assert_eq!(overlaps(&a, &b), None);
}

#[test]
fn containment_reports_inside() {
    let a = fp(1, 1, 2, 2);
    let b = fp(0, 0, 10, 10);
    assert_eq!(overlaps(&a, &b), Some(OverlapSide::Inside));
}

#[test]
fn left_contact() {
    let a = fp(-9, 0, 2, 2);
    let b = fp(0, 0, 10, 10);
    assert_eq!(overlaps(&a, &b), Some(OverlapSide::Left));
}

#[test]
fn right_contact() {
    let a = fp(9, 0, 2, 2);
    let b = fp(0, 0, 10, 10);
    assert_eq!(overlaps(&a, &b), Some(OverlapSide::Right));
}

#[test]
fn top_contact() {
    let a = fp(0, 9, 2, 2);
    let b = fp(0, 0, 10, 10);
    assert_eq!(overlaps(&a, &b), Some(OverlapSide::Top));
}

#[test]
fn bottom_contact() {
    let a = fp(0, -9, 2, 2);
    let b = fp(0, 0, 10, 10);
    assert_eq!(overlaps(&a, &b), Some(OverlapSide::Bottom));
}

#[test]
fn smaller_penetration_axis_decides_side() {
    // deep on y, shallow on x: the x axis decides
    let a = fp(-9, 1, 2, 8);
    let b = fp(0, 0, 10, 10);
    assert_eq!(overlaps(&a, &b), Some(OverlapSide::Left));
}

#[test]
fn lateral_and_inside_contacts_count_as_hits() {
    assert!(is_valid_hit(&Some(OverlapSide::Left)));
    assert!(is_valid_hit(&Some(OverlapSide::Right)));
    assert!(is_valid_hit(&Some(OverlapSide::Inside)));
    assert!(!is_valid_hit(&Some(OverlapSide::Top)));
    assert!(!is_valid_hit(&Some(OverlapSide::Bottom)));
    assert!(!is_valid_hit(&None));
}
