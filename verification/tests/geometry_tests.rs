use frame_flatten::geometry::{
    saturating_unit_add, subtract_rect, LayerBox, LayerPoint, LayerRect, LayerSize,
};

fn rect(x: i32, y: i32, w: i32, h: i32) -> LayerRect {
    LayerRect::new(LayerPoint::new(x, y), LayerSize::new(w, h))
}

fn covers(rects: &[LayerRect], px: i64, py: i64) -> usize {
    rects
        .iter()
        .filter(|r| {
            let b = r.to_box();
            b.min_x <= px && px < b.max_x && b.min_y <= py && py < b.max_y
        })
        .count()
}

#[test]
fn intersection_of_overlapping_rects() {
    let a = rect(0, 0, 100, 100);
    let b = rect(50, 20, 100, 30);
    assert_eq!(a.intersection(&b), Some(rect(50, 20, 50, 30)));
    assert_eq!(b.intersection(&a), Some(rect(50, 20, 50, 30)));
}

#[test]
fn intersection_of_touching_rects_is_none() {
    let a = rect(0, 0, 100, 100);
    assert_eq!(a.intersection(&rect(100, 0, 10, 10)), None);
    assert_eq!(a.intersection(&rect(0, 100, 10, 10)), None);
}

#[test]
fn intersection_with_empty_rect_is_none() {
    let a = rect(0, 0, 100, 100);
    assert_eq!(a.intersection(&rect(10, 10, 0, 5)), None);
    assert_eq!(a.intersection(&rect(10, 10, -4, 5)), None);
}

#[test]
fn far_edge_saturates() {
    let r = rect(i32::MAX - 10, 0, 100, 10);
    let b = r.to_box();
    assert_eq!(b.max_x, i32::MAX as i64);
    assert_eq!(r.intersection(&rect(0, 0, i32::MAX, 10)), Some(rect(i32::MAX - 10, 0, 10, 10)));
}

#[test]
fn saturating_add_clamps_at_both_ends() {
    assert_eq!(saturating_unit_add(1, 2), 3);
    assert_eq!(saturating_unit_add(i32::MAX, 1), i32::MAX);
    assert_eq!(saturating_unit_add(i32::MIN, -1), i32::MIN);
}

#[test]
fn translate_moves_origin_only() {
    let r = rect(10, 20, 30, 40).translate(&LayerPoint::new(5, -25));
    assert_eq!(r, rect(15, -5, 30, 40));
    let s = rect(i32::MAX, 0, 1, 1).translate(&LayerPoint::new(7, 0));
    assert_eq!(s.origin.x, i32::MAX);
}

#[test]
fn box_clip_to_rect() {
    let b = LayerBox { min_x: -5, min_y: 5, max_x: 5_000_000_000, max_y: 15 };
    assert_eq!(b.clip_to(&rect(0, 0, 10, 10)), Some(rect(0, 5, 10, 5)));
    let outside = LayerBox { min_x: 20, min_y: 0, max_x: 30, max_y: 10 };
    assert_eq!(outside.clip_to(&rect(0, 0, 10, 10)), None);
}

#[test]
fn subtract_inner_rect_gives_four_strips() {
    let mut out = vec![rect(1, 1, 1, 1)];
    subtract_rect(&rect(0, 0, 100, 100), &rect(20, 30, 40, 50), &mut out);
    assert_eq!(
        out,
        vec![
            rect(0, 0, 20, 100),
            rect(20, 0, 40, 30),
            rect(20, 80, 40, 20),
            rect(60, 0, 40, 100),
        ]
    );
}

#[test]
fn subtract_rect_pieces_partition_the_difference() {
    let outer = rect(0, 0, 12, 9);
    let inner = rect(3, -2, 5, 6);
    let mut out = Vec::new();
    subtract_rect(&outer, &inner, &mut out);
    for px in -2..15 {
        for py in -4..12 {
            let in_outer = covers(&[outer], px, py) == 1;
            let in_inner = covers(&[inner], px, py) == 1;
            let expected = if in_outer && !in_inner { 1 } else { 0 };
            assert_eq!(covers(&out, px, py), expected);
        }
    }
}

#[test]
fn subtract_disjoint_rect_gives_the_rect() {
    let mut out = Vec::new();
    subtract_rect(&rect(0, 0, 10, 10), &rect(50, 50, 10, 10), &mut out);
    assert_eq!(out, vec![rect(0, 0, 10, 10)]);
}

#[test]
fn subtract_covering_rect_gives_nothing() {
    let mut out = Vec::new();
    subtract_rect(&rect(5, 5, 10, 10), &rect(0, 0, 50, 50), &mut out);
    assert!(out.is_empty());
}
