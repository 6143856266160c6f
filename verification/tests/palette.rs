use sword_arena::palette::{Color, ColorPicker};

#[test]
fn colors_are_handed_out_deterministically_and_recycled() {
    let mut a = ColorPicker::new();
    let mut b = ColorPicker::new();
    let c1 = a.take();
    let c2 = b.take();
    assert_eq!(c1, c2);
    let next = a.take();
    assert_ne!(c1, next);
    let len_before = a.colors.len();
    a.give_back(c1);
    assert_eq!(a.colors.len(), len_before + 1);
    assert_eq!(*a.colors.last().unwrap(), c1);
}

#[test]
fn the_rotating_index_advances_by_one_per_take() {
    let mut picker = ColorPicker::new();
    assert_eq!(picker.index, 5);
    picker.take();
    // 64 colors remain; the index moves one step around the pool.
    assert_eq!(picker.colors.len(), 64);
    assert_eq!(picker.index, 6);
    picker.take();
    assert_eq!(picker.index, 7);
}

#[test]
fn an_exhausted_pool_falls_back_to_white() {
    let mut picker = ColorPicker { index: 0, colors: Vec::new() };
    let c = picker.take();
    assert_eq!(c, Color { r: 255, g: 255, b: 255 });
    assert_eq!(picker.colors.len(), 0);
}

#[test]
fn the_pool_starts_with_the_full_palette() {
    let picker = ColorPicker::new();
    assert_eq!(picker.colors.len(), 65);
    assert_eq!(picker.index, 5);
}
