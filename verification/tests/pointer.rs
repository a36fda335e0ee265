use siqnastee::color::Rgb;
use siqnastee::draw::RepaintPolicy;
use siqnastee::layout::locate;
use siqnastee::sketch::event;
use siqnastee::sketch::Model;
use siqnastee::sketch::TouchRule;
use siqnastee::sketch::WindowEvent;

#[test]
fn locate_finds_the_cell_that_holds_a_coordinate() {
    // four cells of extent 16: spans [-64, -32), [-32, 0), [0, 32), [32, 64) in half units
    assert_eq!(locate(-64, 4, 16), Some(0));
    assert_eq!(locate(-33, 4, 16), Some(0));
    assert_eq!(locate(-32, 4, 16), Some(1));
    assert_eq!(locate(-1, 4, 16), Some(1));
    assert_eq!(locate(0, 4, 16), Some(2));
    assert_eq!(locate(31, 4, 16), Some(2));
    assert_eq!(locate(32, 4, 16), Some(3));
    assert_eq!(locate(63, 4, 16), Some(3));
    // three cells of extent 5: spans [-15, -5), [-5, 5), [5, 15)
    assert_eq!(locate(-15, 3, 5), Some(0));
    assert_eq!(locate(-6, 3, 5), Some(0));
    assert_eq!(locate(-5, 3, 5), Some(1));
    assert_eq!(locate(4, 3, 5), Some(1));
    assert_eq!(locate(5, 3, 5), Some(2));
    assert_eq!(locate(14, 3, 5), Some(2));
}

#[test]
fn locate_finds_nothing_outside_the_row() {
    assert_eq!(locate(64, 4, 16), None);
    assert_eq!(locate(-65, 4, 16), None);
    assert_eq!(locate(i64::MAX, 4, 16), None);
    assert_eq!(locate(i64::MIN, 4, 16), None);
    assert_eq!(locate(0, 0, 16), None);
    assert_eq!(locate(0, 4, 0), None);
    assert_eq!(locate(0, 4, -16), None);
}

#[test]
fn locate_at_the_limits() {
    let count = i32::MAX as usize;
    let edge = 2147483647i64 * 2147483647;
    assert_eq!(locate(-edge, count, i32::MAX), Some(0));
    assert_eq!(locate(edge - 1, count, i32::MAX), Some(count - 1));
    assert_eq!(locate(edge, count, i32::MAX), None);
    assert_eq!(locate(-edge - 1, count, i32::MAX), None);
}

#[test]
fn cell_at_names_the_cell_whose_rectangle_holds_the_point() {
    let model = Model::build_grid(100, 60, 7, 5, RepaintPolicy::BlackUntilTouched, TouchRule::UnderPointer);
    let cols = model.num_cols();
    let rows = model.num_rows();
    assert_eq!((cols, rows), (15, 12));
    for x2 in -110..110 {
        for y2 in -65..65 {
            let mut holders = Vec::new();
            for col in 0..cols {
                for row in 0..rows {
                    let rect = model.cell(col, row).unwrap().rect;
                    let inside_x = rect.x2 - rect.w as i64 <= x2 && x2 < rect.x2 + rect.w as i64;
                    let inside_y = rect.y2 - rect.h as i64 <= y2 && y2 < rect.y2 + rect.h as i64;
                    if inside_x && inside_y {
                        holders.push((col, row));
                    }
                }
            }
            assert!(holders.len() <= 1);
            assert_eq!(model.cell_at(x2, y2), holders.first().copied());
        }
    }
}

#[test]
fn cell_at_on_the_standard_grid() {
    let model = Model::new(1024, 768, RepaintPolicy::BlackUntilTouched, TouchRule::UnderPointer);
    assert_eq!(model.cell_at(0, 0), Some((32, 16)));
    assert_eq!(model.cell_at(-1, -1), Some((31, 15)));
    assert_eq!(model.cell_at(-1024, -768), Some((0, 0)));
    assert_eq!(model.cell_at(1023, 767), Some((63, 31)));
    assert_eq!(model.cell_at(1024, 0), None);
    assert_eq!(model.cell_at(0, 768), None);
    assert_eq!(model.cell_at(-1025, 0), None);
    assert_eq!(model.cell_at(0, -769), None);
    // the centre of every cell lies in that cell
    for col in 0..64 {
        for row in 0..32 {
            let rect = model.cell(col, row).unwrap().rect;
            assert_eq!(model.cell_at(rect.x2, rect.y2), Some((col, row)));
        }
    }
}

#[test]
fn cell_at_on_an_empty_grid_is_none() {
    let model = Model::new(0, 0, RepaintPolicy::BlackUntilTouched, TouchRule::UnderPointer);
    assert_eq!(model.cell_at(0, 0), None);
    let model = Model::new(1024, 0, RepaintPolicy::BlackUntilTouched, TouchRule::UnderPointer);
    assert_eq!(model.cell_at(0, 0), None);
    let model = Model::build_grid(1024, 768, 0, 24, RepaintPolicy::BlackUntilTouched, TouchRule::UnderPointer);
    assert_eq!(model.cell_at(0, 0), None);
}

#[test]
fn touch_at_touches_the_cell_under_the_point() {
    let mut model = Model::new(64, 48, RepaintPolicy::RandomUnlessPinned, TouchRule::UnderPointer);
    // columns span 32 half units each from -64, rows 48 each from -48
    assert!(model.touch_at(-64, -48));
    assert!(model.cell(0, 0).unwrap().touched);
    assert_eq!(model.cell(0, 0).unwrap().color, Rgb::black());
    assert_eq!(model.touched_count(), 1);
    assert!(model.touch_at(33, 1));
    assert!(model.cell(3, 1).unwrap().touched);
    assert_eq!(model.touched_count(), 2);
    assert!(model.touch_at(40, 10));
    assert_eq!(model.touched_count(), 2);
    assert!(!model.touch_at(64, 0));
    assert!(!model.touch_at(0, 48));
    assert!(!model.touch_at(0, -49));
    assert_eq!(model.touched_count(), 2);
    for col in 0..4 {
        for row in 0..2 {
            let touched = (col, row) == (0, 0) || (col, row) == (3, 1);
            assert_eq!(model.cell(col, row).unwrap().touched, touched);
        }
    }
}

#[test]
fn mouse_moved_under_pointer_touches_the_cell_under_it() {
    let mut model = Model::new(64, 48, RepaintPolicy::BlackUntilTouched, TouchRule::UnderPointer);
    assert_eq!(model.touch_rule(), TouchRule::UnderPointer);
    event(&mut model, WindowEvent::MouseMoved { x2: -1, y2: 0 });
    assert_eq!(model.touched_count(), 1);
    assert!(model.cell(1, 1).unwrap().touched);
    event(&mut model, WindowEvent::MouseMoved { x2: -1, y2: 0 });
    assert_eq!(model.touched_count(), 1);
    event(&mut model, WindowEvent::MouseMoved { x2: 500, y2: 0 });
    assert_eq!(model.touched_count(), 1);
    event(&mut model, WindowEvent::Other);
    assert_eq!(model.touched_count(), 1);
}

#[test]
fn mouse_moved_at_random_ignores_the_position() {
    let mut model = Model::new(64, 48, RepaintPolicy::BlackUntilTouched, TouchRule::Random);
    assert_eq!(model.touch_rule(), TouchRule::Random);
    for _ in 0..500 {
        event(&mut model, WindowEvent::MouseMoved { x2: 5000, y2: 5000 });
    }
    assert_eq!(model.touched_count(), 8);
}
