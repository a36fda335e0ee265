use siqnastee::color::Rgb;
use siqnastee::draw::DrawCommand;
use siqnastee::draw::RepaintPolicy;
use siqnastee::draw::FONT_SIZE;
use siqnastee::layout::Rect;
use siqnastee::sketch::Model;
use siqnastee::sketch::SiqRect;
use siqnastee::sketch::TouchRule;

fn fill_of(command: &DrawCommand) -> (Rect, Rgb) {
    match command {
        DrawCommand::Rectangle { rect, color } => (*rect, *color),
        other => panic!("expected a rectangle, found {:?}", other),
    }
}

fn check_label(command: &DrawCommand, cell: &SiqRect) -> Rgb {
    match command {
        DrawCommand::Text { text, x2, y2, font_size, color } => {
            assert_eq!(text.chars().count(), 1);
            assert!(text.chars().all(|c| c.is_ascii_alphanumeric()));
            assert_eq!(*x2, cell.rect.x2);
            assert_eq!(*y2, cell.rect.y2);
            assert_eq!(*font_size, 12);
            *color
        },
        other => panic!("expected a text, found {:?}", other),
    }
}

#[test]
fn zero_size_window_renders_only_the_background() {
    for policy in [RepaintPolicy::RandomUnlessPinned, RepaintPolicy::BlackUntilTouched] {
        let model = Model::new(0, 0, policy, TouchRule::Random);
        let frame = model.render_frame();
        assert_eq!(frame, vec![DrawCommand::Background { color: Rgb::black() }]);
    }
}

#[test]
fn grid_without_rows_renders_only_the_background() {
    let model = Model::new(1024, 0, RepaintPolicy::BlackUntilTouched, TouchRule::Random);
    let frame = model.render_frame();
    assert_eq!(frame, vec![DrawCommand::Background { color: Rgb::black() }]);
    let model = Model::new(-3, 768, RepaintPolicy::RandomUnlessPinned, TouchRule::Random);
    let frame = model.render_frame();
    assert_eq!(frame, vec![DrawCommand::Background { color: Rgb::black() }]);
}

#[test]
fn frame_clears_then_fills_and_labels_every_cell_in_order() {
    for policy in [RepaintPolicy::RandomUnlessPinned, RepaintPolicy::BlackUntilTouched] {
        let mut model = Model::new(64, 72, policy, TouchRule::Random);
        assert!(model.touch(1, 2));
        assert!(model.touch(3, 0));
        let cols = model.num_cols();
        let rows = model.num_rows();
        assert_eq!((cols, rows), (4, 3));
        let frame = model.render_frame();
        assert_eq!(frame.len(), 1 + 2 * 12);
        assert_eq!(frame[0], DrawCommand::Background { color: Rgb::black() });
        for col in 0..cols {
            for row in 0..rows {
                let cell = model.cell(col, row).unwrap();
                let rank = col * rows + row;
                let (rect, _) = fill_of(&frame[1 + 2 * rank]);
                assert_eq!(rect, cell.rect);
                check_label(&frame[2 + 2 * rank], &cell);
            }
        }
    }
}

#[test]
fn font_size_is_twelve() {
    assert_eq!(FONT_SIZE, 12);
}

#[test]
fn rendering_does_not_change_the_model() {
    let mut model = Model::new(64, 72, RepaintPolicy::RandomUnlessPinned, TouchRule::Random);
    assert!(model.touch(0, 0));
    let mut before = Vec::new();
    for col in 0..4 {
        for row in 0..3 {
            before.push(model.cell(col, row).unwrap());
        }
    }
    for _ in 0..5 {
        let _ = model.render_frame();
    }
    let mut after = Vec::new();
    for col in 0..4 {
        for row in 0..3 {
            after.push(model.cell(col, row).unwrap());
        }
    }
    assert_eq!(before, after);
    assert_eq!(model.touched_count(), 1);
}

#[test]
fn pinned_cell_renders_the_same_fill_in_consecutive_frames() {
    let mut model = Model::new(64, 72, RepaintPolicy::RandomUnlessPinned, TouchRule::Random);
    assert!(model.touch(2, 1));
    let rank = 2 * 3 + 1;
    let cell = model.cell(2, 1).unwrap();
    let first = model.render_frame();
    let second = model.render_frame();
    assert_eq!(first[1 + 2 * rank], second[1 + 2 * rank]);
    assert_eq!(first[1 + 2 * rank], DrawCommand::Rectangle { rect: cell.rect, color: Rgb::black() });
    for _ in 0..20 {
        let frame = model.render_frame();
        assert_eq!(frame[1 + 2 * rank], first[1 + 2 * rank]);
    }
}

#[test]
fn unpinned_cells_flicker() {
    let model = Model::new(1024, 768, RepaintPolicy::RandomUnlessPinned, TouchRule::Random);
    let first = model.render_frame();
    let second = model.render_frame();
    let mut differ = 0;
    let mut differ_from_stored = 0;
    for col in 0..64 {
        for row in 0..32 {
            let rank = col * 32 + row;
            let (rect_a, a) = fill_of(&first[1 + 2 * rank]);
            let (rect_b, b) = fill_of(&second[1 + 2 * rank]);
            assert_eq!(rect_a, rect_b);
            if a != b {
                differ += 1;
            }
            if a != model.cell(col, row).unwrap().color {
                differ_from_stored += 1;
            }
        }
    }
    assert!(differ > 2000);
    assert!(differ_from_stored > 2000);
}

#[test]
fn untouched_cells_are_black_until_touched() {
    let mut model = Model::new(1024, 768, RepaintPolicy::BlackUntilTouched, TouchRule::Random);
    let frame = model.render_frame();
    for rank in 0..2048 {
        let (_, color) = fill_of(&frame[1 + 2 * rank]);
        assert_eq!(color, Rgb::black());
    }
    for col in 0..64 {
        assert!(model.touch(col, 5));
    }
    let first = model.render_frame();
    let second = model.render_frame();
    let mut not_black = 0;
    let mut differ = 0;
    for col in 0..64 {
        for row in 0..32 {
            let rank = col * 32 + row;
            let (_, a) = fill_of(&first[1 + 2 * rank]);
            let (_, b) = fill_of(&second[1 + 2 * rank]);
            if row == 5 {
                if a != Rgb::black() {
                    not_black += 1;
                }
                if a != b {
                    differ += 1;
                }
            } else {
                assert_eq!(a, Rgb::black());
                assert_eq!(b, Rgb::black());
            }
        }
    }
    assert!(not_black > 60);
    assert!(differ > 60);
}

#[test]
fn labels_are_single_letters_or_digits_in_random_colours() {
    let model = Model::new(1024, 768, RepaintPolicy::BlackUntilTouched, TouchRule::Random);
    let frame = model.render_frame();
    let mut letters = std::collections::BTreeSet::new();
    let mut colours = std::collections::BTreeSet::new();
    for col in 0..64 {
        for row in 0..32 {
            let rank = col * 32 + row;
            let cell = model.cell(col, row).unwrap();
            let color = check_label(&frame[2 + 2 * rank], &cell);
            colours.insert((color.red, color.green, color.blue));
            if let DrawCommand::Text { text, .. } = &frame[2 + 2 * rank] {
                letters.insert(text.clone());
            }
        }
    }
    assert!(letters.len() > 30);
    assert!(letters.len() <= 62);
    assert!(colours.len() > 1000);
}

#[test]
fn fixed_fill_follows_the_policy() {
    let rect = Rect { x2: 0, y2: 0, w: 16, h: 24 };
    let stored = Rgb::new(200, 100, 50);
    let untouched = SiqRect { color: stored, rect, touched: false };
    let touched = SiqRect { color: stored, rect, touched: true };
    assert_eq!(untouched.fixed_fill(RepaintPolicy::RandomUnlessPinned), None);
    assert_eq!(touched.fixed_fill(RepaintPolicy::RandomUnlessPinned), Some(stored));
    assert_eq!(untouched.fixed_fill(RepaintPolicy::BlackUntilTouched), Some(Rgb::black()));
    assert_eq!(touched.fixed_fill(RepaintPolicy::BlackUntilTouched), None);
}
