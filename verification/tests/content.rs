use svg_page::content::content_ops;
use svg_page::content::ContentOp;
use svg_page::layout::Placement;

fn sample_placement() -> Placement {
    Placement {
        drawn_width: 720_000_000,
        drawn_height: 360_000_000,
        offset_x: 36_000_000,
        offset_y: 126_000_000,
    }
}

#[test]
fn content_without_background() {
    let ops = content_ops(None, 792_000_000, 612_000_000, &sample_placement());
    assert_eq!(
        ops,
        vec![
            ContentOp::SaveState,
            ContentOp::Place {
                width: 720_000_000,
                height: 360_000_000,
                x: 36_000_000,
                y: 126_000_000
            },
            ContentOp::PaintDrawing,
            ContentOp::RestoreState,
        ]
    );
}

#[test]
fn content_with_background() {
    let ops = content_ops(Some([255, 128, 0]), 792_000_000, 612_000_000, &sample_placement());
    assert_eq!(
        ops,
        vec![
            ContentOp::SaveState,
            ContentOp::SetFillRgb { red: 255, green: 128, blue: 0 },
            ContentOp::Rectangle { x: 0, y: 0, width: 792_000_000, height: 612_000_000 },
            ContentOp::FillNonzero,
            ContentOp::RestoreState,
            ContentOp::SaveState,
            ContentOp::Place {
                width: 720_000_000,
                height: 360_000_000,
                x: 36_000_000,
                y: 126_000_000
            },
            ContentOp::PaintDrawing,
            ContentOp::RestoreState,
        ]
    );
}

#[test]
fn content_saves_and_restores_in_pairs() {
    for background in [None, Some([0, 0, 0])] {
        let ops = content_ops(background, 1, 2, &sample_placement());
        let mut depth: i32 = 0;
        for op in &ops {
            match op {
                ContentOp::SaveState => depth += 1,
                ContentOp::RestoreState => depth -= 1,
                _ => assert_eq!(depth, 1),
            }
            assert!(depth >= 0);
        }
        assert_eq!(depth, 0);
    }
}
