use pixelflut::geometry::{GeometryError, ImagePosition, Placement};
use pixelflut::plan::{plan, PlanError, Strategy};
use pixelflut::protocol::CanvasSize;
use pixelflut::raster::Image;
use pixelflut::worker::{Action, ConnectionPolicy, Event, Pacing, Phase, Worker, WorkerConfig};

const CANVAS: CanvasSize = CanvasSize { width: 100, height: 50 };

fn config() -> WorkerConfig {
    WorkerConfig { pacing: Pacing::Tight, policy: ConnectionPolicy::Persistent }
}

/// Two columns and four rows; the pixel in column `x` of row `y` has the
/// red value `10 * y + x`, and only the left column is opaque in row 2.
fn tall_image() -> Image {
    let mut data = Vec::new();
    for y in 0..4u8 {
        for x in 0..2u8 {
            let alpha = if y == 2 && x == 1 { 17 } else { 255 };
            data.extend_from_slice(&[10 * y + x, 0, 0, alpha]);
        }
    }
    Image::from_raw(2, 4, data).unwrap()
}

fn lines(worker: &Worker) -> Vec<Vec<u8>> {
    (0..worker.len()).map(|index| worker.line(index).unwrap()).collect()
}

#[test]
fn row_bands_keep_the_rows_apart() {
    let placement = Placement::Absolute { x: 10, y: 20 };
    let workers = plan(CANVAS, &tall_image(), &placement, Strategy::RowBands, 2, config()).unwrap();
    assert_eq!(workers.len(), 2);
    assert_eq!(
        lines(&workers[0]),
        vec![
            b"PX 10 20 000000\n".to_vec(),
            b"PX 11 20 010000\n".to_vec(),
            b"PX 10 21 0a0000\n".to_vec(),
            b"PX 11 21 0b0000\n".to_vec(),
        ]
    );
    assert_eq!(
        lines(&workers[1]),
        vec![
            b"PX 10 22 140000\n".to_vec(),
            b"PX 10 23 1e0000\n".to_vec(),
            b"PX 11 23 1f0000\n".to_vec(),
        ]
    );
}

#[test]
fn row_bands_leave_the_last_rows_out() {
    let placement = Placement::Absolute { x: 0, y: 0 };
    let workers = plan(CANVAS, &tall_image(), &placement, Strategy::RowBands, 3, config()).unwrap();
    let sizes: Vec<usize> = workers.iter().map(|w| w.len()).collect();
    assert_eq!(sizes, vec![2, 2, 1]);
    let all: Vec<Vec<u8>> = workers.iter().flat_map(lines).collect();
    assert!(!all.contains(&b"PX 0 3 1e0000\n".to_vec()));
    assert!(!all.contains(&b"PX 1 3 1f0000\n".to_vec()));
}

#[test]
fn shuffled_plan_hands_out_equal_parts() {
    let placement = Placement::Anchored(ImagePosition::BottomRight);
    let workers =
        plan(CANVAS, &tall_image(), &placement, Strategy::ShuffledEvenSplit, 3, config()).unwrap();
    let sizes: Vec<usize> = workers.iter().map(|w| w.len()).collect();
    assert_eq!(sizes, vec![2, 2, 2]);
    let mut all: Vec<Vec<u8>> = workers.iter().flat_map(lines).collect();
    all.sort();
    all.dedup();
    assert_eq!(all.len(), 6);
    let possible: Vec<Vec<u8>> = vec![
        b"PX 98 46 000000\n".to_vec(),
        b"PX 99 46 010000\n".to_vec(),
        b"PX 98 47 0a0000\n".to_vec(),
        b"PX 99 47 0b0000\n".to_vec(),
        b"PX 98 48 140000\n".to_vec(),
        b"PX 98 49 1e0000\n".to_vec(),
        b"PX 99 49 1f0000\n".to_vec(),
    ];
    assert!(all.iter().all(|line| possible.contains(line)));
}

#[test]
fn planned_workers_have_not_started() {
    let placement = Placement::Absolute { x: 0, y: 0 };
    let mut workers =
        plan(CANVAS, &tall_image(), &placement, Strategy::RowBands, 2, config()).unwrap();
    for worker in workers.iter_mut() {
        assert_eq!(worker.phase(), Phase::Ready);
        assert_eq!(worker.cursor(), 0);
        assert_eq!(worker.step(Event::Start), Some(Action::Connect));
    }
}

#[test]
fn image_larger_than_the_canvas_cannot_be_anchored() {
    let small = CanvasSize { width: 1, height: 50 };
    let placement = Placement::Anchored(ImagePosition::TopLeft);
    let refused = plan(small, &tall_image(), &placement, Strategy::RowBands, 1, config());
    let expected = GeometryError {
        canvas_width: 1,
        canvas_height: 50,
        image_width: 2,
        image_height: 4,
    };
    assert_eq!(refused.err(), Some(PlanError::Geometry(expected)));
}

#[test]
fn image_larger_than_the_canvas_can_be_placed_by_hand() {
    let small = CanvasSize { width: 1, height: 1 };
    let placement = Placement::Absolute { x: 0, y: 0 };
    let workers = plan(small, &tall_image(), &placement, Strategy::RowBands, 1, config()).unwrap();
    assert_eq!(workers[0].len(), 7);
}

#[test]
fn offset_near_the_coordinate_limit() {
    let at_the_edge = Placement::Absolute { x: u32::MAX - 1, y: u32::MAX - 3 };
    let workers =
        plan(CANVAS, &tall_image(), &at_the_edge, Strategy::RowBands, 1, config()).unwrap();
    assert_eq!(workers[0].line(6), Some(b"PX 4294967295 4294967295 1f0000\n".to_vec()));

    let too_far_right = Placement::Absolute { x: u32::MAX, y: 0 };
    let refused = plan(CANVAS, &tall_image(), &too_far_right, Strategy::RowBands, 1, config());
    assert_eq!(refused.err(), Some(PlanError::CoordinateRange));

    let too_far_down = Placement::Absolute { x: 0, y: u32::MAX - 2 };
    let refused =
        plan(CANVAS, &tall_image(), &too_far_down, Strategy::ShuffledEvenSplit, 1, config());
    assert_eq!(refused.err(), Some(PlanError::CoordinateRange));
}

#[test]
fn transparent_pixels_do_not_count_against_the_coordinate_limit() {
    let image = Image::from_raw(2, 1, vec![1, 2, 3, 255, 4, 5, 6, 0]).unwrap();
    let placement = Placement::Absolute { x: u32::MAX, y: 0 };
    let workers = plan(CANVAS, &image, &placement, Strategy::RowBands, 1, config()).unwrap();
    assert_eq!(lines(&workers[0]), vec![b"PX 4294967295 0 010203\n".to_vec()]);
}
