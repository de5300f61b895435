use pixelflut::partition::{even_split, row_band_split, shuffle, shuffled_even_split};
use pixelflut::raster::DrawOp;

fn numbered(count: u32) -> Vec<DrawOp> {
    (0..count).map(|k| DrawOp { dx: k, dy: 0, r: 0, g: 0, b: 0 }).collect()
}

fn rows(height: u32) -> Vec<DrawOp> {
    (0..height).map(|row| DrawOp { dx: 0, dy: row, r: 0, g: 0, b: 0 }).collect()
}

fn sorted_keys(ops: &[DrawOp]) -> Vec<u32> {
    let mut keys: Vec<u32> = ops.iter().map(|op| op.dx).collect();
    keys.sort();
    keys
}

#[test]
fn seven_operations_among_three_workers() {
    let ops = numbered(7);
    let slices = even_split(&ops, 3);
    assert_eq!(slices.len(), 3);
    assert_eq!(slices[0], ops[0..2].to_vec());
    assert_eq!(slices[1], ops[2..4].to_vec());
    assert_eq!(slices[2], ops[4..6].to_vec());
    let handed_out: usize = slices.iter().map(|s| s.len()).sum();
    assert_eq!(handed_out, 6);
    assert!(slices.iter().all(|s| !s.contains(&ops[6])));
}

#[test]
fn seven_shuffled_operations_among_three_workers() {
    let ops = numbered(7);
    let slices = shuffled_even_split(ops, 3);
    let sizes: Vec<usize> = slices.iter().map(|s| s.len()).collect();
    assert_eq!(sizes, vec![2, 2, 2]);
    let all: Vec<DrawOp> = slices.concat();
    let keys = sorted_keys(&all);
    assert_eq!(keys.len(), 6);
    assert!(keys.windows(2).all(|pair| pair[0] < pair[1]));
    assert!(keys.iter().all(|key| *key < 7));
}

#[test]
fn even_split_with_fewer_operations_than_workers_hands_out_nothing() {
    let slices = even_split(&numbered(3), 4);
    assert_eq!(slices.len(), 4);
    assert!(slices.iter().all(|s| s.is_empty()));
}

#[test]
fn even_split_without_remainder_hands_out_everything() {
    let ops = numbered(12);
    let slices = even_split(&ops, 4);
    assert_eq!(slices.concat(), ops);
    assert!(slices.iter().all(|s| s.len() == 3));
}

#[test]
fn one_worker_gets_every_operation() {
    let ops = numbered(5);
    assert_eq!(even_split(&ops, 1), vec![ops.clone()]);
    assert_eq!(row_band_split(&rows(5), 5, 1), vec![rows(5)]);
}

#[test]
fn shuffle_keeps_every_operation_once() {
    let ops = numbered(1000);
    let shuffled = shuffle(ops.clone());
    assert_eq!(shuffled.len(), 1000);
    assert_eq!(sorted_keys(&shuffled), sorted_keys(&ops));
}

#[test]
fn shuffle_changes_the_order() {
    let ops = numbered(1000);
    let shuffled = shuffle(ops.clone());
    assert_ne!(shuffled, ops);
}

#[test]
fn shuffled_split_changes_the_order() {
    let ops = numbered(1000);
    let slices = shuffled_even_split(ops.clone(), 1);
    assert_eq!(slices.len(), 1);
    assert_ne!(slices[0], ops);
    assert_eq!(sorted_keys(&slices[0]), sorted_keys(&ops));
}

#[test]
fn ten_rows_among_three_workers() {
    let ops = rows(10);
    let slices = row_band_split(&ops, 10, 3);
    assert_eq!(slices.len(), 3);
    assert_eq!(slices[0], ops[0..3].to_vec());
    assert_eq!(slices[1], ops[3..6].to_vec());
    assert_eq!(slices[2], ops[6..9].to_vec());
    assert!(slices.iter().all(|s| s.iter().all(|op| op.dy < 9)));
}

#[test]
fn bands_keep_the_given_order() {
    let ops = vec![
        DrawOp { dx: 1, dy: 3, r: 0, g: 0, b: 0 },
        DrawOp { dx: 0, dy: 0, r: 0, g: 0, b: 0 },
        DrawOp { dx: 1, dy: 2, r: 0, g: 0, b: 0 },
        DrawOp { dx: 0, dy: 1, r: 0, g: 0, b: 0 },
        DrawOp { dx: 0, dy: 3, r: 0, g: 0, b: 0 },
    ];
    let slices = row_band_split(&ops, 4, 2);
    assert_eq!(slices[0], vec![ops[1], ops[3]]);
    assert_eq!(slices[1], vec![ops[0], ops[2], ops[4]]);
}

#[test]
fn more_workers_than_rows_leaves_every_band_empty() {
    let slices = row_band_split(&rows(3), 3, 4);
    assert_eq!(slices.len(), 4);
    assert!(slices.iter().all(|s| s.is_empty()));
}

#[test]
fn bands_reach_the_last_row_when_the_height_divides() {
    let ops = rows(8);
    let slices = row_band_split(&ops, 8, 4);
    assert_eq!(slices.concat(), ops);
    assert!(slices.iter().all(|s| s.len() == 2));
}

#[test]
fn bands_of_the_tallest_image_do_not_overflow() {
    let ops = vec![DrawOp { dx: 0, dy: u32::MAX - 1, r: 1, g: 2, b: 3 }];
    let slices = row_band_split(&ops, u32::MAX, 1);
    assert_eq!(slices, vec![ops.clone()]);
    let halves = row_band_split(&ops, u32::MAX, 2);
    assert_eq!(halves, vec![vec![], vec![]]);
}
