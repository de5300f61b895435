use pixelflut::geometry::{calculate_position, resolve, GeometryError, ImagePosition, Placement};

#[test]
fn bottom_right_of_a_thousand_square_canvas() {
    assert_eq!(
        calculate_position(1000, 1000, 100, 100, &ImagePosition::BottomRight),
        Ok((900, 900))
    );
}

#[test]
fn every_anchor_on_a_small_canvas() {
    let cases = [
        (ImagePosition::TopLeft, (0, 0)),
        (ImagePosition::TopMiddle, (3, 0)),
        (ImagePosition::TopRight, (7, 0)),
        (ImagePosition::MiddleLeft, (0, 2)),
        (ImagePosition::Middle, (3, 2)),
        (ImagePosition::MiddleRight, (7, 2)),
        (ImagePosition::BottomLeft, (0, 5)),
        (ImagePosition::BottomMiddle, (3, 5)),
        (ImagePosition::BottomRight, (7, 5)),
    ];
    for (position, expected) in cases {
        assert_eq!(calculate_position(10, 8, 3, 3, &position), Ok(expected));
    }
}

#[test]
fn centre_halves_the_free_space_rounding_down() {
    assert_eq!(calculate_position(11, 8, 2, 3, &ImagePosition::Middle), Ok((4, 2)));
}

#[test]
fn anchored_image_stays_on_the_canvas() {
    let positions = [
        ImagePosition::TopLeft,
        ImagePosition::TopMiddle,
        ImagePosition::TopRight,
        ImagePosition::MiddleLeft,
        ImagePosition::Middle,
        ImagePosition::MiddleRight,
        ImagePosition::BottomLeft,
        ImagePosition::BottomMiddle,
        ImagePosition::BottomRight,
    ];
    for position in positions {
        let (x, y) = calculate_position(640, 480, 639, 1, &position).unwrap();
        assert!(x as u64 + 639 <= 640);
        assert!(y as u64 + 1 <= 480);
    }
}

#[test]
fn image_as_large_as_the_canvas_sits_at_the_origin() {
    assert_eq!(calculate_position(5, 5, 5, 5, &ImagePosition::BottomRight), Ok((0, 0)));
    assert_eq!(
        calculate_position(u32::MAX, u32::MAX, 0, 0, &ImagePosition::BottomRight),
        Ok((u32::MAX, u32::MAX))
    );
}

#[test]
fn image_wider_than_the_canvas_is_refused() {
    let expected = GeometryError {
        canvas_width: 10,
        canvas_height: 10,
        image_width: 11,
        image_height: 1,
    };
    assert_eq!(calculate_position(10, 10, 11, 1, &ImagePosition::TopLeft), Err(expected));
    assert_eq!(calculate_position(10, 10, 11, 1, &ImagePosition::BottomRight), Err(expected));
}

#[test]
fn image_taller_than_the_canvas_is_refused() {
    assert!(calculate_position(10, 10, 1, 11, &ImagePosition::TopMiddle).is_err());
    assert!(resolve(10, 10, 1, 11, &Placement::Anchored(ImagePosition::Middle)).is_err());
}

#[test]
fn absolute_placement_is_returned_unchecked() {
    assert_eq!(resolve(10, 10, 500, 500, &Placement::Absolute { x: 7, y: 9 }), Ok((7, 9)));
    assert_eq!(
        resolve(0, 0, 1, 1, &Placement::Absolute { x: u32::MAX, y: 0 }),
        Ok((u32::MAX, 0))
    );
}

#[test]
fn anchored_placement_resolves_like_calculate_position() {
    assert_eq!(
        resolve(1000, 1000, 100, 100, &Placement::Anchored(ImagePosition::BottomRight)),
        Ok((900, 900))
    );
}
