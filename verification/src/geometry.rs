//! Where an image lands on the canvas.

use vstd::prelude::*;

verus! {

/// The nine anchor points at which an image can be placed on the canvas.
#[derive(Clone, Copy, Debug, PartialEq, Eq, Structural)]
pub enum ImagePosition {
    TopLeft,
    TopMiddle,
    TopRight,
    MiddleLeft,
    Middle,
    MiddleRight,
    BottomLeft,
    BottomMiddle,
    BottomRight,
}

/// Horizontal component of an anchor.
#[derive(Clone, Copy, Debug, PartialEq, Eq, Structural)]
pub enum Horizontal {
    Left,
    Center,
    Right,
}

/// Vertical component of an anchor.
#[derive(Clone, Copy, Debug, PartialEq, Eq, Structural)]
pub enum Vertical {
    Top,
    Middle,
    Bottom,
}

/// A placement directive: an anchor, or an explicit top-left corner.
#[derive(Clone, Copy, Debug, PartialEq, Eq, Structural)]
pub enum Placement {
    Anchored(ImagePosition),
    Absolute { x: u32, y: u32 },
}

/// The image does not fit on the canvas, so no anchored placement exists.
#[derive(Clone, Copy, Debug, PartialEq, Eq, Structural)]
pub struct GeometryError {
    pub canvas_width: u32,
    pub canvas_height: u32,
    pub image_width: u32,
    pub image_height: u32,
}

impl ImagePosition {
    /// The column of the anchor grid this position lies in.
    pub open spec fn horizontal(self) -> Horizontal {
        match self {
            ImagePosition::TopLeft | ImagePosition::MiddleLeft | ImagePosition::BottomLeft =>
                Horizontal::Left,
            ImagePosition::TopMiddle | ImagePosition::Middle | ImagePosition::BottomMiddle =>
                Horizontal::Center,
            ImagePosition::TopRight | ImagePosition::MiddleRight | ImagePosition::BottomRight =>
                Horizontal::Right,
        }
    }

    /// The row of the anchor grid this position lies in.
    pub open spec fn vertical(self) -> Vertical {
        match self {
            ImagePosition::TopLeft | ImagePosition::TopMiddle | ImagePosition::TopRight =>
                Vertical::Top,
            ImagePosition::MiddleLeft | ImagePosition::Middle | ImagePosition::MiddleRight =>
                Vertical::Middle,
            ImagePosition::BottomLeft | ImagePosition::BottomMiddle | ImagePosition::BottomRight =>
                Vertical::Bottom,
        }
    }
}

/// Offset along one axis, given the free space `canvas - image` on that axis.
pub open spec fn horizontal_offset(canvas: int, image: int, h: Horizontal) -> int {
    match h {
        Horizontal::Left => 0,
        Horizontal::Center => (canvas - image) / 2,
        Horizontal::Right => canvas - image,
    }
}

/// Offset along the vertical axis, given the free space `canvas - image`.
pub open spec fn vertical_offset(canvas: int, image: int, v: Vertical) -> int {
    match v {
        Vertical::Top => 0,
        Vertical::Middle => (canvas - image) / 2,
        Vertical::Bottom => canvas - image,
    }
}

/// Whether an image of the given size fits on the canvas.
pub open spec fn fits(canvas_w: u32, canvas_h: u32, image_w: u32, image_h: u32) -> bool {
    image_w <= canvas_w && image_h <= canvas_h
}

/// The top-left corner at which an anchored image is drawn.
pub open spec fn anchored_offset(
    canvas_w: u32,
    canvas_h: u32,
    image_w: u32,
    image_h: u32,
    position: ImagePosition,
) -> (int, int) {
    (
        horizontal_offset(canvas_w as int, image_w as int, position.horizontal()),
        vertical_offset(canvas_h as int, image_h as int, position.vertical()),
    )
}

/// What `resolve` returns, as a mathematical function of its inputs.
pub open spec fn resolve_spec(
    canvas_w: u32,
    canvas_h: u32,
    image_w: u32,
    image_h: u32,
    placement: Placement,
) -> Result<(u32, u32), GeometryError> {
    match placement {
        Placement::Absolute { x, y } => Ok((x, y)),
        Placement::Anchored(position) => if fits(canvas_w, canvas_h, image_w, image_h) {
            let off = anchored_offset(canvas_w, canvas_h, image_w, image_h, position);
            Ok((off.0 as u32, off.1 as u32))
        } else {
            Err(
                GeometryError {
                    canvas_width: canvas_w,
                    canvas_height: canvas_h,
                    image_width: image_w,
                    image_height: image_h,
                },
            )
        },
    }
}

/// Computes the top-left corner for an anchored placement.
///
/// Fails exactly when the image is wider or taller than the canvas.
pub fn calculate_position(
    pf_width: u32,
    pf_height: u32,
    image_width: u32,
    image_height: u32,
    position: &ImagePosition,
) -> (res: Result<(u32, u32), GeometryError>)
    ensures
        res == resolve_spec(
            pf_width,
            pf_height,
            image_width,
            image_height,
            Placement::Anchored(*position),
        ),
        res is Ok <==> fits(pf_width, pf_height, image_width, image_height),
        res matches Ok(off) ==> {
            &&& off.0 == horizontal_offset(
                pf_width as int,
                image_width as int,
                position.horizontal(),
            )
            &&& off.1 == vertical_offset(pf_height as int, image_height as int, position.vertical())
            &&& off.0 + image_width <= pf_width
            &&& off.1 + image_height <= pf_height
        },
{
    if image_width > pf_width || image_height > pf_height {
        return Err(
            GeometryError {
                canvas_width: pf_width,
                canvas_height: pf_height,
                image_width,
                image_height,
            },
        );
    }
    let free_w: u32 = pf_width - image_width;
    let free_h: u32 = pf_height - image_height;
    let offset = match position {
        ImagePosition::TopLeft => (0, 0),
        ImagePosition::TopMiddle => (free_w / 2, 0),
        ImagePosition::TopRight => (free_w, 0),
        ImagePosition::MiddleLeft => (0, free_h / 2),
        ImagePosition::Middle => (free_w / 2, free_h / 2),
        ImagePosition::MiddleRight => (free_w, free_h / 2),
        ImagePosition::BottomLeft => (0, free_h),
        ImagePosition::BottomMiddle => (free_w / 2, free_h),
        ImagePosition::BottomRight => (free_w, free_h),
    };
    Ok(offset)
}

/// Resolves a placement directive to the top-left corner of the drawing.
///
/// An absolute placement is returned as given, with no bounds check; an
/// anchored one is computed from the free space on each axis.
pub fn resolve(
    canvas_w: u32,
    canvas_h: u32,
    image_w: u32,
    image_h: u32,
    placement: &Placement,
) -> (res: Result<(u32, u32), GeometryError>)
    ensures
        res == resolve_spec(canvas_w, canvas_h, image_w, image_h, *placement),
{
    match placement {
        Placement::Absolute { x, y } => Ok((*x, *y)),
        Placement::Anchored(position) => calculate_position(
            canvas_w,
            canvas_h,
            image_w,
            image_h,
            position,
        ),
    }
}

/// An anchored image that fits lies wholly on the canvas: on each axis the
/// offset plus the image's extent does not exceed the canvas's extent, and
/// the central anchor halves the free space on both axes.
pub proof fn lemma_anchored_within_canvas(
    canvas_w: u32,
    canvas_h: u32,
    image_w: u32,
    image_h: u32,
    position: ImagePosition,
)
    requires
        fits(canvas_w, canvas_h, image_w, image_h),
    ensures
        resolve_spec(canvas_w, canvas_h, image_w, image_h, Placement::Anchored(position)) is Ok,
        ({
            let off = resolve_spec(
                canvas_w,
                canvas_h,
                image_w,
                image_h,
                Placement::Anchored(position),
            )->Ok_0;
            &&& off.0 + image_w <= canvas_w
            &&& off.1 + image_h <= canvas_h
            &&& position == ImagePosition::Middle ==> off == (
                ((canvas_w - image_w) / 2) as u32,
                ((canvas_h - image_h) / 2) as u32,
            )
        }),
{
}

/// An absolute placement resolves to itself, whatever the sizes.
pub proof fn lemma_absolute_is_identity(
    canvas_w: u32,
    canvas_h: u32,
    image_w: u32,
    image_h: u32,
    x: u32,
    y: u32,
)
    ensures
        resolve_spec(canvas_w, canvas_h, image_w, image_h, Placement::Absolute { x, y }) == Ok::<
            (u32, u32),
            GeometryError,
        >((x, y)),
{
}

} // verus!
