//! Screen regions, anchors, and the placement of a rectangle of known size
//! against an anchor.

use crate::error::Error;
use vstd::prelude::*;

verus! {

/// A rectangle on a screen, in pixels.
#[derive(Debug, Clone, Copy, PartialEq, Eq, Structural)]
pub struct Region {
    pub x: u32,
    pub y: u32,
    pub w: u32,
    pub h: u32,
}

impl Region {
    /// A region with its top left corner at `(x, y)`, `w` pixels wide and `h` pixels high.
    pub fn new(x: u32, y: u32, w: u32, h: u32) -> (region: Region)
        ensures
            region == (Region { x, y, w, h }),
    {
        Region { x, y, w, h }
    }

    /// The region as `(x, y, w, h)`.
    pub fn values(&self) -> (values: (u32, u32, u32, u32))
        ensures
            values == (self.x, self.y, self.w, self.h),
    {
        (self.x, self.y, self.w, self.h)
    }
}

/// Position of an anchor along one axis.
///
/// `Top` and `Bottom` belong to the vertical axis, `Left` and `Right` to the
/// horizontal axis, and `Center` to either.
#[derive(Debug, Clone, Copy, PartialEq, Eq, Structural)]
pub enum AnchorPosition {
    /// Top of the screen
    Top,
    /// Center of the screen
    Center,
    /// Bottom of the screen
    Bottom,
    /// Left of the screen
    Left,
    /// Right of the screen
    Right,
}

impl AnchorPosition {
    /// Whether the position can stand on the horizontal axis.
    pub open spec fn is_horizontal(self) -> bool {
        self == AnchorPosition::Left || self == AnchorPosition::Center || self
            == AnchorPosition::Right
    }

    /// Whether the position can stand on the vertical axis.
    pub open spec fn is_vertical(self) -> bool {
        self == AnchorPosition::Top || self == AnchorPosition::Center || self
            == AnchorPosition::Bottom
    }
}

/// Where along one axis a span of `size` pixels starts when it is anchored at
/// `position` inside the span of `extent` pixels that starts at `start`: flush
/// with the near edge, flush with the far edge, or centred with the odd pixel
/// left over on the far side.
pub open spec fn anchored_start(
    position: AnchorPosition,
    start: int,
    extent: int,
    size: int,
) -> int {
    match position {
        AnchorPosition::Left | AnchorPosition::Top => start,
        AnchorPosition::Right | AnchorPosition::Bottom => start + extent - size,
        AnchorPosition::Center => start + (extent - size) / 2,
    }
}

/// Whether `anchored_start` plus `offset` can be computed and held in a `u32`:
/// a centred span is no longer than the extent, and the result is neither
/// negative nor beyond `u32::MAX`.
pub open spec fn start_fits(
    position: AnchorPosition,
    start: int,
    extent: int,
    size: int,
    offset: int,
) -> bool {
    &&& position == AnchorPosition::Center ==> size <= extent
    &&& 0 <= anchored_start(position, start, extent, size)
    &&& anchored_start(position, start, extent, size) + offset <= u32::MAX
}

/// A span that is no longer than the extent starts and ends inside it.
pub proof fn lemma_anchored_within(position: AnchorPosition, start: int, extent: int, size: int)
    requires
        0 <= size <= extent,
    ensures
        start <= anchored_start(position, start, extent, size),
        anchored_start(position, start, extent, size) + size <= start + extent,
{
}

/// `anchored_start` plus `offset`.
fn start_along(
    position: AnchorPosition,
    start: u32,
    extent: u32,
    size: u32,
    offset: u32,
) -> (at: u32)
    requires
        start_fits(position, start as int, extent as int, size as int, offset as int),
    ensures
        at == anchored_start(position, start as int, extent as int, size as int) + offset,
{
    let edge: u64 = match position {
        AnchorPosition::Left | AnchorPosition::Top => start as u64,
        AnchorPosition::Right | AnchorPosition::Bottom => start as u64 + extent as u64
            - size as u64,
        AnchorPosition::Center => start as u64 + (extent as u64 - size as u64) / 2,
    };
    (edge + offset as u64) as u32
}

/// Whether `start_fits` holds.
fn start_along_fits(
    position: AnchorPosition,
    start: u32,
    extent: u32,
    size: u32,
    offset: u32,
) -> (fits: bool)
    ensures
        fits == start_fits(position, start as int, extent as int, size as int, offset as int),
{
    let limit: u64 = u32::MAX as u64;
    match position {
        AnchorPosition::Left | AnchorPosition::Top => start as u64 + offset as u64 <= limit,
        AnchorPosition::Right | AnchorPosition::Bottom => {
            let far: u64 = start as u64 + extent as u64;
            far >= size as u64 && far - size as u64 + offset as u64 <= limit
        },
        AnchorPosition::Center => {
            size <= extent && start as u64 + (extent as u64 - size as u64) / 2 + offset as u64
                <= limit
        },
    }
}

/// Where an overlay is placed on the screen: a point of the screen, given by
/// one position on each axis, and an offset from it in pixels.
#[derive(Debug, Clone, Copy)]
pub struct Anchor {
    horizontal: AnchorPosition,
    vertical: AnchorPosition,
    offset: (u32, u32),
}

impl Anchor {
    /// The position on the horizontal axis.
    pub closed spec fn spec_horizontal(&self) -> AnchorPosition {
        self.horizontal
    }

    /// The position on the vertical axis.
    pub closed spec fn spec_vertical(&self) -> AnchorPosition {
        self.vertical
    }

    /// The offset from the anchor point, `(x, y)` in pixels.
    pub closed spec fn spec_offset(&self) -> (u32, u32) {
        self.offset
    }

    /// Each position stands on its own axis. This holds of every anchor that
    /// the program holds.
    #[verifier::type_invariant]
    pub open spec fn wf(self) -> bool {
        self.horizontal().is_horizontal() && self.vertical().is_vertical()
    }

    /// An anchor at `horizontal` and `vertical`, moved by `offset` pixels.
    ///
    /// Fails with `InvalidAnchor` when `horizontal` is `Top` or `Bottom`, or
    /// `vertical` is `Left` or `Right`.
    pub fn new(horizontal: AnchorPosition, vertical: AnchorPosition, offset: (u32, u32)) -> (result:
        Result<Anchor, Error>)
        ensures
            horizontal.is_horizontal() && vertical.is_vertical() ==> result is Ok,
            result matches Ok(anchor) ==> {
                &&& anchor.wf()
                &&& anchor.horizontal() == horizontal
                &&& anchor.vertical() == vertical
                &&& anchor.offset() == offset
            },
            !(horizontal.is_horizontal() && vertical.is_vertical()) ==> result == Err::<
                Anchor,
                Error,
            >(Error::InvalidAnchor),
    {
        if horizontal == AnchorPosition::Top || horizontal == AnchorPosition::Bottom {
            return Err(Error::InvalidAnchor);
        }
        if vertical == AnchorPosition::Left || vertical == AnchorPosition::Right {
            return Err(Error::InvalidAnchor);
        }
        Ok(Anchor { horizontal, vertical, offset })
    }

    /// The anchor in the center of the screen with no offset.
    pub fn default() -> (anchor: Anchor)
        ensures
            anchor.wf(),
            anchor.horizontal() == AnchorPosition::Center,
            anchor.vertical() == AnchorPosition::Center,
            anchor.offset() == (0u32, 0u32),
    {
        Anchor {
            horizontal: AnchorPosition::Center,
            vertical: AnchorPosition::Center,
            offset: (0, 0),
        }
    }

    /// Whether a rectangle of `w` by `h` pixels can be placed on `screen`: on
    /// each axis `start_fits` holds.
    pub open spec fn placeable(self, screen: Region, w: u32, h: u32) -> bool {
        &&& start_fits(
            self.horizontal(),
            screen.x as int,
            screen.w as int,
            w as int,
            self.offset().0 as int,
        )
        &&& start_fits(
            self.vertical(),
            screen.y as int,
            screen.h as int,
            h as int,
            self.offset().1 as int,
        )
    }

    /// The rectangle of `w` by `h` pixels as this anchor places it on `screen`:
    /// anchored on each axis, then moved by the offset.
    pub open spec fn placed(self, screen: Region, w: u32, h: u32) -> Region
        recommends
            self.placeable(screen, w, h),
    {
        Region {
            x: (anchored_start(self.horizontal(), screen.x as int, screen.w as int, w as int)
                + self.offset().0) as u32,
            y: (anchored_start(self.vertical(), screen.y as int, screen.h as int, h as int)
                + self.offset().1) as u32,
            w,
            h,
        }
    }

    /// Whether a rectangle of `w` by `h` pixels can be placed on `screen`.
    pub fn can_place(&self, screen: Region, w: u32, h: u32) -> (fits: bool)
        ensures
            fits == self.placeable(screen, w, h),
    {
        start_along_fits(self.horizontal, screen.x, screen.w, w, self.offset.0)
            && start_along_fits(self.vertical, screen.y, screen.h, h, self.offset.1)
    }

    /// Places a rectangle of `w` by `h` pixels on `screen`.
    pub fn place(&self, screen: Region, w: u32, h: u32) -> (region: Region)
        requires
            self.placeable(screen, w, h),
        ensures
            region == self.placed(screen, w, h),
            region.x == anchored_start(
                self.horizontal(),
                screen.x as int,
                screen.w as int,
                w as int,
            ) + self.offset().0,
            region.y == anchored_start(self.vertical(), screen.y as int, screen.h as int, h as int)
                + self.offset().1,
            region.w == w,
            region.h == h,
    {
        let x = start_along(self.horizontal, screen.x, screen.w, w, self.offset.0);
        let y = start_along(self.vertical, screen.y, screen.h, h, self.offset.1);
        Region { x, y, w, h }
    }

    /// The position on the horizontal axis.
    #[verifier::when_used_as_spec(spec_horizontal)]
    pub fn horizontal(&self) -> (position: AnchorPosition)
        ensures
            position == self.horizontal(),
    {
        self.horizontal
    }

    /// The position on the vertical axis.
    #[verifier::when_used_as_spec(spec_vertical)]
    pub fn vertical(&self) -> (position: AnchorPosition)
        ensures
            position == self.vertical(),
    {
        self.vertical
    }

    /// The offset from the anchor point, `(x, y)` in pixels.
    #[verifier::when_used_as_spec(spec_offset)]
    pub fn offset(&self) -> (offset: (u32, u32))
        ensures
            offset == self.offset(),
    {
        self.offset
    }
}

} // verus!
