//! Screen rectangles and the way the tiling layouts cut them in two.

use vstd::prelude::*;

verus! {

/// A rectangle on the screen: the position of its top-left pixel and its size.
#[derive(Clone, Copy, Debug, PartialEq, Eq, Structural)]
pub struct Rectangle {
    pub x: i16,
    pub y: i16,
    pub width: u16,
    pub height: u16,
}

impl Rectangle {
    /// Whether the pixel `(px, py)` lies inside the rectangle.
    pub open spec fn contains(self, px: int, py: int) -> bool {
        &&& self.x <= px < self.x + self.width
        &&& self.y <= py < self.y + self.height
    }

    /// The number of pixels of the rectangle.
    pub open spec fn area(self) -> int {
        self.width * self.height
    }

    /// Whether every pixel of the rectangle, and its far corner, can be
    /// addressed with 16-bit signed coordinates.
    pub open spec fn addressable(self) -> bool {
        &&& self.x + self.width <= i16::MAX + 1
        &&& self.y + self.height <= i16::MAX + 1
    }

    /// The half that a split hands out first: the left half when the
    /// rectangle is split along its width, the upper half otherwise. Its
    /// extent along the split is half of the whole's, rounded down.
    pub open spec fn first_half(self, along_width: bool) -> Rectangle {
        if along_width {
            Rectangle { x: self.x, y: self.y, width: self.width / 2, height: self.height }
        } else {
            Rectangle { x: self.x, y: self.y, width: self.width, height: self.height / 2 }
        }
    }

    /// The half that a split keeps: it has the size of the first half and
    /// starts where the first half ends.
    pub open spec fn second_half(self, along_width: bool) -> Rectangle {
        if along_width {
            Rectangle {
                x: (self.x + self.width / 2) as i16,
                y: self.y,
                width: self.width / 2,
                height: self.height,
            }
        } else {
            Rectangle {
                x: self.x,
                y: (self.y + self.height / 2) as i16,
                width: self.width,
                height: self.height / 2,
            }
        }
    }

    /// Whether the two halves of a split cover the whole rectangle: the
    /// extent along the split is even, or the rectangle has no pixel to lose.
    pub open spec fn splits_without_loss(self, along_width: bool) -> bool {
        if along_width {
            self.width % 2 == 0 || self.height == 0
        } else {
            self.height % 2 == 0 || self.width == 0
        }
    }

    /// Cuts the rectangle in two halves of equal size, side by side when
    /// `along_width` holds and one above the other otherwise.
    pub fn split(self, along_width: bool) -> (halves: (Rectangle, Rectangle))
        requires
            self.addressable(),
        ensures
            halves.0 == self.first_half(along_width),
            halves.1 == self.second_half(along_width),
            halves.0.addressable(),
            halves.1.addressable(),
    {
        if along_width {
            let half: u16 = self.width / 2;
            let shift: i16 = half as i16;
            (
                Rectangle { x: self.x, y: self.y, width: half, height: self.height },
                Rectangle { x: self.x + shift, y: self.y, width: half, height: self.height },
            )
        } else {
            let half: u16 = self.height / 2;
            let shift: i16 = half as i16;
            (
                Rectangle { x: self.x, y: self.y, width: self.width, height: half },
                Rectangle { x: self.x, y: self.y + shift, width: self.width, height: half },
            )
        }
    }
}

/// The halves of a split lie inside the rectangle and share no pixel; where
/// the split loses nothing, every pixel of the rectangle lies in one of them.
pub proof fn lemma_split_partitions(whole: Rectangle, along_width: bool, px: int, py: int)
    requires
        whole.addressable(),
    ensures
        whole.first_half(along_width).contains(px, py) ==> whole.contains(px, py),
        whole.second_half(along_width).contains(px, py) ==> whole.contains(px, py),
        !(whole.first_half(along_width).contains(px, py) && whole.second_half(
            along_width,
        ).contains(px, py)),
        whole.splits_without_loss(along_width) && whole.contains(px, py) ==> (whole.first_half(
            along_width,
        ).contains(px, py) || whole.second_half(along_width).contains(px, py)),
{
}

} // verus!
