//! Colors and the server's color pool.
//!
//! The server assigns each joining player a visually distinct color from a
//! fixed palette and reclaims it when the player leaves or is dropped. Taking
//! a color never fails: an exhausted pool yields a deterministic fallback
//! (white) so a join is never rejected for lack of colors.

use vstd::prelude::*;

verus! {

/// An RGB color with 8-bit channels.
#[derive(Copy, Clone, Debug, PartialEq, Eq, Structural)]
pub struct Color {
    pub r: u8,
    pub g: u8,
    pub b: u8,
}

impl Color {
    /// Slightly simpler way to create a color.
    pub fn new(r: u8, g: u8, b: u8) -> (c: Color)
        ensures
            c == (Color { r, g, b }),
    {
        Color { r, g, b }
    }
}

/// What `ColorPicker::take` returns once the pool is empty.
pub open spec fn fallback_color() -> Color {
    Color { r: 255, g: 255, b: 255 }
}

/// The fixed palette a fresh pool holds, ordered dark to light.
pub open spec fn palette() -> Seq<Color> {
    seq![
            // Darkest
            Color { r: 160, g: 132, b: 68 },
            Color { r: 176, g: 176, b: 176 },
            Color { r: 184, g: 184, b: 64 },
            Color { r: 188, g: 140, b: 76 },
            Color { r: 208, g: 128, b: 92 },
            Color { r: 208, g: 112, b: 112 },
            Color { r: 192, g: 112, b: 176 },
            Color { r: 160, g: 112, b: 204 },
            Color { r: 124, g: 112, b: 208 },
            Color { r: 104, g: 116, b: 208 },
            Color { r: 104, g: 136, b: 204 },
            Color { r: 104, g: 156, b: 192 },
            Color { r: 104, g: 180, b: 148 },
            Color { r: 116, g: 180, b: 116 },
            Color { r: 132, g: 180, b: 104 },
            Color { r: 156, g: 168, b: 100 },
            // Light
            Color { r: 208, g: 180, b: 108 },
            Color { r: 220, g: 220, b: 220 },
            Color { r: 232, g: 232, b: 92 },
            Color { r: 220, g: 180, b: 104 },
            Color { r: 236, g: 168, b: 128 },
            Color { r: 236, g: 160, b: 160 },
            Color { r: 220, g: 156, b: 208 },
            Color { r: 196, g: 156, b: 236 },
            Color { r: 168, g: 160, b: 236 },
            Color { r: 144, g: 164, b: 236 },
            Color { r: 144, g: 180, b: 236 },
            Color { r: 144, g: 204, b: 232 },
            Color { r: 144, g: 228, b: 192 },
            Color { r: 164, g: 228, b: 164 },
            Color { r: 180, g: 228, b: 144 },
            Color { r: 204, g: 212, b: 136 },
            // Dark
            Color { r: 184, g: 156, b: 88 },
            Color { r: 200, g: 200, b: 200 },
            Color { r: 208, g: 208, b: 80 },
            Color { r: 204, g: 160, b: 92 },
            Color { r: 224, g: 148, b: 112 },
            Color { r: 224, g: 136, b: 136 },
            Color { r: 208, g: 132, b: 192 },
            Color { r: 180, g: 132, b: 220 },
            Color { r: 148, g: 136, b: 224 },
            Color { r: 124, g: 140, b: 224 },
            Color { r: 124, g: 156, b: 220 },
            Color { r: 124, g: 180, b: 212 },
            Color { r: 124, g: 208, b: 172 },
            Color { r: 140, g: 208, b: 140 },
            Color { r: 156, g: 204, b: 124 },
            Color { r: 180, g: 192, b: 120 },
            // Lightest
            Color { r: 232, g: 204, b: 124 },
            Color { r: 236, g: 236, b: 236 },
            Color { r: 252, g: 252, b: 104 },
            Color { r: 236, g: 200, b: 120 },
            Color { r: 252, g: 188, b: 148 },
            Color { r: 252, g: 180, b: 180 },
            Color { r: 236, g: 176, b: 224 },
            Color { r: 212, g: 176, b: 252 },
            Color { r: 188, g: 180, b: 252 },
            Color { r: 164, g: 184, b: 252 },
            Color { r: 164, g: 200, b: 252 },
            Color { r: 164, g: 224, b: 252 },
            Color { r: 164, g: 252, b: 212 },
            Color { r: 184, g: 252, b: 184 },
            Color { r: 200, g: 252, b: 164 },
            Color { r: 224, g: 236, b: 156 },
            Color { r: 252, g: 224, b: 140 },
    ]
}

/// How many colors a fresh pool holds.
pub open spec fn palette_len() -> int {
    palette().len() as int
}

/// Assigns and reclaims colors from a finite pool, handing them out at a
/// rotating index so assignment is deterministic and reproducible.
pub struct ColorPicker {
    /// Position of the next color to hand out.
    pub index: usize,
    /// The colors currently available.
    pub colors: Vec<Color>,
}

impl ColorPicker {
    /// The rotating index stays inside the pool, parking at zero when the
    /// pool is empty.
    pub open spec fn wf(self) -> bool {
        if self.colors.len() == 0 {
            self.index == 0
        } else {
            self.index < self.colors.len()
        }
    }

    /// A full pool of visually distinct colors, ordered dark to light; the
    /// contents and order are exactly [`palette`], so hand-out is
    /// reproducible across runs.
    pub fn new() -> (cp: ColorPicker)
        ensures
            cp.wf(),
            cp.colors@ == palette(),
            cp.colors.len() == palette_len(),
            cp.index == 5,
    {
        let colors: Vec<Color> = vec![
            // Darkest
            Color { r: 160, g: 132, b: 68 },
            Color { r: 176, g: 176, b: 176 },
            Color { r: 184, g: 184, b: 64 },
            Color { r: 188, g: 140, b: 76 },
            Color { r: 208, g: 128, b: 92 },
            Color { r: 208, g: 112, b: 112 },
            Color { r: 192, g: 112, b: 176 },
            Color { r: 160, g: 112, b: 204 },
            Color { r: 124, g: 112, b: 208 },
            Color { r: 104, g: 116, b: 208 },
            Color { r: 104, g: 136, b: 204 },
            Color { r: 104, g: 156, b: 192 },
            Color { r: 104, g: 180, b: 148 },
            Color { r: 116, g: 180, b: 116 },
            Color { r: 132, g: 180, b: 104 },
            Color { r: 156, g: 168, b: 100 },
            // Light
            Color { r: 208, g: 180, b: 108 },
            Color { r: 220, g: 220, b: 220 },
            Color { r: 232, g: 232, b: 92 },
            Color { r: 220, g: 180, b: 104 },
            Color { r: 236, g: 168, b: 128 },
            Color { r: 236, g: 160, b: 160 },
            Color { r: 220, g: 156, b: 208 },
            Color { r: 196, g: 156, b: 236 },
            Color { r: 168, g: 160, b: 236 },
            Color { r: 144, g: 164, b: 236 },
            Color { r: 144, g: 180, b: 236 },
            Color { r: 144, g: 204, b: 232 },
            Color { r: 144, g: 228, b: 192 },
            Color { r: 164, g: 228, b: 164 },
            Color { r: 180, g: 228, b: 144 },
            Color { r: 204, g: 212, b: 136 },
            // Dark
            Color { r: 184, g: 156, b: 88 },
            Color { r: 200, g: 200, b: 200 },
            Color { r: 208, g: 208, b: 80 },
            Color { r: 204, g: 160, b: 92 },
            Color { r: 224, g: 148, b: 112 },
            Color { r: 224, g: 136, b: 136 },
            Color { r: 208, g: 132, b: 192 },
            Color { r: 180, g: 132, b: 220 },
            Color { r: 148, g: 136, b: 224 },
            Color { r: 124, g: 140, b: 224 },
            Color { r: 124, g: 156, b: 220 },
            Color { r: 124, g: 180, b: 212 },
            Color { r: 124, g: 208, b: 172 },
            Color { r: 140, g: 208, b: 140 },
            Color { r: 156, g: 204, b: 124 },
            Color { r: 180, g: 192, b: 120 },
            // Lightest
            Color { r: 232, g: 204, b: 124 },
            Color { r: 236, g: 236, b: 236 },
            Color { r: 252, g: 252, b: 104 },
            Color { r: 236, g: 200, b: 120 },
            Color { r: 252, g: 188, b: 148 },
            Color { r: 252, g: 180, b: 180 },
            Color { r: 236, g: 176, b: 224 },
            Color { r: 212, g: 176, b: 252 },
            Color { r: 188, g: 180, b: 252 },
            Color { r: 164, g: 184, b: 252 },
            Color { r: 164, g: 200, b: 252 },
            Color { r: 164, g: 224, b: 252 },
            Color { r: 164, g: 252, b: 212 },
            Color { r: 184, g: 252, b: 184 },
            Color { r: 200, g: 252, b: 164 },
            Color { r: 224, g: 236, b: 156 },
            Color { r: 252, g: 224, b: 140 },
        ];
        proof {
            assert(colors@ =~= palette());
        }
        // Start a few steps in, handing out a mid-tone first.
        ColorPicker { index: 5, colors }
    }

    /// Remove and return the color at the rotating index, advancing the index;
    /// if the pool is empty, return the fallback color and change nothing.
    pub fn take(&mut self) -> (c: Color)
        requires
            old(self).wf(),
        ensures
            final(self).wf(),
            old(self).colors.len() == 0 ==> c == fallback_color() && *final(self) == *old(self),
            old(self).colors.len() > 0 ==> {
                &&& c == old(self).colors[old(self).index as int]
                &&& final(self).colors@ == old(self).colors@.remove(old(self).index as int)
                &&& final(self).index as int == (if final(self).colors@.len() == 0 {
                    0int
                } else {
                    ((old(self).index + 1) as int) % (final(self).colors@.len() as int)
                })
            },
    {
        if self.colors.len() == 0 {
            return Color::new(255, 255, 255);
        }
        let c = self.colors.remove(self.index);
        if self.colors.len() == 0 {
            self.index = 0;
        } else {
            self.index = (self.index + 1) % self.colors.len();
        }
        c
    }

    /// Return a color to the pool.
    pub fn give_back(&mut self, color: Color)
        requires
            old(self).wf(),
        ensures
            final(self).wf(),
            final(self).colors@ == old(self).colors@.push(color),
            final(self).index == old(self).index,
    {
        self.colors.push(color)
    }
}

} // verus!
