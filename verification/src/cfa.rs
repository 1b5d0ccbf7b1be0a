//! The color-filter-array pattern resolver: a small repeating tile of
//! filter colors plus an accumulated shift, mapping absolute pixel
//! coordinates to the filter color covering that photosite.

use vstd::prelude::*;

verus! {

/// The filter color covering a single sensor photosite. `Emerald` is
/// the fourth filter color of some four-color sensors; the
/// three-channel pipeline cannot place it and reports
/// `Error::UnsupportedFilterColor` on meeting it.
#[derive(Copy, Clone, Debug, PartialEq, Eq, Structural)]
pub enum CfaColor {
    Red,
    Green,
    Blue,
    Emerald,
}

impl CfaColor {
    /// The interleaved-RGB channel this filter color feeds: red 0,
    /// green 1, blue 2. Emerald has no channel and maps to 3, outside
    /// the channel range.
    pub open spec fn rgb_index_spec(self) -> int {
        match self {
            CfaColor::Red => 0,
            CfaColor::Green => 1,
            CfaColor::Blue => 2,
            CfaColor::Emerald => 3,
        }
    }

    /// The interleaved-RGB channel index of a placeable filter color.
    pub fn rgb_index(&self) -> (i: usize)
        requires
            !(self is Emerald),
        ensures
            i == self.rgb_index_spec(),
            i < 3,
    {
        match self {
            CfaColor::Red => 0,
            CfaColor::Green => 1,
            CfaColor::Blue => 2,
            CfaColor::Emerald => 0,
        }
    }
}

/// The filter color feeding a given interleaved-RGB channel: the
/// inverse of `rgb_index_spec` on the placeable colors.
pub open spec fn color_of_channel(ch: int) -> CfaColor {
    if ch == 0 {
        CfaColor::Red
    } else if ch == 1 {
        CfaColor::Green
    } else {
        CfaColor::Blue
    }
}

/// The CFA descriptor: a repeating tile of filter colors, row-major,
/// plus an accumulated `(shift_x, shift_y)` offset. The shift is kept
/// reduced modulo the tile dimensions.
#[derive(Clone, Debug)]
pub struct Cfa {
    pub tile_width: usize,
    pub tile_height: usize,
    pub pattern: Vec<CfaColor>,
    pub shift_x: usize,
    pub shift_y: usize,
}

impl Cfa {
    /// The descriptor's internal consistency: a non-empty tile whose
    /// pattern holds exactly one color per tile cell, and a shift
    /// already reduced modulo the tile dimensions.
    pub open spec fn wf(self) -> bool {
        &&& 0 < self.tile_width
        &&& 0 < self.tile_height
        &&& self.pattern@.len() == self.tile_width * self.tile_height
        &&& self.shift_x < self.tile_width
        &&& self.shift_y < self.tile_height
    }

    /// The filter color covering the photosite at absolute
    /// coordinates `(x, y)`: the tile entry at the shifted
    /// coordinates, wrapped modulo the tile dimensions.
    pub open spec fn color_at_spec(self, x: int, y: int) -> CfaColor {
        let tx = (x + self.shift_x) % (self.tile_width as int);
        let ty = (y + self.shift_y) % (self.tile_height as int);
        self.pattern@[ty * self.tile_width + tx]
    }

    /// Builds a descriptor, rejecting an empty tile or a pattern
    /// whose length does not match the tile dimensions; the given
    /// shift is reduced modulo the tile dimensions.
    pub fn new(
        tile_width: usize,
        tile_height: usize,
        pattern: Vec<CfaColor>,
        shift_x: usize,
        shift_y: usize,
    ) -> (r: Option<Cfa>)
        ensures
            r is Some <==> (0 < tile_width && 0 < tile_height && pattern@.len() == tile_width
                * tile_height),
            r matches Some(c) ==> {
                &&& c.wf()
                &&& c.tile_width == tile_width
                &&& c.tile_height == tile_height
                &&& c.pattern@ == pattern@
                &&& c.shift_x == shift_x % tile_width
                &&& c.shift_y == shift_y % tile_height
            },
    {
        if tile_width == 0 || tile_height == 0 {
            return None;
        }
        proof {
            assert((tile_width as u128) * (tile_height as u128) <= u128::MAX) by (nonlinear_arith)
                requires
                    tile_width as u128 <= u64::MAX as u128,
                    tile_height as u128 <= u64::MAX as u128,
            ;
        }
        let cells = (tile_width as u128) * (tile_height as u128);
        if (pattern.len() as u128) != cells {
            return None;
        }
        Some(
            Cfa {
                tile_width,
                tile_height,
                pattern,
                shift_x: shift_x % tile_width,
                shift_y: shift_y % tile_height,
            },
        )
    }

    /// The filter color covering the photosite at `(x, y)`.
    pub fn color_at(&self, x: usize, y: usize) -> (c: CfaColor)
        requires
            self.wf(),
        ensures
            c == self.color_at_spec(x as int, y as int),
    {
        let n = self.pattern.len();
        let tx = wrap_add(x % self.tile_width, self.shift_x, self.tile_width);
        let ty = wrap_add(y % self.tile_height, self.shift_y, self.tile_height);
        proof {
            vstd::arithmetic::div_mod::lemma_small_mod(
                self.shift_x as nat,
                self.tile_width as nat,
            );
            vstd::arithmetic::div_mod::lemma_add_mod_noop(
                x as int,
                self.shift_x as int,
                self.tile_width as int,
            );
            vstd::arithmetic::div_mod::lemma_small_mod(
                self.shift_y as nat,
                self.tile_height as nat,
            );
            vstd::arithmetic::div_mod::lemma_add_mod_noop(
                y as int,
                self.shift_y as int,
                self.tile_height as int,
            );
            assert(ty * self.tile_width + tx < self.tile_width * self.tile_height) by (nonlinear_arith)
                requires
                    tx < self.tile_width,
                    ty < self.tile_height,
            ;
            assert(ty * self.tile_width + tx < n);
        }
        self.pattern[ty * self.tile_width + tx]
    }

    /// The descriptor with its accumulated shift advanced by
    /// `(dx, dy)`: coordinates in a buffer whose origin moved by
    /// `(dx, dy)` then resolve to the same filter colors as before.
    pub open spec fn shifted_spec(self, dx: usize, dy: usize) -> Cfa {
        Cfa {
            tile_width: self.tile_width,
            tile_height: self.tile_height,
            pattern: self.pattern,
            shift_x: (((self.shift_x + dx) % (self.tile_width as int)) as usize),
            shift_y: (((self.shift_y + dy) % (self.tile_height as int)) as usize),
        }
    }

    /// Advances the accumulated shift by `(dx, dy)` in place, leaving
    /// the tile untouched.
    pub fn shift_by(&mut self, dx: usize, dy: usize)
        requires
            old(self).wf(),
        ensures
            *final(self) == old(self).shifted_spec(dx, dy),
            final(self).wf(),
    {
        let sx = wrap_add(self.shift_x, dx % self.tile_width, self.tile_width);
        let sy = wrap_add(self.shift_y, dy % self.tile_height, self.tile_height);
        proof {
            vstd::arithmetic::div_mod::lemma_small_mod(
                self.shift_x as nat,
                self.tile_width as nat,
            );
            vstd::arithmetic::div_mod::lemma_add_mod_noop(
                self.shift_x as int,
                dx as int,
                self.tile_width as int,
            );
            vstd::arithmetic::div_mod::lemma_small_mod(
                self.shift_y as nat,
                self.tile_height as nat,
            );
            vstd::arithmetic::div_mod::lemma_add_mod_noop(
                self.shift_y as int,
                dy as int,
                self.tile_height as int,
            );
        }
        self.shift_x = sx;
        self.shift_y = sy;
    }
}

/// `(a + b) % m` for `a < m` and `b < m`, without overflowing the
/// intermediate sum.
fn wrap_add(a: usize, b: usize, m: usize) -> (r: usize)
    requires
        0 < m,
        a < m,
        b < m,
    ensures
        r == (a + b) % (m as int),
        r < m,
{
    if a >= m - b {
        proof {
            vstd::arithmetic::div_mod::lemma_fundamental_div_mod_converse_mod(
                a + b,
                m as int,
                1,
                a + b - m,
            );
        }
        a - (m - b)
    } else {
        proof {
            vstd::arithmetic::div_mod::lemma_small_mod((a + b) as nat, m as nat);
        }
        a + b
    }
}

/// After a shift by `(dx, dy)`, resolving `(x, y)` gives the same
/// filter color that resolving `(x + dx, y + dy)` gave before the
/// shift: the geometric consistency the crop stage relies on.
pub proof fn lemma_shifted_color_at(cfa: Cfa, dx: usize, dy: usize, x: int, y: int)
    requires
        cfa.wf(),
    ensures
        cfa.shifted_spec(dx, dy).color_at_spec(x, y) == cfa.color_at_spec(x + dx, y + dy),
{
    let tw = cfa.tile_width as int;
    let th = cfa.tile_height as int;
    vstd::arithmetic::div_mod::lemma_add_mod_noop_right(x, cfa.shift_x + dx, tw);
    vstd::arithmetic::div_mod::lemma_add_mod_noop_right(y, cfa.shift_y + dy, th);
    assert((x + (cfa.shift_x + dx)) % tw == (x + dx + cfa.shift_x) % tw);
    assert((y + (cfa.shift_y + dy)) % th == (y + dy + cfa.shift_y) % th);
}

} // verus!
