//! The typed image buffer and its in-place transforms: the
//! sensor-plane buffer with crop and white-balance, and the
//! linear-RGB buffer that demosaicing produces.

use vstd::prelude::*;

use crate::cfa::{Cfa, CfaColor};
use crate::Error;

verus! {

/// A white-balance multiplier for one filter color, held as an exact
/// rational `num / den`; scaling truncates the quotient toward zero.
#[derive(Copy, Clone, Debug, PartialEq, Eq, Structural)]
pub struct WbCoefficient {
    pub num: u32,
    pub den: u32,
}

/// One white-balance multiplier per placeable filter color, indexed
/// by the color's channel ordinal.
#[derive(Copy, Clone, Debug, PartialEq, Eq, Structural)]
pub struct WbCoefficients {
    pub red: WbCoefficient,
    pub green: WbCoefficient,
    pub blue: WbCoefficient,
}

impl WbCoefficients {
    /// Every multiplier has a positive denominator.
    pub open spec fn wf(self) -> bool {
        &&& self.red.den > 0
        &&& self.green.den > 0
        &&& self.blue.den > 0
    }

    /// The multiplier for a placeable filter color.
    pub open spec fn coeff_spec(self, c: CfaColor) -> WbCoefficient {
        match c {
            CfaColor::Red => self.red,
            CfaColor::Green => self.green,
            CfaColor::Blue => self.blue,
            CfaColor::Emerald => self.red,
        }
    }

    /// The multiplier for a placeable filter color.
    pub fn coeff(&self, c: CfaColor) -> (r: WbCoefficient)
        requires
            !(c is Emerald),
        ensures
            r == self.coeff_spec(c),
    {
        match c {
            CfaColor::Red => self.red,
            CfaColor::Green => self.green,
            CfaColor::Blue => self.blue,
            CfaColor::Emerald => self.red,
        }
    }
}

/// A crop rectangle in sensor-plane pixel units: how many columns to
/// remove at each side and rows at top and bottom.
#[derive(Copy, Clone, Debug, PartialEq, Eq, Structural)]
pub struct Crop {
    pub left: usize,
    pub right: usize,
    pub top: usize,
    pub bottom: usize,
}

/// The metadata a decoder hands over with a sensor-plane buffer: the
/// crop rectangle (absent once consumed), the white-balance
/// multipliers, the per-channel white levels, and the CFA descriptor.
#[derive(Clone, Debug)]
pub struct Metadata {
    pub crop: Option<Crop>,
    pub whitebalance: WbCoefficients,
    pub whitelevels: [u32; 3],
    pub cfa: Cfa,
}

impl Metadata {
    /// The CFA descriptor and the white-balance multipliers are
    /// internally consistent.
    pub open spec fn wf(self) -> bool {
        &&& self.cfa.wf()
        &&& self.whitebalance.wf()
    }

    /// Runtime check of `wf`, for callers that assemble metadata from
    /// unchecked parts.
    pub fn is_wf(&self) -> (b: bool)
        ensures
            b == self.wf(),
    {
        proof {
            assert((self.cfa.tile_width as u128) * (self.cfa.tile_height as u128)
                <= u128::MAX) by (nonlinear_arith)
                requires
                    self.cfa.tile_width as u128 <= u64::MAX as u128,
                    self.cfa.tile_height as u128 <= u64::MAX as u128,
            ;
        }
        let cfa_ok = self.cfa.tile_width > 0 && self.cfa.tile_height > 0
            && (self.cfa.pattern.len() as u128) == (self.cfa.tile_width as u128)
            * (self.cfa.tile_height as u128) && self.cfa.shift_x < self.cfa.tile_width
            && self.cfa.shift_y < self.cfa.tile_height;
        cfa_ok && self.whitebalance.red.den > 0 && self.whitebalance.green.den > 0
            && self.whitebalance.blue.den > 0
    }
}

/// A sensor-plane image buffer: one raw sample per photosite, row
/// major, with each photosite's true color given by the CFA
/// descriptor. This type alone exposes crop, white-balance and
/// demosaic; the linear-RGB buffer a demosaic produces does not, so
/// those stages cannot run on already-demosaiced data.
#[derive(Clone, Debug)]
pub struct Image<T> {
    pub width: usize,
    pub height: usize,
    pub metadata: Metadata,
    pub data: Vec<T>,
}

/// A three-channel linear-RGB image buffer: interleaved
/// red-green-blue samples, row major. Terminal for this pipeline;
/// downstream colorspace stages take over from here.
#[derive(Clone, Debug)]
pub struct RgbImage<T> {
    pub width: usize,
    pub height: usize,
    pub metadata: Metadata,
    pub data: Vec<T>,
}

impl<T> RgbImage<T> {
    /// Consistent metadata and exactly three samples per pixel.
    pub open spec fn wf(self) -> bool {
        &&& self.metadata.wf()
        &&& self.data@.len() == self.width * self.height * 3
    }

    /// The colorspace hand-off: surrenders the buffer's parts to a
    /// downstream colorspace stage without altering a single sample.
    /// Consuming the typed buffer here is the point — once handed
    /// off, crop, white-balance and demosaic can no longer run on it.
    pub fn into_raw_parts(self) -> (r: (usize, usize, Metadata, Vec<T>))
        ensures
            r.0 == self.width,
            r.1 == self.height,
            r.2 == self.metadata,
            r.3@ == self.data@,
    {
        (self.width, self.height, self.metadata, self.data)
    }
}

impl<T> Image<T> {
    /// Consistent metadata, exactly one sample per photosite, and a
    /// pixel count whose three-channel expansion still fits in
    /// `usize`.
    pub open spec fn wf(self) -> bool {
        &&& self.metadata.wf()
        &&& self.data@.len() == self.width * self.height
        &&& self.width * self.height * 3 <= usize::MAX
    }

    /// Assembles a sensor-plane buffer from its parts, rejecting
    /// inconsistent metadata, a sample count that does not match the
    /// dimensions, or a pixel count whose three-channel expansion
    /// would not fit in `usize`.
    pub fn from_raw_parts(width: usize, height: usize, metadata: Metadata, data: Vec<T>) -> (r:
        Option<Image<T>>)
        ensures
            r is Some <==> (metadata.wf() && data@.len() == width * height && width * height * 3
                <= usize::MAX),
            r matches Some(img) ==> {
                &&& img.wf()
                &&& img.width == width
                &&& img.height == height
                &&& img.metadata == metadata
                &&& img.data@ == data@
            },
    {
        if !metadata.is_wf() {
            return None;
        }
        proof {
            assert((width as u128) * (height as u128) <= u128::MAX) by (nonlinear_arith)
                requires
                    width as u128 <= u64::MAX as u128,
                    height as u128 <= u64::MAX as u128,
            ;
        }
        let pixels = (width as u128) * (height as u128);
        if (data.len() as u128) != pixels {
            return None;
        }
        if pixels * 3 > usize::MAX as u128 {
            return None;
        }
        Some(Image { width, height, metadata, data })
    }
}

/// The filter color of the photosite at flat row-major index `i` in
/// a buffer `w` samples wide.
pub open spec fn color_at_flat(cfa: Cfa, w: int, i: int) -> CfaColor {
    cfa.color_at_spec(i % w, i / w)
}

/// What a successful crop by rectangle `c` leaves behind: reduced
/// dimensions, the interior rows' interior spans packed row major,
/// the CFA shift advanced by the removed margin, and the crop
/// rectangle consumed.
pub open spec fn cropped_ok<T>(pre: Image<T>, post: Image<T>, c: Crop) -> bool {
    let nw = pre.width - (c.left + c.right);
    let nh = pre.height - (c.top + c.bottom);
    &&& post.width == nw
    &&& post.height == nh
    &&& post.metadata.crop is None
    &&& post.metadata.whitebalance == pre.metadata.whitebalance
    &&& post.metadata.whitelevels == pre.metadata.whitelevels
    &&& post.metadata.cfa == pre.metadata.cfa.shifted_spec(c.left, c.top)
    &&& post.data@.len() == nw * nh
    &&& forall|i: int|
        0 <= i < nw * nh ==> post.data@[i] == pre.data@[(i / nw + c.top) * pre.width + c.left + i
            % nw]
}

/// `0 <= r * w + c < w * h` for a row-major position `(r, c)` inside
/// a `w` by `h` grid.
proof fn lemma_row_major_bound(r: int, c: int, w: int, h: int)
    requires
        0 <= r < h,
        0 <= c < w,
    ensures
        0 <= r * w + c < w * h,
{
    assert(0 <= r * w + c < w * h) by (nonlinear_arith)
        requires
            0 <= r < h,
            0 <= c < w,
    ;
}

impl<T: Copy> Image<T> {
    /// The filter color of the photosite at flat index `i`.
    pub fn color_at_i(&self, i: usize) -> (c: CfaColor)
        requires
            self.wf(),
            i < self.data@.len(),
        ensures
            c == color_at_flat(self.metadata.cfa, self.width as int, i as int),
    {
        proof {
            assert(self.width > 0) by (nonlinear_arith)
                requires
                    self.data@.len() == self.width * self.height,
                    i < self.data@.len(),
            ;
        }
        self.metadata.cfa.color_at(i % self.width, i / self.width)
    }

    /// Removes the sensor margin the crop rectangle names: a camera
    /// masks part of the sensor for black-level calibration, and this
    /// cuts the buffer down to the exposed interior.
    ///
    /// Absent rectangle: the buffer is untouched, so a second call
    /// after a successful crop is a no-op. A rectangle that does not
    /// leave a positive interior fails with `InvalidCropRect` and
    /// leaves the buffer unmodified; validation happens before any
    /// write. On success the dimensions shrink by the rectangle's
    /// margins, the interior samples are repacked row major, the CFA
    /// shift advances by `(left, top)` so every kept photosite keeps
    /// its filter color, and the rectangle is consumed.
    pub fn crop(&mut self) -> (r: Result<(), Error>)
        requires
            old(self).wf(),
        ensures
            final(self).wf(),
            match old(self).metadata.crop {
                None => r == Ok::<(), Error>(()) && *final(self) == *old(self),
                Some(c) => {
                    if c.left + c.right < old(self).width && c.top + c.bottom < old(
                        self,
                    ).height {
                        r == Ok::<(), Error>(()) && cropped_ok(*old(self), *final(self), c)
                    } else {
                        r == Err::<(), Error>(Error::InvalidCropRect) && *final(self) == *old(self)
                    }
                },
            },
    {
        let c = match &self.metadata.crop {
            Some(c) => *c,
            None => {
                return Ok(());
            },
        };
        if (c.left as u128) + (c.right as u128) >= (self.width as u128) || (c.top as u128) + (
        c.bottom as u128) >= (self.height as u128) {
            return Err(Error::InvalidCropRect);
        }
        let new_width = self.width - (c.left + c.right);
        let new_height = self.height - (c.top + c.bottom);
        proof {
            assert(new_width * new_height * 3 <= self.width * self.height * 3)
                by (nonlinear_arith)
                requires
                    0 < new_width <= self.width,
                    0 < new_height <= self.height,
            ;
        }
        let mut interior: Vec<T> = Vec::new();
        let mut row: usize = 0;
        while row < new_height
            invariant
                self == old(self),
                old(self).wf(),
                old(self).metadata.crop == Some(c),
                c.left + c.right < self.width,
                c.top + c.bottom < self.height,
                new_width == self.width - (c.left + c.right),
                new_height == self.height - (c.top + c.bottom),
                row <= new_height,
                interior@.len() == row * new_width,
                forall|i: int|
                    0 <= i < interior@.len() ==> interior@[i] == self.data@[(i / (new_width as int)
                        + c.top) * self.width + c.left + i % (new_width as int)],
            decreases new_height - row,
        {
            proof {
                lemma_row_major_bound(row as int, 0, new_width as int, new_height as int);
                lemma_row_major_bound(
                    (row + c.top) as int,
                    (c.left + new_width - 1) as int,
                    self.width as int,
                    self.height as int,
                );
            }
            let base = (row + c.top) * self.width + c.left;
            let mut col: usize = 0;
            while col < new_width
                invariant
                    self == old(self),
                    old(self).wf(),
                    c.left + c.right < self.width,
                    c.top + c.bottom < self.height,
                    new_width == self.width - (c.left + c.right),
                    new_height == self.height - (c.top + c.bottom),
                    row < new_height,
                    col <= new_width,
                    base == (row + c.top) * self.width + c.left,
                    base + new_width <= self.data@.len(),
                    interior@.len() == row * new_width + col,
                    forall|i: int|
                        0 <= i < interior@.len() ==> interior@[i] == self.data@[(i / (
                        new_width as int) + c.top) * self.width + c.left + i % (new_width as int)],
                decreases new_width - col,
            {
                let ghost idx = interior@.len() as int;
                interior.push(self.data[base + col]);
                proof {
                    vstd::arithmetic::div_mod::lemma_fundamental_div_mod_converse(
                        idx,
                        new_width as int,
                        row as int,
                        col as int,
                    );
                    assert((idx / (new_width as int) + c.top) * self.width + c.left + idx % (
                    new_width as int) == base + col) by (nonlinear_arith)
                        requires
                            idx / (new_width as int) == row,
                            idx % (new_width as int) == col,
                            base == (row + c.top) * self.width + c.left,
                    ;
                }
                col = col + 1;
            }
            proof {
                assert((row + 1) * new_width == row * new_width + new_width) by (nonlinear_arith);
            }
            row = row + 1;
        }
        proof {
            assert(interior@.len() == new_width * new_height) by (nonlinear_arith)
                requires
                    interior@.len() == new_height * new_width,
            ;
        }
        self.width = new_width;
        self.height = new_height;
        self.data = interior;
        self.metadata.crop = None;
        self.metadata.cfa.shift_by(c.left, c.top);
        Ok(())
    }
}

/// What white-balance scaling does to one integer sample: the exact
/// rational product `v * num / den` truncated toward zero, then
/// clamped to the sample type's maximum. Clamping on overflow is this
/// pipeline's declared policy for integer samples.
pub open spec fn scaled_sample(v: nat, c: WbCoefficient, max: nat) -> nat {
    let q = (v * (c.num as nat)) / (c.den as nat);
    if q > max {
        max
    } else {
        q
    }
}

/// Applying white balance twice with a whole-number multiplier
/// scales a sample by the multiplier's square, not by the multiplier:
/// the stage is cumulative, not idempotent. Stated for multipliers
/// with denominator one and no clamping; with a fractional multiplier
/// the intermediate truncation can shift the result.
pub proof fn lemma_whitebalance_twice(v: nat, c: WbCoefficient, max: nat)
    requires
        c.den == 1,
        v * (c.num as nat) * (c.num as nat) <= max,
    ensures
        scaled_sample(scaled_sample(v, c, max), c, max) == v * ((c.num as nat) * (c.num as nat)),
{
    let m = c.num as nat;
    assert(v * m / 1 == v * m) by (nonlinear_arith);
    if m == 0 {
        assert(v * m == 0) by (nonlinear_arith)
            requires
                m == 0,
        ;
        assert(scaled_sample(v, c, max) == 0);
        assert(0nat * m == 0) by (nonlinear_arith);
        assert(v * (m * m) == 0) by (nonlinear_arith)
            requires
                m == 0,
        ;
    } else {
        assert(v * m <= v * m * m) by (nonlinear_arith)
            requires
                m >= 1,
        ;
        let q = v * m;
        assert(scaled_sample(v, c, max) == q);
        assert(q * m / 1 == q * m) by (nonlinear_arith);
        assert(q * m == v * (m * m)) by (nonlinear_arith)
            requires
                q == v * m,
        ;
    }
}

/// Scales one 16-bit sample by a white-balance multiplier: exact
/// wide-integer product, truncating division, clamp at the type
/// maximum.
fn scale_u16(v: u16, c: WbCoefficient) -> (r: u16)
    requires
        c.den > 0,
    ensures
        r as nat == scaled_sample(v as nat, c, u16::MAX as nat),
{
    proof {
        assert((v as u64) * (c.num as u64) <= u64::MAX) by (nonlinear_arith)
            requires
                v as u64 <= u16::MAX as u64,
                c.num as u64 <= u32::MAX as u64,
        ;
    }
    let wide = (v as u64) * (c.num as u64) / (c.den as u64);
    if wide > u16::MAX as u64 {
        u16::MAX
    } else {
        wide as u16
    }
}

/// Scales one 8-bit sample by a white-balance multiplier: exact
/// wide-integer product, truncating division, clamp at the type
/// maximum.
fn scale_u8(v: u8, c: WbCoefficient) -> (r: u8)
    requires
        c.den > 0,
    ensures
        r as nat == scaled_sample(v as nat, c, u8::MAX as nat),
{
    proof {
        assert((v as u64) * (c.num as u64) <= u64::MAX) by (nonlinear_arith)
            requires
                v as u64 <= u8::MAX as u64,
                c.num as u64 <= u32::MAX as u64,
        ;
    }
    let wide = (v as u64) * (c.num as u64) / (c.den as u64);
    if wide > u8::MAX as u64 {
        u8::MAX
    } else {
        wide as u8
    }
}

impl Image<u16> {
    /// Multiplies every sample in place by the white-balance
    /// coefficient of its photosite's filter color: the exact
    /// rational product truncated toward zero and clamped at the
    /// sample maximum. Fails with `UnsupportedFilterColor`, leaving
    /// the buffer untouched, if any photosite's filter color has no
    /// coefficient (Emerald). Metadata is never changed, so running
    /// the stage twice scales cumulatively.
    pub fn whitebalance(&mut self) -> (r: Result<(), Error>)
        requires
            old(self).wf(),
        ensures
            final(self).wf(),
            final(self).width == old(self).width,
            final(self).height == old(self).height,
            final(self).metadata == old(self).metadata,
            ({
                let w = old(self).width as int;
                let n = old(self).data@.len() as int;
                let cfa = old(self).metadata.cfa;
                if exists|i: int| 0 <= i < n && (#[trigger] color_at_flat(cfa, w, i)) is Emerald {
                    r == Err::<(), Error>(Error::UnsupportedFilterColor) && final(self).data@
                        == old(self).data@
                } else {
                    r == Ok::<(), Error>(()) && final(self).data@.len() == n && forall|i: int|
                        0 <= i < n ==> final(self).data@[i] as nat == scaled_sample(
                            old(self).data@[i] as nat,
                            old(self).metadata.whitebalance.coeff_spec(
                                color_at_flat(cfa, w, i),
                            ),
                            u16::MAX as nat,
                        )
                }
            }),
    {
        let len = self.data.len();
        let mut i: usize = 0;
        while i < len
            invariant
                *self == *old(self),
                old(self).wf(),
                len == self.data@.len(),
                i <= len,
                forall|j: int|
                    0 <= j < i ==> !((#[trigger] color_at_flat(
                        self.metadata.cfa,
                        self.width as int,
                        j,
                    )) is Emerald),
            decreases len - i,
        {
            let c = self.color_at_i(i);
            if let CfaColor::Emerald = c {
                return Err(Error::UnsupportedFilterColor);
            }
            i = i + 1;
        }
        let wb = self.metadata.whitebalance;
        let mut i: usize = 0;
        while i < len
            invariant
                self.wf(),
                old(self).wf(),
                self.width == old(self).width,
                self.height == old(self).height,
                self.metadata == old(self).metadata,
                wb == old(self).metadata.whitebalance,
                len == self.data@.len(),
                len == old(self).data@.len(),
                i <= len,
                forall|j: int|
                    0 <= j < len ==> !((#[trigger] color_at_flat(
                        self.metadata.cfa,
                        self.width as int,
                        j,
                    )) is Emerald),
                forall|j: int|
                    0 <= j < i ==> self.data@[j] as nat == scaled_sample(
                        old(self).data@[j] as nat,
                        wb.coeff_spec(
                            color_at_flat(self.metadata.cfa, self.width as int, j),
                        ),
                        u16::MAX as nat,
                    ),
                forall|j: int| i <= j < len ==> self.data@[j] == old(self).data@[j],
            decreases len - i,
        {
            let c = self.color_at_i(i);
            let coeff = wb.coeff(c);
            let v = self.data[i];
            let s = scale_u16(v, coeff);
            self.data.set(i, s);
            i = i + 1;
        }
        Ok(())
    }
}

impl Image<u8> {
    /// The 8-bit entry point of the white-balance stage; the same
    /// contract as the 16-bit one, clamped at the 8-bit maximum.
    pub fn whitebalance(&mut self) -> (r: Result<(), Error>)
        requires
            old(self).wf(),
        ensures
            final(self).wf(),
            final(self).width == old(self).width,
            final(self).height == old(self).height,
            final(self).metadata == old(self).metadata,
            ({
                let w = old(self).width as int;
                let n = old(self).data@.len() as int;
                let cfa = old(self).metadata.cfa;
                if exists|i: int| 0 <= i < n && (#[trigger] color_at_flat(cfa, w, i)) is Emerald {
                    r == Err::<(), Error>(Error::UnsupportedFilterColor) && final(self).data@
                        == old(self).data@
                } else {
                    r == Ok::<(), Error>(()) && final(self).data@.len() == n && forall|i: int|
                        0 <= i < n ==> final(self).data@[i] as nat == scaled_sample(
                            old(self).data@[i] as nat,
                            old(self).metadata.whitebalance.coeff_spec(
                                color_at_flat(cfa, w, i),
                            ),
                            u8::MAX as nat,
                        )
                }
            }),
    {
        let len = self.data.len();
        let mut i: usize = 0;
        while i < len
            invariant
                *self == *old(self),
                old(self).wf(),
                len == self.data@.len(),
                i <= len,
                forall|j: int|
                    0 <= j < i ==> !((#[trigger] color_at_flat(
                        self.metadata.cfa,
                        self.width as int,
                        j,
                    )) is Emerald),
            decreases len - i,
        {
            let c = self.color_at_i(i);
            if let CfaColor::Emerald = c {
                return Err(Error::UnsupportedFilterColor);
            }
            i = i + 1;
        }
        let wb = self.metadata.whitebalance;
        let mut i: usize = 0;
        while i < len
            invariant
                self.wf(),
                old(self).wf(),
                self.width == old(self).width,
                self.height == old(self).height,
                self.metadata == old(self).metadata,
                wb == old(self).metadata.whitebalance,
                len == self.data@.len(),
                len == old(self).data@.len(),
                i <= len,
                forall|j: int|
                    0 <= j < len ==> !((#[trigger] color_at_flat(
                        self.metadata.cfa,
                        self.width as int,
                        j,
                    )) is Emerald),
                forall|j: int|
                    0 <= j < i ==> self.data@[j] as nat == scaled_sample(
                        old(self).data@[j] as nat,
                        wb.coeff_spec(
                            color_at_flat(self.metadata.cfa, self.width as int, j),
                        ),
                        u8::MAX as nat,
                    ),
                forall|j: int| i <= j < len ==> self.data@[j] == old(self).data@[j],
            decreases len - i,
        {
            let c = self.color_at_i(i);
            let coeff = wb.coeff(c);
            let v = self.data[i];
            let s = scale_u8(v, coeff);
            self.data.set(i, s);
            i = i + 1;
        }
        Ok(())
    }
}

} // verus!
