//! The demosaic engine: consumes a sensor-plane buffer and produces
//! a three-channel linear-RGB buffer. Each pixel's own sample passes
//! through to the channel of its native filter color; each other
//! channel is copied from one of the eight immediate neighbors whose
//! filter color matches it, drawn at random by the rolling sampler.
//! The one-pixel border ring keeps the sentinel fill (the buffer's
//! first native sample) rather than a computed reconstruction.

use vstd::prelude::*;

use crate::cfa::{color_of_channel, Cfa, CfaColor};
use crate::image::{Image, RgbImage};
use crate::random::RollingRandom;
use crate::Error;

verus! {

/// The offset of the `k`-th of the eight immediate neighbors: the
/// 3-by-3 neighborhood without its center, row major.
pub open spec fn neighbor_offset(k: int) -> (int, int) {
    if k == 0 {
        (-1, -1)
    } else if k == 1 {
        (0, -1)
    } else if k == 2 {
        (1, -1)
    } else if k == 3 {
        (-1, 0)
    } else if k == 4 {
        (1, 0)
    } else if k == 5 {
        (-1, 1)
    } else if k == 6 {
        (0, 1)
    } else {
        (1, 1)
    }
}

/// The filter color of the `k`-th immediate neighbor of `(x, y)`.
pub open spec fn neighbor_color(cfa: Cfa, x: int, y: int, k: int) -> CfaColor {
    cfa.color_at_spec(x + neighbor_offset(k).0, y + neighbor_offset(k).1)
}

/// Some immediate neighbor of `(x, y)` carries filter color `c`.
pub open spec fn has_neighbor_of_color(cfa: Cfa, x: int, y: int, c: CfaColor) -> bool {
    exists|k: int| 0 <= k < 8 && #[trigger] neighbor_color(cfa, x, y, k) == c
}

/// The sample an interleaved-RGB buffer of width `w` holds in channel
/// `ch` of pixel `(x, y)`.
pub open spec fn channel_value<T>(rgb: Seq<T>, w: int, x: int, y: int, ch: int) -> T {
    rgb[(y * w + x) * 3 + ch]
}

/// Channel `ch` of pixel `(x, y)` was copied from an immediate
/// neighbor whose filter color feeds that channel: never an average,
/// never a value from anywhere else.
pub open spec fn channel_from_neighbor<T>(
    cfa: Cfa,
    w: int,
    data: Seq<T>,
    rgb: Seq<T>,
    x: int,
    y: int,
    ch: int,
) -> bool {
    exists|k: int|
        0 <= k < 8 && #[trigger] neighbor_color(cfa, x, y, k) == color_of_channel(ch)
            && channel_value(rgb, w, x, y, ch) == data[(y + neighbor_offset(k).1) * w + (x
            + neighbor_offset(k).0)]
}

/// Pixel `(x, y)` is fully reconstructed in `rgb`: its native channel
/// holds its own raw sample exactly, and each other channel holds a
/// matching neighbor's raw sample.
pub open spec fn pixel_ok<T>(cfa: Cfa, w: int, data: Seq<T>, rgb: Seq<T>, x: int, y: int) -> bool {
    let c = cfa.color_at_spec(x, y);
    &&& !(c is Emerald)
    &&& channel_value(rgb, w, x, y, c.rgb_index_spec()) == data[y * w + x]
    &&& forall|ch: int|
        0 <= ch < 3 && ch != c.rgb_index_spec() ==> #[trigger] channel_from_neighbor(
            cfa,
            w,
            data,
            rgb,
            x,
            y,
            ch,
        )
}

/// `(x, y)` lies strictly inside the image: it has all eight
/// immediate neighbors. The remaining one-pixel ring is the border.
pub open spec fn is_interior(w: int, h: int, x: int, y: int) -> bool {
    1 <= x < w - 1 && 1 <= y < h - 1
}

/// The three-channel pipeline can reconstruct pixel `(x, y)`: its
/// native filter color is placeable, and every other channel's color
/// appears among its eight immediate neighbors.
pub open spec fn pixel_supported(cfa: Cfa, x: int, y: int) -> bool {
    let c = cfa.color_at_spec(x, y);
    &&& !(c is Emerald)
    &&& forall|ch: int|
        0 <= ch < 3 && ch != c.rgb_index_spec() ==> #[trigger] has_neighbor_of_color(
            cfa,
            x,
            y,
            color_of_channel(ch),
        )
}

/// Every interior pixel of a `w` by `h` sensor grid can be
/// reconstructed: the condition the demosaic engine validates before
/// it writes anything.
pub open spec fn all_supported(cfa: Cfa, w: int, h: int) -> bool {
    forall|x: int, y: int| is_interior(w, h, x, y) ==> #[trigger] pixel_supported(cfa, x, y)
}

/// Every interior pixel of the output is fully reconstructed.
pub open spec fn demosaic_ok<T>(cfa: Cfa, w: int, h: int, data: Seq<T>, rgb: Seq<T>) -> bool {
    forall|x: int, y: int|
        is_interior(w, h, x, y) ==> #[trigger] pixel_ok(cfa, w, data, rgb, x, y)
}

/// `i` is one of the three channel slots of pixel `(x, y)`.
pub open spec fn own_channel(w: int, x: int, y: int, i: int) -> bool {
    (y * w + x) * 3 <= i < (y * w + x) * 3 + 3
}

/// Distinct pixel-channel triples occupy distinct slots of an
/// interleaved three-channel row-major buffer.
proof fn lemma_channel_index_injective(
    w: int,
    x1: int,
    y1: int,
    c1: int,
    x2: int,
    y2: int,
    c2: int,
)
    requires
        0 < w,
        0 <= x1 < w,
        0 <= x2 < w,
        0 <= y1,
        0 <= y2,
        0 <= c1 < 3,
        0 <= c2 < 3,
        (y1 * w + x1) * 3 + c1 == (y2 * w + x2) * 3 + c2,
    ensures
        x1 == x2,
        y1 == y2,
        c1 == c2,
{
    let a1 = y1 * w + x1;
    let a2 = y2 * w + x2;
    assert(a1 >= 0 && a2 >= 0) by (nonlinear_arith)
        requires
            0 <= x1,
            0 <= x2,
            0 <= y1,
            0 <= y2,
            0 < w,
            a1 == y1 * w + x1,
            a2 == y2 * w + x2,
    ;
    vstd::arithmetic::div_mod::lemma_fundamental_div_mod_converse(a1 * 3 + c1, 3, a1, c1);
    vstd::arithmetic::div_mod::lemma_fundamental_div_mod_converse(a2 * 3 + c2, 3, a2, c2);
    assert(a1 == a2 && c1 == c2);
    vstd::arithmetic::div_mod::lemma_fundamental_div_mod_converse(a1, w, y1, x1);
    vstd::arithmetic::div_mod::lemma_fundamental_div_mod_converse(a2, w, y2, x2);
}

/// `0 <= r * w + c < w * h` for a row-major position `(r, c)` in a
/// `w` by `h` grid.
proof fn lemma_grid_bound(r: int, c: int, w: int, h: int)
    requires
        0 <= r < h,
        0 <= c < w,
    ensures
        0 <= r * w + c < w * h,
{
    assert(0 <= r * w + c < w * h) by (nonlinear_arith)
        requires
            0 <= r < h,
            0 <= c < w,
    ;
}

/// A channel copied from a matching neighbor stays so when a write
/// elsewhere leaves that channel's slot untouched.
proof fn lemma_channel_from_neighbor_frame<T>(
    cfa: Cfa,
    w: int,
    data: Seq<T>,
    rgb1: Seq<T>,
    rgb2: Seq<T>,
    x: int,
    y: int,
    ch: int,
)
    requires
        channel_from_neighbor(cfa, w, data, rgb1, x, y, ch),
        channel_value(rgb2, w, x, y, ch) == channel_value(rgb1, w, x, y, ch),
    ensures
        channel_from_neighbor(cfa, w, data, rgb2, x, y, ch),
{
    let k = choose|k: int|
        0 <= k < 8 && #[trigger] neighbor_color(cfa, x, y, k) == color_of_channel(ch)
            && channel_value(rgb1, w, x, y, ch) == data[(y + neighbor_offset(k).1) * w + (x
            + neighbor_offset(k).0)];
    assert(neighbor_color(cfa, x, y, k) == color_of_channel(ch) && channel_value(
        rgb2,
        w,
        x,
        y,
        ch,
    ) == data[(y + neighbor_offset(k).1) * w + (x + neighbor_offset(k).0)]);
}

/// A reconstructed pixel stays reconstructed when a write elsewhere
/// leaves its three channel slots untouched.
proof fn lemma_pixel_ok_frame<T>(
    cfa: Cfa,
    w: int,
    data: Seq<T>,
    rgb1: Seq<T>,
    rgb2: Seq<T>,
    x: int,
    y: int,
)
    requires
        pixel_ok(cfa, w, data, rgb1, x, y),
        forall|ch: int|
            0 <= ch < 3 ==> #[trigger] channel_value(rgb2, w, x, y, ch) == channel_value(
                rgb1,
                w,
                x,
                y,
                ch,
            ),
    ensures
        pixel_ok(cfa, w, data, rgb2, x, y),
{
    let c = cfa.color_at_spec(x, y);
    assert(channel_value(rgb2, w, x, y, c.rgb_index_spec()) == data[y * w + x]);
    assert forall|ch: int|
        0 <= ch < 3 && ch != c.rgb_index_spec() implies #[trigger] channel_from_neighbor(
        cfa,
        w,
        data,
        rgb2,
        x,
        y,
        ch,
    ) by {
        assert(channel_from_neighbor(cfa, w, data, rgb1, x, y, ch));
        let k = choose|k: int|
            0 <= k < 8 && #[trigger] neighbor_color(cfa, x, y, k) == color_of_channel(ch)
                && channel_value(rgb1, w, x, y, ch) == data[(y + neighbor_offset(k).1) * w + (x
                + neighbor_offset(k).0)];
        assert(channel_value(rgb2, w, x, y, ch) == channel_value(rgb1, w, x, y, ch));
        assert(neighbor_color(cfa, x, y, k) == color_of_channel(ch) && channel_value(
            rgb2,
            w,
            x,
            y,
            ch,
        ) == data[(y + neighbor_offset(k).1) * w + (x + neighbor_offset(k).0)]);
    }
}

/// The placeable filter color feeding output channel `ch`.
fn channel_color(ch: usize) -> (c: CfaColor)
    requires
        ch < 3,
    ensures
        c == color_of_channel(ch as int),
        !(c is Emerald),
        c.rgb_index_spec() == ch,
{
    if ch == 0 {
        CfaColor::Red
    } else if ch == 1 {
        CfaColor::Green
    } else {
        CfaColor::Blue
    }
}

/// Writes one channel slot of one pixel in an interleaved
/// three-channel row-major buffer.
fn set_channel<T>(rgb: &mut Vec<T>, w: usize, x: usize, y: usize, ch: usize, v: T)
    requires
        ch < 3,
        (y * w + x) * 3 + ch < old(rgb)@.len(),
    ensures
        final(rgb)@ == old(rgb)@.update(((y * w + x) * 3 + ch) as int, v),
{
    let n = rgb.len();
    proof {
        assert((y * w + x) * 3 + ch < n);
    }
    rgb.set((y * w + x) * 3 + ch, v)
}

/// The eight immediate neighbors of `(x, y)`, row major, each tagged
/// with its filter color.
fn neighbor_options(cfa: &Cfa, x: usize, y: usize) -> (opts: Vec<(CfaColor, usize, usize)>)
    requires
        cfa.wf(),
        1 <= x < usize::MAX,
        1 <= y < usize::MAX,
    ensures
        opts@.len() == 8,
        forall|k: int|
            0 <= k < 8 ==> {
                &&& (#[trigger] opts@[k]).0 == neighbor_color(*cfa, x as int, y as int, k)
                &&& opts@[k].1 == x + neighbor_offset(k).0
                &&& opts@[k].2 == y + neighbor_offset(k).1
            },
{
    let mut opts: Vec<(CfaColor, usize, usize)> = Vec::new();
    opts.push((cfa.color_at(x - 1, y - 1), x - 1, y - 1));
    opts.push((cfa.color_at(x, y - 1), x, y - 1));
    opts.push((cfa.color_at(x + 1, y - 1), x + 1, y - 1));
    opts.push((cfa.color_at(x - 1, y), x - 1, y));
    opts.push((cfa.color_at(x + 1, y), x + 1, y));
    opts.push((cfa.color_at(x - 1, y + 1), x - 1, y + 1));
    opts.push((cfa.color_at(x, y + 1), x, y + 1));
    opts.push((cfa.color_at(x + 1, y + 1), x + 1, y + 1));
    opts
}

/// Keeps the options whose filter color matches `color` and draws one
/// of them uniformly at random with the rolling sampler.
pub fn pick_color(
    roll: &mut RollingRandom,
    options: &Vec<(CfaColor, usize, usize)>,
    color: CfaColor,
) -> (r: (usize, usize))
    requires
        options@.len() <= 255,
        exists|j: int| 0 <= j < options@.len() && (#[trigger] options@[j]).0 == color,
    ensures
        exists|j: int| 0 <= j < options@.len() && options@[j] == (color, r.0, r.1),
{
    let mut cands: Vec<(usize, usize)> = Vec::new();
    let mut j: usize = 0;
    while j < options.len()
        invariant
            j <= options@.len(),
            options@.len() <= 255,
            cands@.len() <= j,
            forall|m: int|
                0 <= m < cands@.len() ==> exists|jj: int|
                    0 <= jj < options@.len() && options@[jj] == (
                        color,
                        (#[trigger] cands@[m]).0,
                        cands@[m].1,
                    ),
            (exists|jj: int| 0 <= jj < j && (#[trigger] options@[jj]).0 == color)
                ==> cands@.len() > 0,
        decreases options@.len() - j,
    {
        let (c, nx, ny) = options[j];
        if c == color {
            cands.push((nx, ny));
        }
        j = j + 1;
    }
    let b = roll.random_u8();
    let idx = (b as usize) % cands.len();
    cands[idx]
}

/// Decides whether one interior pixel can be reconstructed: its
/// native color is placeable and each other channel's color appears
/// among its eight neighbors.
fn pixel_supported_check(cfa: &Cfa, x: usize, y: usize) -> (b: bool)
    requires
        cfa.wf(),
        1 <= x < usize::MAX,
        1 <= y < usize::MAX,
    ensures
        b == pixel_supported(*cfa, x as int, y as int),
{
    let native = cfa.color_at(x, y);
    if let CfaColor::Emerald = native {
        return false;
    }
    let ni = native.rgb_index();
    let opts = neighbor_options(cfa, x, y);
    let mut ch: usize = 0;
    while ch < 3
        invariant
            cfa.wf(),
            1 <= x < usize::MAX,
            1 <= y < usize::MAX,
            ch <= 3,
            native == cfa.color_at_spec(x as int, y as int),
            !(native is Emerald),
            ni == native.rgb_index_spec(),
            opts@.len() == 8,
            forall|k: int|
                0 <= k < 8 ==> (#[trigger] opts@[k]).0 == neighbor_color(
                    *cfa,
                    x as int,
                    y as int,
                    k,
                ),
            forall|c2: int|
                0 <= c2 < ch && c2 != ni ==> #[trigger] has_neighbor_of_color(
                    *cfa,
                    x as int,
                    y as int,
                    color_of_channel(c2),
                ),
        decreases 3 - ch,
    {
        if ch != ni {
            let want = channel_color(ch);
            let mut k: usize = 0;
            let mut found = false;
            while k < 8
                invariant
                    opts@.len() == 8,
                    k <= 8,
                    forall|k2: int|
                        0 <= k2 < 8 ==> (#[trigger] opts@[k2]).0 == neighbor_color(
                            *cfa,
                            x as int,
                            y as int,
                            k2,
                        ),
                    found <==> exists|k2: int|
                        0 <= k2 < k && #[trigger] neighbor_color(*cfa, x as int, y as int, k2)
                            == want,
                decreases 8 - k,
            {
                let (c, _, _) = opts[k];
                if c == want {
                    found = true;
                }
                k = k + 1;
            }
            if !found {
                proof {
                    assert(!has_neighbor_of_color(*cfa, x as int, y as int, color_of_channel(
                        ch as int,
                    )));
                    assert(!pixel_supported(*cfa, x as int, y as int));
                }
                return false;
            }
        }
        ch = ch + 1;
    }
    proof {
        assert forall|c2: int|
            0 <= c2 < 3 && c2 != native.rgb_index_spec() implies #[trigger] has_neighbor_of_color(
            *cfa,
            x as int,
            y as int,
            color_of_channel(c2),
        ) by {}
    }
    true
}

/// Runs the reconstruction check over every interior pixel of the
/// sensor grid: the runtime validation the demosaic engine performs
/// before writing any output.
fn check_supported(cfa: &Cfa, w: usize, h: usize) -> (b: bool)
    requires
        cfa.wf(),
    ensures
        b == all_supported(*cfa, w as int, h as int),
{
    if w < 3 || h < 3 {
        return true;
    }
    let mut x: usize = 1;
    while x < w - 1
        invariant
            cfa.wf(),
            3 <= w < usize::MAX + 1,
            3 <= h < usize::MAX + 1,
            1 <= x <= w,
            forall|px: int, py: int|
                is_interior(w as int, h as int, px, py) && px < x ==> #[trigger] pixel_supported(
                    *cfa,
                    px,
                    py,
                ),
        decreases w - 1 - x,
    {
        let mut y: usize = 1;
        while y < h - 1
            invariant
                cfa.wf(),
                3 <= w < usize::MAX + 1,
                3 <= h < usize::MAX + 1,
                1 <= x,
                x < w - 1,
                1 <= y <= h,
                forall|px: int, py: int|
                    is_interior(w as int, h as int, px, py) && px < x ==> #[trigger]
                    pixel_supported(*cfa, px, py),
                forall|py: int|
                    1 <= py < y ==> #[trigger] pixel_supported(*cfa, x as int, py),
            decreases h - 1 - y,
        {
            if !pixel_supported_check(cfa, x, y) {
                proof {
                    assert(is_interior(w as int, h as int, x as int, y as int));
                    assert(!all_supported(*cfa, w as int, h as int));
                }
                return false;
            }
            y = y + 1;
        }
        x = x + 1;
    }
    true
}

/// Reconstructs the three channels of one interior pixel: the native
/// channel from the pixel's own sample, the two others each from a
/// randomly drawn matching neighbor.
fn demosaic_pixel<T: Copy>(
    img: &Image<T>,
    rgb: &mut Vec<T>,
    rr: &mut RollingRandom,
    x: usize,
    y: usize,
)
    requires
        img.wf(),
        1 <= x,
        x + 1 < img.width,
        1 <= y,
        y + 1 < img.height,
        pixel_supported(img.metadata.cfa, x as int, y as int),
        old(rgb)@.len() == img.width * img.height * 3,
    ensures
        final(rgb)@.len() == old(rgb)@.len(),
        pixel_ok(img.metadata.cfa, img.width as int, img.data@, final(rgb)@, x as int, y as int),
        forall|i: int|
            0 <= i < old(rgb)@.len() && !own_channel(img.width as int, x as int, y as int, i)
                ==> final(rgb)@[i] == old(rgb)@[i],
{
    let w = img.width;
    let cfa = &img.metadata.cfa;
    let native = cfa.color_at(x, y);
    let ni = native.rgb_index();
    proof {
        lemma_grid_bound(y as int, x as int, w as int, img.height as int);
    }
    let own = img.data[y * w + x];
    set_channel(rgb, w, x, y, ni, own);
    let opts = neighbor_options(cfa, x, y);
    let mut ch: usize = 0;
    while ch < 3
        invariant
            img.wf(),
            w == img.width,
            cfa == &img.metadata.cfa,
            1 <= x,
            x + 1 < img.width,
            1 <= y,
            y + 1 < img.height,
            pixel_supported(img.metadata.cfa, x as int, y as int),
            ch <= 3,
            native == cfa.color_at_spec(x as int, y as int),
            !(native is Emerald),
            ni == native.rgb_index_spec(),
            opts@.len() == 8,
            forall|k: int|
                0 <= k < 8 ==> {
                    &&& (#[trigger] opts@[k]).0 == neighbor_color(*cfa, x as int, y as int, k)
                    &&& opts@[k].1 == x + neighbor_offset(k).0
                    &&& opts@[k].2 == y + neighbor_offset(k).1
                },
            rgb@.len() == old(rgb)@.len(),
            old(rgb)@.len() == img.width * img.height * 3,
            channel_value(rgb@, w as int, x as int, y as int, ni as int) == img.data@[y * w + x],
            forall|c2: int|
                0 <= c2 < ch && c2 != ni ==> #[trigger] channel_from_neighbor(
                    *cfa,
                    w as int,
                    img.data@,
                    rgb@,
                    x as int,
                    y as int,
                    c2,
                ),
            forall|i: int|
                0 <= i < old(rgb)@.len() && !own_channel(w as int, x as int, y as int, i)
                    ==> rgb@[i] == old(rgb)@[i],
        decreases 3 - ch,
    {
        proof {
            lemma_grid_bound(y as int, x as int, w as int, img.height as int);
        }
        if ch != ni {
            let want = channel_color(ch);
            proof {
                assert(has_neighbor_of_color(*cfa, x as int, y as int, color_of_channel(
                    ch as int,
                )));
                let k = choose|k: int|
                    0 <= k < 8 && #[trigger] neighbor_color(*cfa, x as int, y as int, k)
                        == color_of_channel(ch as int);
                assert(opts@[k].0 == want);
            }
            let (nx, ny) = pick_color(rr, &opts, want);
            let ghost j = choose|j: int|
                0 <= j < opts@.len() && opts@[j] == (want, nx, ny);
            proof {
                assert(ny < img.height && nx < w);
                lemma_grid_bound(ny as int, nx as int, w as int, img.height as int);
            }
            let v = img.data[ny * w + nx];
            let ghost rgb0 = rgb@;
            set_channel(rgb, w, x, y, ch, v);
            proof {
                assert(channel_value(rgb@, w as int, x as int, y as int, ch as int) == v);
                assert forall|c2: int| 0 <= c2 < ch && c2 != ni implies #[trigger]
                    channel_from_neighbor(
                    *cfa,
                    w as int,
                    img.data@,
                    rgb@,
                    x as int,
                    y as int,
                    c2,
                ) by {
                    assert(channel_from_neighbor(
                        *cfa,
                        w as int,
                        img.data@,
                        rgb0,
                        x as int,
                        y as int,
                        c2,
                    ));
                    assert(channel_value(rgb@, w as int, x as int, y as int, c2)
                        == channel_value(rgb0, w as int, x as int, y as int, c2));
                    lemma_channel_from_neighbor_frame(
                        *cfa,
                        w as int,
                        img.data@,
                        rgb0,
                        rgb@,
                        x as int,
                        y as int,
                        c2,
                    );
                }
                assert(neighbor_color(*cfa, x as int, y as int, j) == color_of_channel(ch as int));
                assert(nx as int == x + neighbor_offset(j).0);
                assert(ny as int == y + neighbor_offset(j).1);
                assert((ny as int) * (w as int) + nx as int == (y + neighbor_offset(j).1) * (
                w as int) + (x + neighbor_offset(j).0));
                assert(channel_from_neighbor(
                    *cfa,
                    w as int,
                    img.data@,
                    rgb@,
                    x as int,
                    y as int,
                    ch as int,
                ));
            }
        }
        ch = ch + 1;
    }
}

impl<T: Copy> Image<T> {
    /// Consumes the sensor-plane buffer and produces the three-channel
    /// linear-RGB buffer of the same dimensions, carrying the same
    /// metadata.
    ///
    /// Every interior pixel is reconstructed: its native channel is
    /// its own raw sample, exactly; each other channel is the raw
    /// sample of one of the eight immediate neighbors whose filter
    /// color matches that channel, drawn at random. The one-pixel
    /// border ring keeps the sentinel fill: the buffer's first raw
    /// sample, replicated at allocation. If some interior pixel
    /// cannot be reconstructed this way — its native color is not
    /// placeable (Emerald), or a needed color is missing among its
    /// neighbors — the call fails with `UnsupportedFilterColor`
    /// before any output exists.
    pub fn debayer(self) -> (r: Result<RgbImage<T>, Error>)
        requires
            self.wf(),
        ensures
            ({
                let cfa = self.metadata.cfa;
                let w = self.width as int;
                let h = self.height as int;
                match r {
                    Ok(out) => {
                        &&& out.wf()
                        &&& out.width == self.width
                        &&& out.height == self.height
                        &&& out.metadata == self.metadata
                        &&& all_supported(cfa, w, h)
                        &&& demosaic_ok(cfa, w, h, self.data@, out.data@)
                        &&& forall|x: int, y: int, ch: int|
                            0 <= x < w && 0 <= y < h && 0 <= ch < 3 && !is_interior(w, h, x, y)
                                ==> #[trigger] channel_value(out.data@, w, x, y, ch)
                                == self.data@[0]
                    },
                    Err(e) => e == Error::UnsupportedFilterColor && !all_supported(cfa, w, h),
                }
            }),
    {
        let w = self.width;
        let h = self.height;
        if !check_supported(&self.metadata.cfa, w, h) {
            return Err(Error::UnsupportedFilterColor);
        }
        if w == 0 || h == 0 {
            proof {
                assert(w * h * 3 == 0) by (nonlinear_arith)
                    requires
                        w == 0 || h == 0,
                ;
            }
            return Ok(
                RgbImage { width: w, height: h, metadata: self.metadata, data: Vec::new() },
            );
        }
        proof {
            assert(w * h > 0) by (nonlinear_arith)
                requires
                    w >= 1,
                    h >= 1,
            ;
        }
        let sentinel = self.data[0];
        let total = w * h * 3;
        let mut rgb: Vec<T> = Vec::new();
        let mut j: usize = 0;
        while j < total
            invariant
                j <= total,
                rgb@.len() == j,
                forall|i: int| 0 <= i < j ==> rgb@[i] == sentinel,
            decreases total - j,
        {
            rgb.push(sentinel);
            j = j + 1;
        }
        let mut rr = RollingRandom::new();
        let ghost gw = w as int;
        let ghost gh = h as int;
        let ghost cfa = self.metadata.cfa;
        proof {
            assert forall|px: int, py: int, ch: int|
                0 <= px < gw && 0 <= py < gh && 0 <= ch < 3 implies #[trigger] channel_value(
                rgb@,
                gw,
                px,
                py,
                ch,
            ) == sentinel by {
                lemma_grid_bound(py, px, gw, gh);
            }
        }
        let mut x: usize = 1;
        while x < w - 1
            invariant
                self.wf(),
                w == self.width,
                h == self.height,
                1 <= w,
                1 <= h,
                cfa == self.metadata.cfa,
                gw == w as int,
                gh == h as int,
                all_supported(cfa, gw, gh),
                1 <= x <= w,
                rgb@.len() == w * h * 3,
                forall|px: int, py: int|
                    is_interior(gw, gh, px, py) && px < x ==> #[trigger] pixel_ok(
                        cfa,
                        gw,
                        self.data@,
                        rgb@,
                        px,
                        py,
                    ),
                forall|px: int, py: int, ch: int|
                    0 <= px < gw && 0 <= py < gh && 0 <= ch < 3 && !(is_interior(gw, gh, px, py)
                        && px < x) ==> #[trigger] channel_value(rgb@, gw, px, py, ch) == sentinel,
            decreases w - x,
        {
            let mut y: usize = 1;
            while y < h - 1
                invariant
                    self.wf(),
                    w == self.width,
                    h == self.height,
                    cfa == self.metadata.cfa,
                    gw == w as int,
                    gh == h as int,
                    all_supported(cfa, gw, gh),
                    1 <= x < w - 1,
                    1 <= y <= h,
                    rgb@.len() == w * h * 3,
                    forall|px: int, py: int|
                        is_interior(gw, gh, px, py) && (px < x || (px == x && py < y))
                            ==> #[trigger] pixel_ok(cfa, gw, self.data@, rgb@, px, py),
                    forall|px: int, py: int, ch: int|
                        0 <= px < gw && 0 <= py < gh && 0 <= ch < 3 && !(is_interior(
                            gw,
                            gh,
                            px,
                            py,
                        ) && (px < x || (px == x && py < y))) ==> #[trigger] channel_value(
                            rgb@,
                            gw,
                            px,
                            py,
                            ch,
                        ) == sentinel,
                decreases h - y,
            {
                proof {
                    assert(is_interior(gw, gh, x as int, y as int));
                    assert(pixel_supported(cfa, x as int, y as int));
                }
                let ghost rgb0 = rgb@;
                demosaic_pixel(&self, &mut rgb, &mut rr, x, y);
                proof {
                    assert forall|px: int, py: int|
                        is_interior(gw, gh, px, py) && (px < x || (px == x && py < y + 1))
                            implies #[trigger] pixel_ok(cfa, gw, self.data@, rgb@, px, py) by {
                        if px == x && py == y {
                            assert(pixel_ok(cfa, gw, self.data@, rgb@, px, py));
                        } else {
                            assert(pixel_ok(cfa, gw, self.data@, rgb0, px, py));
                            assert forall|ch: int|
                                0 <= ch < 3 implies #[trigger] channel_value(
                                rgb@,
                                gw,
                                px,
                                py,
                                ch,
                            ) == channel_value(rgb0, gw, px, py, ch) by {
                                let i = (py * gw + px) * 3 + ch;
                                lemma_grid_bound(py, px, gw, gh);
                                if own_channel(gw, x as int, y as int, i) {
                                    lemma_channel_index_injective(
                                        gw,
                                        px,
                                        py,
                                        ch,
                                        x as int,
                                        y as int,
                                        i - (y as int * gw + x as int) * 3,
                                    );
                                }
                            }
                            lemma_pixel_ok_frame(cfa, gw, self.data@, rgb0, rgb@, px, py);
                        }
                    }
                    assert forall|px: int, py: int, ch: int|
                        0 <= px < gw && 0 <= py < gh && 0 <= ch < 3 && !(is_interior(
                            gw,
                            gh,
                            px,
                            py,
                        ) && (px < x || (px == x && py < y + 1))) implies #[trigger] channel_value(
                        rgb@,
                        gw,
                        px,
                        py,
                        ch,
                    ) == sentinel by {
                        let i = (py * gw + px) * 3 + ch;
                        lemma_grid_bound(py, px, gw, gh);
                        if own_channel(gw, x as int, y as int, i) {
                            lemma_channel_index_injective(
                                gw,
                                px,
                                py,
                                ch,
                                x as int,
                                y as int,
                                i - (y as int * gw + x as int) * 3,
                            );
                        }
                        assert(channel_value(rgb0, gw, px, py, ch) == sentinel);
                    }
                }
                y = y + 1;
            }
            x = x + 1;
        }
        Ok(RgbImage { width: w, height: h, metadata: self.metadata, data: rgb })
    }
}

/// A flat scene round-trips exactly: when every raw sample holds the
/// same value, every channel of every interior pixel of the demosaic
/// output holds that value too, whichever neighbors the sampler drew.
pub proof fn lemma_flat_scene<T>(
    cfa: Cfa,
    w: int,
    h: int,
    data: Seq<T>,
    rgb: Seq<T>,
    v: T,
    x: int,
    y: int,
)
    requires
        demosaic_ok(cfa, w, h, data, rgb),
        data.len() == w * h,
        forall|i: int| 0 <= i < data.len() ==> data[i] == v,
        is_interior(w, h, x, y),
    ensures
        forall|ch: int| 0 <= ch < 3 ==> channel_value(rgb, w, x, y, ch) == v,
{
    assert(pixel_ok(cfa, w, data, rgb, x, y));
    let c = cfa.color_at_spec(x, y);
    lemma_grid_bound(y, x, w, h);
    assert forall|ch: int| 0 <= ch < 3 implies channel_value(rgb, w, x, y, ch) == v by {
        if ch == c.rgb_index_spec() {
            assert(channel_value(rgb, w, x, y, ch) == data[y * w + x]);
        } else {
            assert(channel_from_neighbor(cfa, w, data, rgb, x, y, ch));
            let k = choose|k: int|
                0 <= k < 8 && #[trigger] neighbor_color(cfa, x, y, k) == color_of_channel(ch)
                    && channel_value(rgb, w, x, y, ch) == data[(y + neighbor_offset(k).1) * w + (
                    x + neighbor_offset(k).0)];
            lemma_grid_bound(y + neighbor_offset(k).1, x + neighbor_offset(k).0, w, h);
        }
    }
}

} // verus!
