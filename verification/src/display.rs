//! How the emulated picture fills its window: 4:3 aspect correction, the
//! scale factor, the letterbox, and which pixel of the picture is under the
//! mouse.

use vstd::prelude::*;

verus! {

/// The least whole number not below `a / b`.
pub open spec fn ceiling(a: int, b: int) -> int {
    (a + b - 1) / b
}

/// The size a picture is shown at.
pub open spec fn shown_size(width: int, height: int, aspect: bool) -> (int, int) {
    if !aspect || width * 3 == height * 4 {
        (width, height)
    } else if width * 3 > height * 4 {
        (width, ceiling(width * 3, 4))
    } else {
        (ceiling(height * 4, 3), height)
    }
}

/// The size the picture is shown at, in the renderer's logical pixels: the
/// frame itself, or with `aspect` stretched to 4:3, the shape a monitor
/// gave 320x200 and 640x400. It only ever stretches.
pub fn display_size(width: u32, height: u32, aspect: bool) -> (size: (u32, u32))
    requires
        aspect ==> width * 3 <= u32::MAX && height * 4 <= u32::MAX,
    ensures
        (size.0 as int, size.1 as int) == shown_size(width as int, height as int, aspect),
{
    if !aspect || width * 3 == height * 4 {
        (width, height)
    } else if width * 3 > height * 4 {
        let n: u32 = width * 3;
        (
            width,
            if n % 4 == 0 {
                n / 4
            } else {
                n / 4 + 1
            },
        )
    } else {
        let n: u32 = height * 4;
        (
            if n % 3 == 0 {
                n / 3
            } else {
                n / 3 + 1
            },
            height,
        )
    }
}

/// The whole number that `a / b` is rounded down to.
fn floor(a: i128, b: i128) -> (q: i128)
    requires
        0 < b,
        -0x4000_0000_0000_0000_0000_0000_0000_0000 < a < 0x4000_0000_0000_0000_0000_0000_0000_0000,
        b < 0x4000_0000_0000_0000_0000_0000_0000_0000,
    ensures
        q == a as int / b as int,
{
    if a >= 0 {
        proof {
            assert(0 <= a as int / b as int <= a) by (nonlinear_arith)
                requires
                    a >= 0,
                    b > 0,
            ;
        }
        a / b
    } else {
        let n: i128 = -a;
        let m: i128 = n + (b - 1);
        proof {
            let (x, y, z) = (a as int, b as int, m as int);
            let q = x / y;
            vstd::arithmetic::div_mod::lemma_fundamental_div_mod(x, y);
            assert(z == y * (-q) + (y - 1 - x % y)) by (nonlinear_arith)
                requires
                    x == y * q + x % y,
                    z == -x + y - 1,
            ;
            assert(0 <= y - 1 - x % y < y) by (nonlinear_arith)
                requires
                    y > 0,
            ;
            assert(y * (-q) == (-q) * y) by (nonlinear_arith);
            vstd::arithmetic::div_mod::lemma_fundamental_div_mod_converse(
                z,
                y,
                -q,
                y - 1 - x % y,
            );
            assert(0 <= z / y <= z) by (nonlinear_arith)
                requires
                    z >= 0,
                    y > 0,
            ;
        }
        -(m / b)
    }
}

/// A number as near as an `i32` can come to it.
pub open spec fn nearest_i32(value: int) -> i32 {
    if value < i32::MIN {
        i32::MIN
    } else if value > i32::MAX {
        i32::MAX
    } else {
        value as i32
    }
}

fn clamp(value: i128) -> (n: i32)
    ensures
        n == nearest_i32(value as int),
{
    if value < i32::MIN as i128 {
        i32::MIN
    } else if value > i32::MAX as i128 {
        i32::MAX
    } else {
        value as i32
    }
}

/// The `i32` that the low 32 bits of a number are: the number itself, where it
/// is one.
pub open spec fn low_half(value: int) -> int {
    let low = value % 0x1_0000_0000;
    if low >= 0x8000_0000 {
        low - 0x1_0000_0000
    } else {
        low
    }
}

fn cut(value: i128) -> (n: i32)
    requires
        -0x1_0000_0000_0000_0000 <= value <= 0x1_0000_0000_0000_0000,
    ensures
        n == low_half(value as int),
{
    let low: i128 = value - floor(value, 0x1_0000_0000) * 0x1_0000_0000;
    if low >= 0x8000_0000 {
        (low - 0x1_0000_0000) as i32
    } else {
        low as i32
    }
}

/// At least one, as a divisor has to be.
pub open spec fn at_least_one(n: u32) -> int {
    if n == 0 {
        1
    } else {
        n as int
    }
}

fn divisor(n: u32) -> (d: i128)
    ensures
        d == at_least_one(n),
        1 <= d <= 0xFFFF_FFFF,
{
    if n == 0 {
        1
    } else {
        n as i128
    }
}

/// A coordinate in logical pixels (`logical` of them across the picture)
/// as the frame pixel under it (`frame` of them). Positions in the black
/// bars around the picture fall outside `0..frame`.
pub fn logical_to_frame(pos: i32, logical: u32, frame: u32) -> (pixel: i32)
    ensures
        pixel == low_half(pos * frame / at_least_one(logical)),
{
    proof {
        assert(-0x8000_0000 * 0xFFFF_FFFF <= pos * frame <= 0x8000_0000 * 0xFFFF_FFFF)
            by (nonlinear_arith)
            requires
                -0x8000_0000 <= pos <= 0x7FFF_FFFF,
                0 <= frame <= 0xFFFF_FFFF,
        ;
    }
    let q: i128 = floor(pos as i128 * frame as i128, divisor(logical));
    proof {
        let (n, d) = (pos * frame, at_least_one(logical));
        assert(-0x8000_0000 * 0xFFFF_FFFF <= n / d <= 0x8000_0000 * 0xFFFF_FFFF)
            by (nonlinear_arith)
            requires
                -0x8000_0000 * 0xFFFF_FFFF <= n <= 0x8000_0000 * 0xFFFF_FFFF,
                d >= 1,
        ;
    }
    cut(q)
}

/// Where a picture of `inner` proportions goes in `outer` pixels, as big as
/// fits: x, y (from the top), width and height.
pub open spec fn letterboxed(outer: (u32, u32), inner: (u32, u32)) -> (int, int, int, int) {
    let (ow, oh) = (outer.0 as int, outer.1 as int);
    let (iw, ih) = (at_least_one(inner.0), at_least_one(inner.1));
    if iw * oh == ih * ow {
        (0, 0, ow, oh)
    } else if iw * oh > ih * ow {
        // Wider: bars above and below.
        let h = ih * ow / iw;
        (0, (oh - h) / 2, ow, h)
    } else {
        let w = iw * oh / ih;
        ((ow - w) / 2, 0, w, oh)
    }
}

/// Where a picture of `inner` proportions goes in `outer` pixels, as big as
/// fits: x, y (from the top), width and height. The same as SDL's renderer
/// makes of a logical size.
pub fn letterbox(outer: (u32, u32), inner: (u32, u32)) -> (r: (u32, u32, u32, u32))
    ensures
        (r.0 as int, r.1 as int, r.2 as int, r.3 as int) == letterboxed(outer, inner),
{
    let (ow, oh): (u64, u64) = (outer.0 as u64, outer.1 as u64);
    let (iw, ih): (u64, u64) = (
        if inner.0 == 0 {
            1
        } else {
            inner.0 as u64
        },
        if inner.1 == 0 {
            1
        } else {
            inner.1 as u64
        },
    );
    proof {
        assert(0 <= iw * oh <= 0xFFFF_FFFF * 0xFFFF_FFFF && 0 <= ih * ow <= 0xFFFF_FFFF
            * 0xFFFF_FFFF) by (nonlinear_arith)
            requires
                0 <= iw <= 0xFFFF_FFFF,
                0 <= ih <= 0xFFFF_FFFF,
                0 <= ow <= 0xFFFF_FFFF,
                0 <= oh <= 0xFFFF_FFFF,
        ;
    }
    if iw * oh == ih * ow {
        (0, 0, outer.0, outer.1)
    } else if iw * oh > ih * ow {
        // Wider: bars above and below.
        proof {
            let a = ih * ow;
            let b = iw * oh;
            assert(0 <= a / iw as int <= oh) by (nonlinear_arith)
                requires
                    0 <= a < b,
                    b == iw * oh,
                    iw >= 1,
            ;
        }
        let h: u32 = (ih * ow / iw) as u32;
        (0, (outer.1 - h) / 2, outer.0, h)
    } else {
        proof {
            let a = iw * oh;
            let b = ih * ow;
            assert(0 <= a / ih as int <= ow) by (nonlinear_arith)
                requires
                    0 <= a < b,
                    b == ih * ow,
                    ih >= 1,
            ;
        }
        let w: u32 = (iw * oh / ih) as u32;
        ((outer.0 - w) / 2, 0, w, outer.1)
    }
}

/// The frame pixel under the middle of a window's pixel, in one direction:
/// the window has `window` pixels, its drawable `drawable`, and the picture
/// takes `size` of those from `start` on.
pub open spec fn pixel_under(
    pos: int,
    window: u32,
    drawable: u32,
    start: int,
    size: u32,
    frame: u32,
) -> int {
    let w = at_least_one(window);
    ((2 * pos + 1) * drawable - 2 * start * w) * frame / (2 * w * at_least_one(size))
}

fn pixel_at(pos: i32, window: u32, drawable: u32, start: u32, size: u32, frame: u32) -> (pixel: i32)
    ensures
        pixel == nearest_i32(
            pixel_under(pos as int, window, drawable, start as int, size, frame),
        ),
{
    let w: i128 = divisor(window);
    let s: i128 = divisor(size);
    let p: i128 = 2 * pos as i128 + 1;
    let d: i128 = drawable as i128;
    let v: i128 = start as i128;
    let f: i128 = frame as i128;
    proof {
        assert(-0x1_0000_0000 * 0xFFFF_FFFF <= p * d <= 0x1_0000_0000 * 0xFFFF_FFFF)
            by (nonlinear_arith)
            requires
                -0x1_0000_0000 <= p <= 0x1_0000_0000,
                0 <= d <= 0xFFFF_FFFF,
        ;
        assert(0 <= 2 * v * w <= 2 * 0xFFFF_FFFF * 0xFFFF_FFFF) by (nonlinear_arith)
            requires
                0 <= v <= 0xFFFF_FFFF,
                0 <= w <= 0xFFFF_FFFF,
        ;
        let n = p * d - 2 * v * w;
        assert(-0x4_0000_0000_0000_0000 <= n <= 0x4_0000_0000_0000_0000);
        assert(-0x4_0000_0000_0000_0000 * 0xFFFF_FFFF <= n * f <= 0x4_0000_0000_0000_0000
            * 0xFFFF_FFFF) by (nonlinear_arith)
            requires
                -0x4_0000_0000_0000_0000 <= n <= 0x4_0000_0000_0000_0000,
                0 <= f <= 0xFFFF_FFFF,
        ;
        assert(1 <= 2 * w * s <= 2 * 0xFFFF_FFFF * 0xFFFF_FFFF) by (nonlinear_arith)
            requires
                1 <= w <= 0xFFFF_FFFF,
                1 <= s <= 0xFFFF_FFFF,
        ;
    }
    clamp(floor((p * d - 2 * v * w) * f, 2 * w * s))
}

/// A mouse position in window coordinates as the frame pixel under it,
/// through the letterbox, for a picture that no shader bends: in a `window`
/// whose drawable has `drawable` pixels (more on a high-DPI screen), the
/// `frame` shown at `display` proportions. In the bars around the picture the
/// result is outside the frame.
pub fn window_to_frame(
    pos: (i32, i32),
    window: (u32, u32),
    drawable: (u32, u32),
    display: (u32, u32),
    frame: (u32, u32),
) -> (pixel: (i32, i32))
    ensures
        ({
            let (x, y, w, h) = letterboxed(drawable, display);
            &&& pixel.0 == nearest_i32(
                pixel_under(pos.0 as int, window.0, drawable.0, x, w as u32, frame.0),
            )
            &&& pixel.1 == nearest_i32(
                pixel_under(pos.1 as int, window.1, drawable.1, y, h as u32, frame.1),
            )
        }),
{
    let (x, y, w, h): (u32, u32, u32, u32) = letterbox(drawable, display);
    (
        pixel_at(pos.0, window.0, drawable.0, x, w, frame.0),
        pixel_at(pos.1, window.1, drawable.1, y, h, frame.1),
    )
}

/// Whether a picture of a size fits the desktop at a scale.
pub open spec fn scale_fits(size: (u32, u32), desktop: (u32, u32), scale: int) -> bool {
    size.0 * scale <= desktop.0 && size.1 * scale <= desktop.1
}

fn fits_at(size: (u32, u32), desktop: (u32, u32), scale: u32) -> (yes: bool)
    ensures
        yes == scale_fits(size, desktop, scale as int),
{
    proof {
        assert(0 <= size.0 * scale <= 0xFFFF_FFFF * 0xFFFF_FFFF && 0 <= size.1 * scale
            <= 0xFFFF_FFFF * 0xFFFF_FFFF) by (nonlinear_arith)
            requires
                0 <= size.0 <= 0xFFFF_FFFF,
                0 <= size.1 <= 0xFFFF_FFFF,
                0 <= scale <= 0xFFFF_FFFF,
        ;
    }
    size.0 as u64 * scale as u64 <= desktop.0 as u64 && size.1 as u64 * scale as u64
        <= desktop.1 as u64
}

/// The scale to make a window of: `scale`, or the largest smaller one at
/// which the picture fits the desktop, and at least 1.
pub fn fit_scale(size: (u32, u32), desktop: Option<(u32, u32)>, scale: u32) -> (fitting: u32)
    ensures
        1 <= fitting <= at_least_one(scale),
        desktop is None ==> fitting == at_least_one(scale),
        desktop matches Some(d) ==> {
            &&& fitting == 1 || scale_fits(size, d, fitting as int)
            &&& forall|k: int|
                fitting < k <= at_least_one(scale) ==> !#[trigger] scale_fits(size, d, k)
        },
{
    let mut fitting: u32 = if scale == 0 {
        1
    } else {
        scale
    };
    let ghost most = fitting;
    match desktop {
        None => fitting,
        Some(d) => {
            while fitting > 1 && !fits_at(size, d, fitting)
                invariant
                    1 <= fitting <= most,
                    most == at_least_one(scale),
                    forall|k: int| fitting < k <= most ==> !#[trigger] scale_fits(size, d, k),
                decreases fitting,
            {
                fitting = fitting - 1;
            }
            fitting
        },
    }
}

/// The size of a window before the first frame: the text mode picture, of
/// `screen` pixels, at a scale and aspect.
pub fn window_size(screen: (u32, u32), aspect: bool, scale: u32) -> (size: (u32, u32))
    requires
        aspect ==> screen.0 * 3 <= u32::MAX && screen.1 * 4 <= u32::MAX,
        shown_size(screen.0 as int, screen.1 as int, aspect).0 * at_least_one(scale) <= u32::MAX,
        shown_size(screen.0 as int, screen.1 as int, aspect).1 * at_least_one(scale) <= u32::MAX,
    ensures
        ({
            let (w, h) = shown_size(screen.0 as int, screen.1 as int, aspect);
            size.0 == w * at_least_one(scale) && size.1 == h * at_least_one(scale)
        }),
{
    let (w, h): (u32, u32) = display_size(screen.0, screen.1, aspect);
    let scale: u32 = if scale == 0 {
        1
    } else {
        scale
    };
    (w * scale, h * scale)
}

/// Aspect correction only ever stretches, and gives 4:3 to the pixel.
pub proof fn law_correction_stretches(width: int, height: int)
    requires
        width >= 0,
        height >= 0,
    ensures
        ({
            let (w, h) = shown_size(width, height, true);
            &&& w >= width && h >= height
            &&& w == width || h == height
            &&& -4 < w * 3 - h * 4 < 4
        }),
{
}

/// A letterboxed picture lies inside the window and touches two opposite
/// edges of it.
pub proof fn law_letterbox_inside(outer: (u32, u32), inner: (u32, u32))
    ensures
        ({
            let (x, y, w, h) = letterboxed(outer, inner);
            &&& 0 <= x && 0 <= y && 0 <= w && 0 <= h
            &&& x + w <= outer.0 && y + h <= outer.1
            &&& w == outer.0 || h == outer.1
        }),
{
    let (ow, oh) = (outer.0 as int, outer.1 as int);
    let (iw, ih) = (at_least_one(inner.0), at_least_one(inner.1));
    if iw * oh > ih * ow {
        let (a, b) = (ih * ow, iw * oh);
        assert(0 <= a) by (nonlinear_arith)
            requires
                a == ih * ow,
                ih >= 1,
                ow >= 0,
        ;
        assert(0 <= a / iw <= oh) by (nonlinear_arith)
            requires
                0 <= a < b,
                b == iw * oh,
                iw >= 1,
        ;
    } else if iw * oh < ih * ow {
        let (a, b) = (iw * oh, ih * ow);
        assert(0 <= a) by (nonlinear_arith)
            requires
                a == iw * oh,
                iw >= 1,
                oh >= 0,
        ;
        assert(0 <= a / ih <= ow) by (nonlinear_arith)
            requires
                0 <= a < b,
                b == ih * ow,
                ih >= 1,
        ;
    }
}

/// A letterboxed picture is in the middle, a pixel off at most, and has the
/// shape of what it shows but for less than a pixel.
pub proof fn law_letterbox_keeps_shape(outer: (u32, u32), inner: (u32, u32))
    requires
        inner.0 > 0,
        inner.1 > 0,
    ensures
        ({
            let (x, y, w, h) = letterboxed(outer, inner);
            let (iw, ih) = (inner.0 as int, inner.1 as int);
            &&& 0 <= (outer.0 - w) - 2 * x <= 1
            &&& 0 <= (outer.1 - h) - 2 * y <= 1
            &&& w == outer.0 && h == outer.1 || w == outer.0 && h * iw <= w * ih < (h + 1) * iw || h
                == outer.1 && w * ih <= h * iw < (w + 1) * ih
        }),
{
    let (ow, oh) = (outer.0 as int, outer.1 as int);
    let (iw, ih) = (inner.0 as int, inner.1 as int);
    if iw * oh > ih * ow {
        let n = ih * ow;
        let h = n / iw;
        vstd::arithmetic::div_mod::lemma_fundamental_div_mod(n, iw);
        assert(h * iw <= ow * ih < (h + 1) * iw) by (nonlinear_arith)
            requires
                n == iw * h + n % iw,
                0 <= n % iw < iw,
                n == ih * ow,
        ;
    } else if iw * oh < ih * ow {
        let n = iw * oh;
        let w = n / ih;
        vstd::arithmetic::div_mod::lemma_fundamental_div_mod(n, ih);
        assert(w * ih <= oh * iw < (w + 1) * ih) by (nonlinear_arith)
            requires
                n == ih * w + n % ih,
                0 <= n % ih < ih,
                n == iw * oh,
        ;
    }
}

/// Where a picture is shown in its own size, the pixel under a place is the
/// one as far from the picture's start.
pub proof fn law_pixels_lie_where_they_are_shown(start: int, p: int, window: u32, frame: u32)
    requires
        0 <= p < frame,
        window > 0,
    ensures
        pixel_under(start + p, window, window, start, frame, frame) == p,
{
    let (w, f) = (window as int, frame as int);
    let pos = start + p;
    let num = ((2 * pos + 1) * w - 2 * start * w) * f;
    let den = 2 * w * f;
    assert(num == den * p + w * f && 0 <= w * f < den) by (nonlinear_arith)
        requires
            num == ((2 * pos + 1) * w - 2 * start * w) * f,
            den == 2 * w * f,
            pos == start + p,
            w > 0,
            f > 0,
    ;
    assert(p * den == den * p) by (nonlinear_arith);
    vstd::arithmetic::div_mod::lemma_fundamental_div_mod_converse(num, den, p, w * f);
}

} // verus!
