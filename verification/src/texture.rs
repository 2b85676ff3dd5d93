//! The texture sampler: an immutable 2D color image resolved at fractional
//! normalized coordinates by nearest or bilinear filtering.
//!
//! The image is a plain pixel grid of 8-bit color triples; decoding an image
//! file into that grid is the caller's boundary work. Coordinates are exact
//! rationals in `[0,1]x[0,1]`, with `v = 0` at the image bottom (the row
//! order is flipped, as required). Out-of-range coordinates are clamped to
//! the edge, the documented policy for the sampler; the degenerate
//! pixel-aligned case of bilinear filtering takes a zero blend ratio rather
//! than dividing by zero.

use vstd::prelude::*;
use vstd::arithmetic::div_mod::lemma_fundamental_div_mod;
use vstd::arithmetic::div_mod::lemma_mod_bound;
use vstd::arithmetic::mul::lemma_mul_is_commutative;
use crate::rational::{Q, Rat, lemma_mul_congr, q_one, q_small, q_wf, q_zero, rat_bound};

verus! {

/// One pixel: three 8-bit channels.
#[derive(Clone, Copy, Debug, PartialEq, Eq, Structural)]
pub struct Color {
    pub r: u8,
    pub g: u8,
    pub b: u8,
}

/// Construction failure: the pixel data does not form a grid of the stated
/// dimensions (or a dimension is zero or beyond the supported limit).
#[derive(Clone, Copy, Debug, PartialEq, Eq, Structural)]
pub struct LoadError;

/// Largest width or height the sampler supports; a machine limit that keeps
/// every index product inside the integer types used.
pub const DIM_LIMIT: usize = 0xffff_ffff;

/// `DIM_LIMIT` as a model integer.
pub open spec fn dim_limit() -> int {
    0xffff_ffff
}

/// Equal numerators over equal denominators give equal quotients; the
/// division counterpart of [`lemma_mul_congr`].
pub proof fn lemma_div_congr(x: int, y: int, x2: int, y2: int)
    requires
        x == x2,
        y == y2,
    ensures
        x / y == x2 / y2,
{
}

/// A normalized coordinate clamped to `[0,1]`.
pub open spec fn clamped(q: Q) -> Q {
    if q.n < 0 {
        q_zero()
    } else if q.n > q.d {
        q_one()
    } else {
        q
    }
}

/// The truncated pixel index of the continuous coordinate `n/d * len`.
pub open spec fn idx_floor(n: int, d: int, len: int) -> int {
    (n * len) / d
}

/// The rounded-up pixel index of the continuous coordinate `n/d * len`.
pub open spec fn idx_ceil(n: int, d: int, len: int) -> int {
    (n * len + (d - 1)) / d
}

/// The fractional remainder of the continuous coordinate above its floor,
/// still over the denominator `d`.
pub open spec fn idx_frac(n: int, d: int, len: int) -> int {
    n * len - idx_floor(n, d, len) * d
}

/// An index capped to the last valid position of an axis of length `len`.
pub open spec fn cap(i: int, len: int) -> int {
    if i >= len {
        len - 1
    } else {
        i
    }
}

/// An index capped at `len` itself, as the bilinear upper neighbor is.
pub open spec fn cap_at(i: int, len: int) -> int {
    if i >= len {
        len
    } else {
        i
    }
}

/// One linear blend step: `a` weighted by `(d - p)/d` against `b` weighted
/// by `p/d`, kept as a numerator over the denominator `d`.
pub open spec fn blend(a: int, b: int, p: int, d: int) -> int {
    a * (d - p) + b * p
}

/// A bilinearly blended channel: horizontal blends of the two pixel rows,
/// then a vertical blend, truncated back to an integer sample.
pub open spec fn chan(c3: int, c4: int, c1: int, c2: int, pu: int, pud: int, pv: int, pvd: int)
    -> int {
    blend(blend(c3, c4, pu, pud), blend(c1, c2, pu, pud), pv, pvd) / (pud * pvd)
}

/// An immutable 2D color image with cached dimensions.
pub struct Texture {
    pub width: usize,
    pub height: usize,
    pub data: Vec<Color>,
}

impl Texture {
    /// Well-formedness: nonzero dimensions within the machine limit, and a
    /// full row-major pixel grid (row 0 at the top).
    pub open spec fn wf(&self) -> bool {
        &&& 1 <= self.width <= dim_limit()
        &&& 1 <= self.height <= dim_limit()
        &&& self.data@.len() == self.width * self.height
    }

    /// The pixel at integer grid coordinates.
    pub open spec fn pixel(&self, row: int, col: int) -> Color {
        self.data@[row * self.width + col]
    }

    /// The pixel at integer grid coordinates, with indices at or beyond the
    /// edge clamped onto it.
    pub open spec fn pixel_clamped(&self, row: int, col: int) -> Color {
        self.pixel(cap(row, self.height as int), cap(col, self.width as int))
    }

    /// The nearest-filter column of a normalized `u`.
    pub open spec fn col_of(&self, u: Q) -> int {
        cap(idx_floor(clamped(u).n, clamped(u).d, self.width as int), self.width as int)
    }

    /// The nearest-filter row of a normalized `v`, with the vertical flip:
    /// `v = 0` is the bottom row.
    pub open spec fn row_of(&self, v: Q) -> int {
        cap(
            idx_floor(clamped(v).d - clamped(v).n, clamped(v).d, self.height as int),
            self.height as int,
        )
    }

    /// Nearest-neighbor sampling: truncate the continuous coordinates and
    /// read that pixel.
    pub open spec fn sample_nearest(&self, u: Q, v: Q) -> Color {
        self.pixel(self.row_of(v), self.col_of(u))
    }

    /// Bilinear sampling, exactly as executed: the four neighbors of the
    /// continuous coordinate, blended horizontally then vertically, with a
    /// zero ratio on a pixel-aligned axis.
    pub open spec fn sample_bilinear(&self, u: Q, v: Q) -> Color {
        let w = self.width as int;
        let h = self.height as int;
        let un = clamped(u).n;
        let ud = clamped(u).d;
        let vn = clamped(v).d - clamped(v).n;
        let vd = clamped(v).d;
        let u_min = idx_floor(un, ud, w);
        let u_max = cap_at(idx_ceil(un, ud, w), w);
        let v_min = idx_floor(vn, vd, h);
        let v_max = cap_at(idx_ceil(vn, vd, h), h);
        let pu = if u_max == u_min { 0 } else { idx_frac(un, ud, w) };
        let pud = if u_max == u_min { 1 } else { ud };
        let pv = if v_max == v_min { 0 } else { idx_frac(vn, vd, h) };
        let pvd = if v_max == v_min { 1 } else { vd };
        let c1 = self.pixel_clamped(v_max, u_min);
        let c2 = self.pixel_clamped(v_max, u_max);
        let c3 = self.pixel_clamped(v_min, u_min);
        let c4 = self.pixel_clamped(v_min, u_max);
        Color {
            r: chan(c3.r as int, c4.r as int, c1.r as int, c2.r as int, pu, pud, pv, pvd) as u8,
            g: chan(c3.g as int, c4.g as int, c1.g as int, c2.g as int, pu, pud, pv, pvd) as u8,
            b: chan(c3.b as int, c4.b as int, c1.b as int, c2.b as int, pu, pud, pv, pvd) as u8,
        }
    }

    /// Builds a texture from decoded pixel data. Fails exactly when the
    /// dimensions are zero or beyond the supported limit, or when the data
    /// length is not `width * height`.
    pub fn new(width: usize, height: usize, data: Vec<Color>) -> (r: Result<Texture, LoadError>)
        ensures
            r is Ok <==> {
                &&& 1 <= width <= dim_limit()
                &&& 1 <= height <= dim_limit()
                &&& data@.len() == width * height
            },
            r is Ok ==> {
                &&& r->Ok_0.width == width
                &&& r->Ok_0.height == height
                &&& r->Ok_0.data@ == data@
                &&& r->Ok_0.wf()
            },
    {
        if width == 0 || width > DIM_LIMIT || height == 0 || height > DIM_LIMIT {
            return Err(LoadError);
        }
        proof {
            assert((width as int) * (height as int) <= 0xffff_ffff * 0xffff_ffff)
                by (nonlinear_arith)
                requires
                    0 < width as int,
                    (width as int) <= 0xffff_ffff,
                    0 < height as int,
                    (height as int) <= 0xffff_ffff,
            ;
        }
        let need: u128 = (width as u128) * (height as u128);
        if (data.len() as u128) != need {
            return Err(LoadError);
        }
        Ok(Texture { width, height, data })
    }

    /// Reads a pixel with edge clamping.
    fn fetch(&self, row: u64, col: u64) -> (c: Color)
        requires
            self.wf(),
        ensures
            c == self.pixel_clamped(row as int, col as int),
    {
        let r: usize = if row >= self.height as u64 {
            self.height - 1
        } else {
            row as usize
        };
        let cl: usize = if col >= self.width as u64 {
            self.width - 1
        } else {
            col as usize
        };
        let len = self.data.len();
        proof {
            assert(r * self.width + cl < self.width * self.height) by (nonlinear_arith)
                requires
                    r < self.height,
                    cl < self.width,
                    self.width >= 1,
            ;
            lemma_mul_congr(r as int, self.width as int, cap(row as int, self.height as int),
                self.width as int);
        }
        self.data[r * self.width + cl]
    }

    /// Nearest-neighbor sampling at the normalized coordinates `(u, v)`.
    /// Out-of-range coordinates are clamped to `[0,1]`, and an index that
    /// falls on the far edge is clamped onto the grid. The scalar bound is a
    /// machine limit.
    #[verifier::rlimit(30)]
    pub fn getColor(&self, u: &Rat, v: &Rat) -> (c: Color)
        requires
            self.wf(),
            u.wf(),
            v.wf(),
            q_small(u@),
            q_small(v@),
        ensures
            c == self.sample_nearest(u@, v@),
    {
        let cu = clamp01(u);
        let cv = clamp01(v);
        let w128: u128 = self.width as u128;
        let h128: u128 = self.height as u128;
        proof {
            assert(((cu.num as u128) as int) * (w128 as int) <= 0x1000000 * 0xffff_ffff)
                by (nonlinear_arith)
                requires
                    0 <= (cu.num as u128) as int,
                    ((cu.num as u128) as int) <= 0x1000000,
                    0 <= w128 as int,
                    (w128 as int) <= 0xffff_ffff,
            ;
            assert((((cv.den - cv.num) as u128) as int) * (h128 as int) <= 0x1000000
                * 0xffff_ffff) by (nonlinear_arith)
                requires
                    0 <= ((cv.den - cv.num) as u128) as int,
                    (((cv.den - cv.num) as u128) as int) <= 0x1000000,
                    0 <= h128 as int,
                    (h128 as int) <= 0xffff_ffff,
            ;
        }
        let ucol: u128 = ((cu.num as u128) * w128) / (cu.den as u128);
        let vrow: u128 = (((cv.den - cv.num) as u128) * h128) / (cv.den as u128);
        proof {
            lemma_mul_congr((cu.num as u128) as int, w128 as int, clamped(u@).n,
                self.width as int);
            lemma_div_congr(((cu.num as u128) as int) * (w128 as int), (cu.den as u128) as int,
                clamped(u@).n * (self.width as int), clamped(u@).d);
            lemma_mul_congr(((cv.den - cv.num) as u128) as int, h128 as int,
                clamped(v@).d - clamped(v@).n, self.height as int);
            lemma_div_congr((((cv.den - cv.num) as u128) as int) * (h128 as int),
                (cv.den as u128) as int, (clamped(v@).d - clamped(v@).n) * (self.height as int),
                clamped(v@).d);
        }
        let col: u64 = if ucol >= w128 {
            (self.width - 1) as u64
        } else {
            ucol as u64
        };
        let row: u64 = if vrow >= h128 {
            (self.height - 1) as u64
        } else {
            vrow as u64
        };
        proof {
            assert(self.pixel_clamped(row as int, col as int) == self.sample_nearest(u@, v@));
        }
        self.fetch(row, col)
    }

    /// Bilinear sampling at the normalized coordinates `(u, v)`: the four
    /// pixels around the continuous coordinate are blended horizontally and
    /// then vertically, exactly; the blended channel is truncated back to an
    /// 8-bit sample. A pixel-aligned coordinate takes a zero blend ratio
    /// instead of dividing by zero, and out-of-range coordinates are clamped
    /// as for [`Texture::getColor`].
    #[verifier::rlimit(50)]
    pub fn getColorBilinear(&self, u: &Rat, v: &Rat) -> (c: Color)
        requires
            self.wf(),
            u.wf(),
            v.wf(),
            q_small(u@),
            q_small(v@),
        ensures
            c == self.sample_bilinear(u@, v@),
    {
        let cu = clamp01(u);
        let cv = clamp01(v);
        let w128: u128 = self.width as u128;
        let h128: u128 = self.height as u128;
        let unum: u128 = cu.num as u128;
        let uden: u128 = cu.den as u128;
        let vnum: u128 = (cv.den - cv.num) as u128;
        let vden: u128 = cv.den as u128;
        proof {
            assert(((unum as int) * (w128 as int) <= 0x1000000 * 0xffff_ffff) && ((vnum as int)
                * (h128 as int) <= 0x1000000 * 0xffff_ffff)) by (nonlinear_arith)
                requires
                    0 <= unum as int,
                    (unum as int) <= 0x1000000,
                    0 <= vnum as int,
                    (vnum as int) <= 0x1000000,
                    0 <= w128 as int,
                    (w128 as int) <= 0xffff_ffff,
                    0 <= h128 as int,
                    (h128 as int) <= 0xffff_ffff,
            ;
        }
        let uprod: u128 = unum * w128;
        let vprod: u128 = vnum * h128;
        let u_min: u128 = uprod / uden;
        let u_ceil: u128 = (uprod + (uden - 1)) / uden;
        let u_max: u128 = if u_ceil >= w128 { w128 } else { u_ceil };
        let v_min: u128 = vprod / vden;
        let v_ceil: u128 = (vprod + (vden - 1)) / vden;
        let v_max: u128 = if v_ceil >= h128 { h128 } else { v_ceil };
        let ghost sun = clamped(u@).n;
        let ghost sud = clamped(u@).d;
        let ghost svn = clamped(v@).d - clamped(v@).n;
        let ghost svd = clamped(v@).d;
        let ghost wi = self.width as int;
        let ghost hi = self.height as int;
        proof {
            lemma_mul_congr(unum as int, w128 as int, sun, wi);
            lemma_div_congr((unum as int) * (w128 as int), uden as int, sun * wi, sud);
            lemma_div_congr((uprod as int) + ((uden - 1) as int), uden as int, sun * wi + (sud
                - 1), sud);
            lemma_mul_congr(vnum as int, h128 as int, svn, hi);
            lemma_div_congr((vnum as int) * (h128 as int), vden as int, svn * hi, svd);
            lemma_div_congr((vprod as int) + ((vden - 1) as int), vden as int, svn * hi + (svd
                - 1), svd);
            assert(u_min as int == idx_floor(sun, sud, wi));
            assert(u_ceil as int == idx_ceil(sun, sud, wi));
            assert(v_min as int == idx_floor(svn, svd, hi));
            assert(v_ceil as int == idx_ceil(svn, svd, hi));
            lemma_fundamental_div_mod(sun * wi, sud);
            lemma_mod_bound(sun * wi, sud);
            lemma_mul_congr(u_min as int, uden as int, idx_floor(sun, sud, wi), sud);
            lemma_mul_is_commutative(idx_floor(sun, sud, wi), sud);
            assert((u_min as int) * (uden as int) <= uprod as int);
            lemma_fundamental_div_mod(svn * hi, svd);
            lemma_mod_bound(svn * hi, svd);
            lemma_mul_congr(v_min as int, vden as int, idx_floor(svn, svd, hi), svd);
            lemma_mul_is_commutative(idx_floor(svn, svd, hi), svd);
            assert((v_min as int) * (vden as int) <= vprod as int);
        }
        let (pu, pud): (u128, u128) = if u_max == u_min {
            (0, 1)
        } else {
            (uprod - u_min * uden, uden)
        };
        let (pv, pvd): (u128, u128) = if v_max == v_min {
            (0, 1)
        } else {
            (vprod - v_min * vden, vden)
        };
        let c1 = self.fetch(v_max as u64, u_min as u64);
        let c2 = self.fetch(v_max as u64, u_max as u64);
        let c3 = self.fetch(v_min as u64, u_min as u64);
        let c4 = self.fetch(v_min as u64, u_max as u64);
        let r = blend_channel(c3.r, c4.r, c1.r, c2.r, pu, pud, pv, pvd);
        let g = blend_channel(c3.g, c4.g, c1.g, c2.g, pu, pud, pv, pvd);
        let b = blend_channel(c3.b, c4.b, c1.b, c2.b, pu, pud, pv, pvd);
        Color { r, g, b }
    }
}

/// One exactly blended, truncated channel of a bilinear sample.
fn blend_channel(c3: u8, c4: u8, c1: u8, c2: u8, pu: u128, pud: u128, pv: u128, pvd: u128)
    -> (ch: u8)
    requires
        pu <= pud,
        1 <= pud <= 0x1000000,
        pv <= pvd,
        1 <= pvd <= 0x1000000,
    ensures
        ch as int == chan(c3 as int, c4 as int, c1 as int, c2 as int, pu as int, pud as int,
            pv as int, pvd as int),
{
    proof {
        assert((c3 as int) * ((pud - pu) as int) + (c4 as int) * (pu as int) <= 255 * (pud as int)
            && (c1 as int) * ((pud - pu) as int) + (c2 as int) * (pu as int) <= 255 * (
        pud as int)) by (nonlinear_arith)
            requires
                0 <= c1 as int <= 255,
                0 <= c2 as int <= 255,
                0 <= c3 as int <= 255,
                0 <= c4 as int <= 255,
                0 <= pu as int,
                (pu as int) <= (pud as int),
                (pud as int) <= 0x1000000,
                (pud - pu) as int == (pud as int) - (pu as int),
        ;
    }
    let up: u128 = (c3 as u128) * (pud - pu) + (c4 as u128) * pu;
    let down: u128 = (c1 as u128) * (pud - pu) + (c2 as u128) * pu;
    proof {
        assert((up as int) * ((pvd - pv) as int) + (down as int) * (pv as int) <= 255 * ((
        pud as int) * (pvd as int))) by (nonlinear_arith)
            requires
                0 <= up as int,
                (up as int) <= 255 * (pud as int),
                0 <= down as int,
                (down as int) <= 255 * (pud as int),
                0 <= pv as int,
                (pv as int) <= (pvd as int),
                1 <= pud as int,
                1 <= pvd as int,
                (pvd as int) <= 0x1000000,
                (pvd - pv) as int == (pvd as int) - (pv as int),
        ;
        assert(0 < (pud as int) * (pvd as int) <= 0x1000000000000) by (nonlinear_arith)
            requires
                1 <= pud as int,
                (pud as int) <= 0x1000000,
                1 <= pvd as int,
                (pvd as int) <= 0x1000000,
        ;
    }
    let num: u128 = up * (pvd - pv) + down * pv;
    let den: u128 = pud * pvd;
    let q: u128 = num / den;
    proof {
        lemma_fundamental_div_mod(num as int, den as int);
        lemma_mod_bound(num as int, den as int);
        assert(num as int / den as int <= 255) by (nonlinear_arith)
            requires
                (den as int) * ((num as int) / (den as int)) <= num as int,
                (num as int) <= 255 * (den as int),
                0 < den as int,
        ;
        lemma_mul_congr(up as int, (pvd - pv) as int, blend(c3 as int, c4 as int, pu as int,
            pud as int), (pvd as int) - (pv as int));
        lemma_mul_congr(down as int, pv as int, blend(c1 as int, c2 as int, pu as int,
            pud as int), pv as int);
        lemma_mul_congr(pud as int, pvd as int, pud as int, pvd as int);
        lemma_div_congr((num as int), (den as int), blend(blend(c3 as int, c4 as int, pu as int,
            pud as int), blend(c1 as int, c2 as int, pu as int, pud as int), pv as int,
            pvd as int), (pud as int) * (pvd as int));
    }
    q as u8
}

/// A normalized coordinate clamped to `[0,1]`, executably.
fn clamp01(q: &Rat) -> (r: Rat)
    requires
        q.wf(),
        q_small(q@),
    ensures
        r@ == clamped(q@),
        r.wf(),
        0 <= r@.n <= r@.d,
        r@.d <= rat_bound(),
{
    if q.num < 0 {
        Rat::zero()
    } else if q.num > q.den {
        Rat::one()
    } else {
        *q
    }
}

} // verus!
