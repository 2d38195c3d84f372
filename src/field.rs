use vstd::prelude::*;
use crate::error::FieldError;
use crate::point::{Point, sq_dist};

verus! {

/// The fixed visual scale: one intensity step per this much squared distance.
pub const DIST_SCALE: u128 = 28;

/// The intensity of a pixel whose nearest seed lies at squared distance `d`.
pub open spec fn intensity_of(d: nat) -> u8 {
    if d / 28 >= 255 {
        0u8
    } else {
        (255 - d / 28) as u8
    }
}

/// The least squared distance from `(px, py)` to a seed of `seeds`
/// (zero for an empty sequence, on which it is never asked).
pub open spec fn min_sq_dist(seeds: Seq<Point>, px: int, py: int) -> nat
    decreases seeds.len(),
{
    if seeds.len() == 0 {
        0
    } else if seeds.len() == 1 {
        sq_dist(seeds[0], px, py)
    } else {
        let rest = min_sq_dist(seeds.drop_last(), px, py);
        let last = sq_dist(seeds.last(), px, py);
        if last < rest { last } else { rest }
    }
}

/// The intensity of pixel `(px, py)` for a non-empty seed sequence.
pub open spec fn pixel_of(seeds: Seq<Point>, px: int, py: int) -> u8 {
    intensity_of(min_sq_dist(seeds, px, py))
}

/// A grayscale grid, row-major: pixel `(x, y)` is `data[y * width + x]`.
pub struct Field {
    pub width: u32,
    pub height: u32,
    pub data: Vec<u8>,
}

impl Field {
    /// One intensity for each pixel.
    pub open spec fn wf(&self) -> bool {
        self.data@.len() == self.width as int * self.height as int
    }

    pub open spec fn at(&self, x: int, y: int) -> u8 {
        self.data@[y * self.width + x]
    }

    /// The intensity of the pixel `(x, y)`.
    pub fn pixel(&self, x: u32, y: u32) -> (r: u8)
        requires
            self.wf(),
            x < self.width,
            y < self.height,
        ensures
            r == self.at(x as int, y as int),
    {
        let w = self.width as usize;
        let n: usize = self.data.len();
        assert(y as int * w + x < n) by (nonlinear_arith)
            requires
                x < w,
                y < self.height,
                n == w * self.height,
        ;
        self.data[y as usize * w + x as usize]
    }
}

/// `f` is the field of the given size whose every pixel is rendered from `seeds`.
pub open spec fn is_render_of(f: Field, width: u32, height: u32, seeds: Seq<Point>) -> bool {
    &&& f.width == width
    &&& f.height == height
    &&& f.wf()
    &&& forall|x: int, y: int|
        0 <= x < width && 0 <= y < height ==> #[trigger] f.at(x, y) == pixel_of(seeds, x, y)
}

/// The bytes of the rendered field, row by row.
pub open spec fn render_bytes(width: u32, height: u32, seeds: Seq<Point>) -> Seq<u8> {
    Seq::new(
        (width as int * height as int) as nat,
        |k: int| pixel_of(seeds, k % (width as int), k / (width as int)),
    )
}

/// Maps a squared distance to its intensity: `255 - clamp(d / 28, 0, 255)`.
pub fn intensity(d: u128) -> (r: u8)
    ensures
        r == intensity_of(d as nat),
{
    let q: u128 = d / DIST_SCALE;
    if q >= 255 {
        0
    } else {
        255 - q as u8
    }
}

/// The least squared distance from the pixel `(x, y)` to any seed.
pub fn nearest_sq_dist(seeds: &Vec<Point>, x: u32, y: u32) -> (r: u128)
    requires
        seeds@.len() > 0,
    ensures
        r == min_sq_dist(seeds@, x as int, y as int),
{
    let mut best: u128 = seeds[0].squared_dist(x, y);
    let mut i: usize = 1;
    assert(seeds@.subrange(0, 1).drop_last().len() == 0);
    while i < seeds.len()
        invariant
            1 <= i <= seeds@.len(),
            best == min_sq_dist(seeds@.subrange(0, i as int), x as int, y as int),
        decreases seeds@.len() - i,
    {
        let d: u128 = seeds[i].squared_dist(x, y);
        assert(seeds@.subrange(0, i + 1).drop_last() =~= seeds@.subrange(0, i as int));
        if d < best {
            best = d;
        }
        i = i + 1;
    }
    assert(seeds@.subrange(0, i as int) =~= seeds@);
    best
}

/// The intensity of the pixel `(x, y)`.
pub fn pixel_value(seeds: &Vec<Point>, x: u32, y: u32) -> (r: u8)
    requires
        seeds@.len() > 0,
    ensures
        r == pixel_of(seeds@, x as int, y as int),
{
    intensity(nearest_sq_dist(seeds, x, y))
}

proof fn lemma_row_major(k: int, w: int, x: int, y: int)
    requires
        w > 0,
        0 <= x < w,
        0 <= y,
        k == y * w + x,
    ensures
        k % w == x,
        k / w == y,
{
    vstd::arithmetic::div_mod::lemma_fundamental_div_mod_converse(k, w, y, x);
}

/// Renders the whole field: each pixel gets the intensity of its squared
/// distance to the nearest seed. Fails on an empty seed set.
pub fn render(width: u32, height: u32, seeds: &Vec<Point>) -> (r: Result<Field, FieldError>)
    requires
        width as int * height as int <= usize::MAX,
    ensures
        seeds@.len() == 0 <==> r is Err,
        r matches Err(e) ==> e == FieldError::EmptySeedSet,
        r matches Ok(f) ==> is_render_of(f, width, height, seeds@),
{
    if seeds.len() == 0 {
        return Err(FieldError::EmptySeedSet);
    }
    let ghost w = width as int;
    let mut data: Vec<u8> = Vec::new();
    let mut y: u32 = 0;
    while y < height
        invariant
            seeds@.len() > 0,
            y <= height,
            w == width as int,
            w * height <= usize::MAX,
            data@.len() == y * w,
            forall|k: int|
                0 <= k < data@.len() ==> #[trigger] data@[k] == pixel_of(seeds@, k % w, k / w),
        decreases height - y,
    {
        let mut x: u32 = 0;
        assert((y + 1) * w <= w * height) by (nonlinear_arith)
            requires
                y < height,
                w >= 0,
        ;
        assert((y + 1) * w == y * w + w) by (nonlinear_arith);
        while x < width
            invariant
                seeds@.len() > 0,
                x <= width,
                y < height,
                w == width as int,
                (y + 1) * w <= usize::MAX,
                (y + 1) * w == y * w + w,
                data@.len() == y * w + x,
                forall|k: int|
                    0 <= k < data@.len() ==> #[trigger] data@[k] == pixel_of(seeds@, k % w, k / w),
            decreases width - x,
        {
            let v: u8 = pixel_value(seeds, x, y);
            proof {
                lemma_row_major(y * w + x, w, x as int, y as int);
            }
            data.push(v);
            x = x + 1;
        }
        y = y + 1;
    }
    assert(data@.len() == width as int * height as int) by (nonlinear_arith)
        requires
            data@.len() == y * w,
            y == height,
            w == width as int,
    ;
    let f = Field { width, height, data };
    assert forall|x: int, y: int| 0 <= x < width && 0 <= y < height implies #[trigger] f.at(x, y)
        == pixel_of(seeds@, x, y) by {
        assert(0 <= y * w + x < w * height) by (nonlinear_arith)
            requires
                0 <= x < w,
                0 <= y < height,
        ;
        lemma_row_major(y * w + x, w, x, y);
        assert(f.data@[y * w + x] == pixel_of(seeds@, (y * w + x) % w, (y * w + x) / w));
    }
    Ok(f)
}

/// The nearest distance is no greater than the distance to any one seed.
pub proof fn lemma_min_le_each(seeds: Seq<Point>, px: int, py: int, i: int)
    requires
        0 <= i < seeds.len(),
    ensures
        min_sq_dist(seeds, px, py) <= sq_dist(seeds[i], px, py),
    decreases seeds.len(),
{
    if seeds.len() > 1 && i < seeds.len() - 1 {
        lemma_min_le_each(seeds.drop_last(), px, py, i);
    }
}

/// The nearest distance is the distance to some seed.
pub proof fn lemma_min_attained(seeds: Seq<Point>, px: int, py: int)
    requires
        seeds.len() > 0,
    ensures
        exists|i: int| 0 <= i < seeds.len() && min_sq_dist(seeds, px, py) == sq_dist(#[trigger] seeds[i], px, py),
    decreases seeds.len(),
{
    if seeds.len() == 1 {
        assert(min_sq_dist(seeds, px, py) == sq_dist(seeds[0], px, py));
    } else {
        let rest = seeds.drop_last();
        lemma_min_attained(rest, px, py);
        let i = choose|i: int| 0 <= i < rest.len() && min_sq_dist(rest, px, py) == sq_dist(#[trigger] rest[i], px, py);
        assert(rest[i] == seeds[i]);
        let last = seeds.len() - 1;
        assert(seeds.last() == seeds[last]);
    }
}

/// A pixel on which a seed lies is at distance zero, so it is fully white.
pub proof fn lemma_seed_pixel_white(
    f: Field,
    width: u32,
    height: u32,
    seeds: Seq<Point>,
    px: int,
    py: int,
)
    requires
        is_render_of(f, width, height, seeds),
        0 <= px < width,
        0 <= py < height,
        exists|i: int| 0 <= i < seeds.len() && seeds[i].x == px && seeds[i].y == py,
    ensures
        f.at(px, py) == 255,
{
    let i = choose|i: int| 0 <= i < seeds.len() && seeds[i].x == px && seeds[i].y == py;
    lemma_min_le_each(seeds, px, py, i);
    let p = seeds[i];
    assert((p.x - px) * (p.x - px) + (p.y - py) * (p.y - py) == 0) by (nonlinear_arith)
        requires
            p.x == px,
            p.y == py,
    ;
    assert(min_sq_dist(seeds, px, py) / 28 == 0);
    assert(f.at(px, py) == pixel_of(seeds, px, py));
}

/// A larger squared distance never gives a brighter intensity.
pub proof fn lemma_intensity_monotone(d1: nat, d2: nat)
    requires
        d1 < d2,
    ensures
        intensity_of(d1) >= intensity_of(d2),
{
    vstd::arithmetic::div_mod::lemma_div_is_ordered(d1 as int, d2 as int, 28);
}

/// Of two pixels of a rendered field, the one nearer to its nearest seed is at
/// least as bright.
pub proof fn lemma_render_monotone(
    f: Field,
    width: u32,
    height: u32,
    seeds: Seq<Point>,
    x1: int,
    y1: int,
    x2: int,
    y2: int,
)
    requires
        is_render_of(f, width, height, seeds),
        0 <= x1 < width,
        0 <= y1 < height,
        0 <= x2 < width,
        0 <= y2 < height,
        min_sq_dist(seeds, x1, y1) < min_sq_dist(seeds, x2, y2),
    ensures
        f.at(x1, y1) >= f.at(x2, y2),
{
    assert(f.at(x1, y1) == pixel_of(seeds, x1, y1));
    assert(f.at(x2, y2) == pixel_of(seeds, x2, y2));
    lemma_intensity_monotone(min_sq_dist(seeds, x1, y1), min_sq_dist(seeds, x2, y2));
}

/// Every squared distance of at least 28 * 255 = 7140 is fully black.
pub proof fn lemma_saturation(d: nat)
    requires
        d >= 28 * 255,
    ensures
        intensity_of(d) == 0,
{
    vstd::arithmetic::div_mod::lemma_div_is_ordered(28 * 255 as int, d as int, 28);
}

/// A rendered field holds exactly the bytes `render_bytes` gives.
pub proof fn lemma_render_bytes(f: Field, width: u32, height: u32, seeds: Seq<Point>)
    requires
        is_render_of(f, width, height, seeds),
    ensures
        f.data@ == render_bytes(width, height, seeds),
{
    let w = width as int;
    let g = render_bytes(width, height, seeds);
    assert forall|k: int| 0 <= k < f.data@.len() implies f.data@[k] == g[k] by {
        assert(w > 0) by (nonlinear_arith)
            requires
                0 <= k < w * height,
                height >= 0,
        ;
        let x = k % w;
        let y = k / w;
        vstd::arithmetic::div_mod::lemma_fundamental_div_mod(k, w);
        assert(0 <= y < height) by (nonlinear_arith)
            requires
                k == w * y + x,
                0 <= x < w,
                0 <= k < w * height,
        ;
        assert(k == y * w + x) by (nonlinear_arith)
            requires
                k == w * y + x,
        ;
        assert(f.at(x, y) == pixel_of(seeds, x, y));
    }
    assert(f.data@ =~= g);
}

/// Two renders of the same size from the same seeds hold the same bytes.
pub proof fn lemma_render_deterministic(
    f1: Field,
    f2: Field,
    width: u32,
    height: u32,
    seeds: Seq<Point>,
)
    requires
        is_render_of(f1, width, height, seeds),
        is_render_of(f2, width, height, seeds),
    ensures
        f1.data@ == f2.data@,
{
    lemma_render_bytes(f1, width, height, seeds);
    lemma_render_bytes(f2, width, height, seeds);
}
} // verus!
