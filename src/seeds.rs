use vstd::prelude::*;
use rand::Rng;
use rand::rngs::StdRng;
use crate::error::FieldError;
use crate::point::Point;

verus! {

#[verifier::external_type_specification]
#[verifier::external_body]
pub struct ExStdRng(StdRng);

/// Relies on rand::Rng::gen_range: a value drawn from `0..bound`, which panics
/// only on an empty range.
#[verifier::external_body]
fn draw_below(rng: &mut StdRng, bound: u32) -> (r: u32)
    requires
        bound > 0,
    ensures
        r < bound,
{
    rng.gen_range(0..bound)
}

/// `p` lies in the `width` by `height` pixel domain.
pub open spec fn in_domain(p: Point, width: u32, height: u32) -> bool {
    0 <= p.x < width && 0 <= p.y < height
}

impl Point {
    /// A point drawn from the `width` by `height` pixel domain.
    pub fn rand(rng: &mut StdRng, width: u32, height: u32) -> (r: Point)
        requires
            width > 0,
            height > 0,
        ensures
            in_domain(r, width, height),
    {
        let x: u32 = draw_below(rng, width);
        let y: u32 = draw_below(rng, height);
        Point::new(x as i64, y as i64)
    }
}

/// Draws `count` independent seeds from the `width` by `height` domain;
/// duplicates are kept. Fails when either dimension is zero.
pub fn generate(rng: &mut StdRng, width: u32, height: u32, count: u32) -> (r: Result<
    Vec<Point>,
    FieldError,
>)
    ensures
        (width == 0 || height == 0) <==> r is Err,
        r matches Err(e) ==> e == FieldError::InvalidDimensions,
        r matches Ok(v) ==> v@.len() == count && forall|i: int|
            0 <= i < v@.len() ==> in_domain(#[trigger] v@[i], width, height),
{
    if width == 0 || height == 0 {
        return Err(FieldError::InvalidDimensions);
    }
    let mut v: Vec<Point> = Vec::new();
    let mut n: u32 = 0;
    while n < count
        invariant
            width > 0,
            height > 0,
            n <= count,
            v@.len() == n,
            forall|i: int| 0 <= i < v@.len() ==> in_domain(#[trigger] v@[i], width, height),
        decreases count - n,
    {
        let p = Point::rand(rng, width, height);
        v.push(p);
        n = n + 1;
    }
    Ok(v)
}

/// `length` letters drawn from `a` to `z`, for naming output files.
pub fn generate_random_characters(rng: &mut StdRng, length: usize) -> (r: Vec<char>)
    ensures
        r@.len() == length,
        forall|i: int| 0 <= i < r@.len() ==> 'a' <= #[trigger] r@[i] <= 'z',
{
    let mut v: Vec<char> = Vec::new();
    let mut n: usize = 0;
    while n < length
        invariant
            n <= length,
            v@.len() == n,
            forall|i: int| 0 <= i < v@.len() ==> 'a' <= #[trigger] v@[i] <= 'z',
        decreases length - n,
    {
        let k: u32 = draw_below(rng, 26);
        let c: char = ((97 + k) as u8) as char;
        v.push(c);
        n = n + 1;
    }
    v
}

} // verus!
