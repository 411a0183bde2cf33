//! Small helpers: identifiers made of pseudo-random letters, and the points
//! of common shapes.

use vstd::prelude::*;
use crate::graphics::Point;
use crate::scale::Pt;
use crate::text::{decimal_bytes, decimal_chars, lemma_decimal_chars, push_decimal_bytes};

verus! {

/// The number of letters in an identifier.
pub const ID_LEN: usize = 32;

/// The seed that a new source of numbers starts from.
pub const FIRST_SEED: u64 = 2100;

/// By how much the seed moves on with each number.
pub const SEED_STEP: u64 = 21;

/// A source of pseudo-random numbers. It need not be hard to predict: it
/// serves to tell documents apart.
#[derive(Debug, Clone, Copy, PartialEq, Eq, Structural)]
pub struct RandomSource {
    pub seed: u64,
}

/// The number that a seed gives: the seed, mixed by three shifts.
pub open spec fn xorshift(seed: u64) -> u64 {
    let a = seed ^ (seed << 21);
    let b = a ^ (a >> 35);
    b ^ (b << 4)
}

/// The seed after one number is drawn.
pub open spec fn next_seed(seed: u64) -> u64 {
    if seed > u64::MAX - SEED_STEP {
        (seed - (u64::MAX - SEED_STEP) - 1) as u64
    } else {
        (seed + SEED_STEP) as u64
    }
}

/// The letter that stands for a decimal digit: `A` for 0 up to `J` for 9.
/// Numbers above 9 go on through the characters that follow.
pub open spec fn digit_letter(d: u8) -> char
    recommends
        d <= 190,
{
    ((65 + d) as u8) as char
}

/// The letters for the first `n` digits of a decimal notation.
pub open spec fn digits_letters(digits: Seq<char>, n: nat) -> Seq<char> {
    Seq::new(n, |i: int| digit_letter((digits[i] as u8 - 48) as u8))
}

/// `len` letters drawn from the source at `seed`: the digits of one number
/// after the other, each digit as a letter, as many as are needed.
pub open spec fn random_letters(seed: u64, len: nat) -> Seq<char>
    decreases len,
{
    if len == 0 {
        Seq::empty()
    } else {
        let digits = decimal_chars(xorshift(seed) as nat);
        if digits.len() == 0 {
            Seq::empty()
        } else if digits.len() >= len {
            digits_letters(digits, len)
        } else {
            digits_letters(digits, digits.len()) + random_letters(
                next_seed(seed),
                (len - digits.len()) as nat,
            )
        }
    }
}

/// The seed after `len` letters are drawn from the source at `seed`.
pub open spec fn seed_after_letters(seed: u64, len: nat) -> u64
    decreases len,
{
    if len == 0 {
        seed
    } else {
        let digits = decimal_chars(xorshift(seed) as nat);
        if digits.len() == 0 || digits.len() >= len {
            next_seed(seed)
        } else {
            seed_after_letters(next_seed(seed), (len - digits.len()) as nat)
        }
    }
}

impl RandomSource {
    /// A source at the first seed.
    pub fn new() -> (s: RandomSource)
        ensures
            s.seed == FIRST_SEED,
    {
        RandomSource { seed: FIRST_SEED }
    }
}

/// Draws a number from the source and moves the source on.
pub fn rand(source: &mut RandomSource) -> (x: u64)
    ensures
        x == xorshift(old(source).seed),
        final(source).seed == next_seed(old(source).seed),
{
    let seed = source.seed;
    source.seed = if seed > u64::MAX - SEED_STEP {
        seed - (u64::MAX - SEED_STEP) - 1
    } else {
        seed + SEED_STEP
    };
    let a = seed ^ (seed << 21);
    let b = a ^ (a >> 35);
    b ^ (b << 4)
}

/// Maps a decimal digit to an upper-case letter.
pub fn u8_to_char(input: u8) -> (c: char)
    requires
        input <= 190,
    ensures
        c == digit_letter(input),
{
    (65u8 + input) as char
}

/// An identifier of 32 letters from `A` to `J`, drawn from the source.
pub fn random_character_string_32(source: &mut RandomSource) -> (id: String)
    ensures
        id@ == random_letters(old(source).seed, ID_LEN as nat),
        id@.len() == ID_LEN,
        final(source).seed == seed_after_letters(old(source).seed, ID_LEN as nat),
{
    let mut id = String::new();
    let mut count: usize = 0;
    assert(id@ + random_letters(source.seed, ID_LEN as nat) =~= random_letters(
        source.seed,
        ID_LEN as nat,
    ));
    while count < ID_LEN
        invariant
            count <= ID_LEN,
            id@.len() == count,
            id@ + random_letters(source.seed, (ID_LEN - count) as nat) == random_letters(
                old(source).seed,
                ID_LEN as nat,
            ),
            count < ID_LEN ==> seed_after_letters(source.seed, (ID_LEN - count) as nat)
                == seed_after_letters(old(source).seed, ID_LEN as nat),
            count == ID_LEN ==> source.seed == seed_after_letters(
                old(source).seed,
                ID_LEN as nat,
            ),
        decreases ID_LEN - count,
    {
        let ghost seed = source.seed;
        let ghost left = (ID_LEN - count) as nat;
        let ghost base = id@;
        let number = rand(source);
        let mut digits: Vec<u8> = Vec::new();
        push_decimal_bytes(&mut digits, number);
        let ghost chars = decimal_chars(number as nat);
        proof {
            lemma_decimal_chars(number as nat);
            assert(digits@ =~= decimal_bytes(number as nat));
            assert(digits@.len() == chars.len());
        }
        let take: usize = if digits.len() >= ID_LEN - count {
            ID_LEN - count
        } else {
            digits.len()
        };
        let mut i: usize = 0;
        while i < take
            invariant
                i <= take <= digits@.len(),
                digits@ == decimal_bytes(number as nat),
                chars == decimal_chars(number as nat),
                digits@.len() == chars.len(),
                forall|k: int| 0 <= k < chars.len() ==> '0' <= #[trigger] chars[k] <= '9',
                id@ == base + digits_letters(chars, i as nat),
            decreases take - i,
        {
            let b = digits[i];
            assert(b == chars[i as int] as u8);
            assert('0' <= chars[i as int] <= '9');
            id.push(u8_to_char(b - 48));
            assert(id@ =~= base + digits_letters(chars, (i + 1) as nat));
            i += 1;
        }
        proof {
            if chars.len() >= left {
                assert(random_letters(seed, left) == digits_letters(chars, left));
                assert(id@ + Seq::<char>::empty() =~= id@);
            } else {
                assert(id@ + random_letters(source.seed, (left - chars.len()) as nat) =~= base
                    + random_letters(seed, left));
            }
        }
        count = count + take;
    }
    assert(id@ + Seq::<char>::empty() =~= id@);
    id
}

/// The four corners of a rectangle of the given width and height around a
/// centre: top left, top right, bottom right, bottom left. None of them is
/// a control point. Halves are rounded toward zero to a whole unit.
pub open spec fn rect_points(scale_x: Pt, scale_y: Pt, offset_x: Pt, offset_y: Pt) -> Seq<
    (Point, bool),
> {
    let half_x = half(scale_x.units as int);
    let half_y = half(scale_y.units as int);
    let top = Pt { units: (offset_y.units + half_y) as i64 };
    let bottom = Pt { units: (offset_y.units - half_y) as i64 };
    let left = Pt { units: (offset_x.units - half_x) as i64 };
    let right = Pt { units: (offset_x.units + half_x) as i64 };
    seq![
        (Point { x: left, y: top }, false),
        (Point { x: right, y: top }, false),
        (Point { x: right, y: bottom }, false),
        (Point { x: left, y: bottom }, false),
    ]
}

/// Half of a number, rounded toward zero.
pub open spec fn half(n: int) -> int {
    if n >= 0 {
        n / 2
    } else {
        -((-n) / 2)
    }
}

/// Whether the corners of the rectangle can be held.
pub open spec fn rect_fits(scale_x: Pt, scale_y: Pt, offset_x: Pt, offset_y: Pt) -> bool {
    &&& i64::MIN <= offset_x.units - half(scale_x.units as int)
    &&& offset_x.units - half(scale_x.units as int) <= i64::MAX
    &&& i64::MIN <= offset_x.units + half(scale_x.units as int)
    &&& offset_x.units + half(scale_x.units as int) <= i64::MAX
    &&& i64::MIN <= offset_y.units - half(scale_y.units as int)
    &&& offset_y.units - half(scale_y.units as int) <= i64::MAX
    &&& i64::MIN <= offset_y.units + half(scale_y.units as int)
    &&& offset_y.units + half(scale_y.units as int) <= i64::MAX
}

/// Half of a length, rounded toward zero.
fn half_units(n: i64) -> (h: i64)
    ensures
        h == half(n as int),
{
    if n >= 0 {
        n / 2
    } else if n == i64::MIN {
        -(i64::MAX / 2) - 1
    } else {
        -((-n) / 2)
    }
}

/// The corners of a rectangle of the given width and height around a
/// centre; `None` when a corner lies beyond what a length can hold.
pub fn calculate_points_for_rect(scale_x: Pt, scale_y: Pt, offset_x: Pt, offset_y: Pt) -> (r:
    Option<Vec<(Point, bool)>>)
    ensures
        r.is_some() <==> rect_fits(scale_x, scale_y, offset_x, offset_y),
        r matches Some(v) ==> v@ == rect_points(scale_x, scale_y, offset_x, offset_y),
{
    let half_x = half_units(scale_x.units);
    let half_y = half_units(scale_y.units);
    let top = offset_y.units.checked_add(half_y);
    let bottom = offset_y.units.checked_sub(half_y);
    let left = offset_x.units.checked_sub(half_x);
    let right = offset_x.units.checked_add(half_x);
    match (top, bottom, left, right) {
        (Some(top), Some(bottom), Some(left), Some(right)) => {
            let top = Pt { units: top };
            let bottom = Pt { units: bottom };
            let left = Pt { units: left };
            let right = Pt { units: right };
            let mut v: Vec<(Point, bool)> = Vec::new();
            v.push((Point { x: left, y: top }, false));
            v.push((Point { x: right, y: top }, false));
            v.push((Point { x: right, y: bottom }, false));
            v.push((Point { x: left, y: bottom }, false));
            assert(v@ =~= rect_points(scale_x, scale_y, offset_x, offset_y));
            Some(v)
        },
        _ => None,
    }
}


/// How far the control points of a quarter circle lie from its ends, in
/// parts of a million millionths of the radius.
pub const CIRCLE_CONTROL: i128 = 551_915_024_494;

/// The scale of [`CIRCLE_CONTROL`].
pub const CIRCLE_SCALE: i128 = 1_000_000_000_000;

/// The distance of the control points of a quarter circle of the given
/// radius from its ends, rounded toward zero to a whole unit.
pub open spec fn control_distance(radius: i64) -> int {
    if radius >= 0 {
        (radius * CIRCLE_CONTROL) / (CIRCLE_SCALE as int)
    } else {
        -(((-radius) * CIRCLE_CONTROL) / (CIRCLE_SCALE as int))
    }
}

/// The sixteen points of a circle around the origin, four for each quarter:
/// the start of the quarter, two control points, and its end. The first
/// three of each quarter are flagged. The circle starts at the top and runs
/// through the right, the bottom and the left.
pub open spec fn circle_offsets(r: int, c: int) -> Seq<(int, int, bool)> {
    seq![
        (0, r, true),
        (c, r, true),
        (r, c, true),
        (r, 0, false),
        (r, 0, true),
        (r, -c, true),
        (c, -r, true),
        (0, -r, false),
        (0, -r, true),
        (-c, -r, true),
        (-r, -c, true),
        (-r, 0, false),
        (-r, 0, true),
        (-r, c, true),
        (-c, r, true),
        (0, r, false),
    ]
}

/// Whether a circle of the given radius around the given centre can be
/// held: the centre moved by the radius either way is a length.
pub open spec fn circle_fits(radius: Pt, offset_x: Pt, offset_y: Pt) -> bool {
    &&& radius.units != i64::MIN
    &&& i64::MIN <= offset_x.units - abs(radius.units as int)
    &&& offset_x.units + abs(radius.units as int) <= i64::MAX
    &&& i64::MIN <= offset_y.units - abs(radius.units as int)
    &&& offset_y.units + abs(radius.units as int) <= i64::MAX
}

/// The distance of a number from 0.
pub open spec fn abs(n: int) -> int {
    if n >= 0 {
        n
    } else {
        -n
    }
}

/// The points of a circle of the given radius around the given centre.
pub open spec fn circle_points(radius: Pt, offset_x: Pt, offset_y: Pt) -> Seq<(Point, bool)> {
    let offsets = circle_offsets(radius.units as int, control_distance(radius.units));
    Seq::new(
        16,
        |i: int|
            (
                Point {
                    x: Pt { units: (offset_x.units + offsets[i].0) as i64 },
                    y: Pt { units: (offset_y.units + offsets[i].1) as i64 },
                },
                offsets[i].2,
            ),
    )
}

/// The distance of the control points of a quarter circle from its ends.
fn control_units(radius: i64) -> (c: i64)
    requires
        radius != i64::MIN,
    ensures
        c == control_distance(radius),
        abs(c as int) <= abs(radius as int),
{
    if radius >= 0 {
        let wide: i128 = (radius as i128) * CIRCLE_CONTROL / CIRCLE_SCALE;
        assert(wide <= radius) by (nonlinear_arith)
            requires
                wide == radius * 551_915_024_494 / 1_000_000_000_000,
                radius >= 0,
        ;
        wide as i64
    } else {
        let wide: i128 = ((-radius) as i128) * CIRCLE_CONTROL / CIRCLE_SCALE;
        assert(wide <= -radius) by (nonlinear_arith)
            requires
                wide == (-radius) * 551_915_024_494 / 1_000_000_000_000,
                radius < 0,
        ;
        -(wide as i64)
    }
}

/// The points of a circle, made of four curves, of the given radius around
/// the given centre; `None` when the circle reaches beyond what a length
/// can hold.
pub fn calculate_points_for_circle(radius: Pt, offset_x: Pt, offset_y: Pt) -> (r: Option<
    Vec<(Point, bool)>,
>)
    ensures
        r.is_some() <==> circle_fits(radius, offset_x, offset_y),
        r matches Some(v) ==> v@ == circle_points(radius, offset_x, offset_y),
{
    if radius.units == i64::MIN {
        return None;
    }
    let r = radius.units;
    let reach = if r >= 0 {
        r
    } else {
        -r
    };
    if offset_x.units.checked_sub(reach).is_none() || offset_x.units.checked_add(reach).is_none()
        || offset_y.units.checked_sub(reach).is_none() || offset_y.units.checked_add(
        reach,
    ).is_none() {
        return None;
    }
    let c = control_units(r);
    let x = offset_x.units;
    let y = offset_y.units;
    let at = |dx: i64, dy: i64, flag: bool| -> (p: (Point, bool))
        requires
            i64::MIN <= x + dx <= i64::MAX,
            i64::MIN <= y + dy <= i64::MAX,
        ensures
            p == (Point { x: Pt { units: (x + dx) as i64 }, y: Pt { units: (y + dy) as i64 } }, flag),
        { (Point { x: Pt { units: x + dx }, y: Pt { units: y + dy } }, flag) };
    let mut v: Vec<(Point, bool)> = Vec::new();
    v.push(at(0, r, true));
    v.push(at(c, r, true));
    v.push(at(r, c, true));
    v.push(at(r, 0, false));
    v.push(at(r, 0, true));
    v.push(at(r, -c, true));
    v.push(at(c, -r, true));
    v.push(at(0, -r, false));
    v.push(at(0, -r, true));
    v.push(at(-c, -r, true));
    v.push(at(-r, -c, true));
    v.push(at(-r, 0, false));
    v.push(at(-r, 0, true));
    v.push(at(-r, c, true));
    v.push(at(-c, r, true));
    v.push(at(0, r, false));
    assert(v@ =~= circle_points(radius, offset_x, offset_y));
    Some(v)
}

} // verus!
