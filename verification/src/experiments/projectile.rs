use vstd::prelude::*;
use crate::canvas::Canvas;
use crate::color::Color;
use crate::scalar::Scalar;
use crate::tuples::{Point, Vector};

verus! {

/// A body in flight.
#[derive(Debug, Clone, Copy)]
pub struct Projectile {
    pub position: Point,
    pub velocity: Vector,
}

/// What acts on a body in flight.
#[derive(Debug, Clone, Copy)]
pub struct Environment {
    pub gravity: Vector,
    pub wind: Vector,
}

/// The body one tick later: moved by its velocity, and its velocity
/// changed by gravity and wind.
pub open spec fn spec_tick(env: &Environment, proj: Projectile) -> Projectile {
    Projectile {
        position: proj.position.add(proj.velocity),
        velocity: proj.velocity.add(env.gravity).add(env.wind),
    }
}

pub fn tick(env: &Environment, proj: &mut Projectile)
    ensures
        *final(proj) == spec_tick(env, *old(proj)),
{
    proj.position = proj.position.add(proj.velocity);
    proj.velocity = proj.velocity.add(env.gravity).add(env.wind);
}

/// The body `n` ticks later.
pub open spec fn spec_after(env: &Environment, proj: Projectile, n: nat) -> Projectile
    decreases n,
{
    if n == 0 {
        proj
    } else {
        spec_tick(env, spec_after(env, proj, (n - 1) as nat))
    }
}

/// Whether the body is on the ground or under it.
pub open spec fn spec_fallen(proj: Projectile) -> bool {
    proj.position.1.raw <= 0
}

/// Whether the body stands over the pixel at column `x` of row `y` of a
/// canvas of the given size: the column is its `x` and the row is the
/// canvas's height less its `y`, each cut to a whole number.
pub open spec fn spec_over_pixel(proj: Projectile, width: usize, height: usize, x: int, y: int) -> bool {
    let column = proj.position.0.spec_to_index();
    let up = proj.position.1.spec_to_index();
    column == x && column < width && 1 <= up <= height && height - up == y
}

/// Whether the body stood over the pixel at one of its first `n` ticks.
pub open spec fn spec_flown_over(
    env: &Environment,
    proj: Projectile,
    width: usize,
    height: usize,
    x: int,
    y: int,
    n: nat,
) -> bool
    decreases n,
{
    if n == 0 {
        false
    } else {
        spec_flown_over(env, proj, width, height, x, y, (n - 1) as nat) || spec_over_pixel(
            spec_after(env, proj, n),
            width,
            height,
            x,
            y,
        )
    }
}

/// Whether `after` is `before` with the flight of `n` ticks drawn on it:
/// white where the body stood over a pixel, unchanged elsewhere.
pub open spec fn is_flight(
    before: &Canvas,
    after: &Canvas,
    env: &Environment,
    proj: Projectile,
    n: nat,
) -> bool {
    &&& after.well_formed()
    &&& after.width == before.width
    &&& after.height == before.height
    &&& forall|x: int, y: int|
        0 <= x < before.width && 0 <= y < before.height ==> after.spec_pixel_at(x, y)
            == (if spec_flown_over(env, proj, before.width, before.height, x, y, n) {
            Color::white()
        } else {
            before.spec_pixel_at(x, y)
        })
}

/// Lets the body fly until it has fallen, and draws each place it comes to
/// that lies on the canvas. Returns the count of the ticks. The flight
/// also ends when the count can grow no more.
pub fn tick_until_fallen(canvas: &mut Canvas, env: &Environment, proj: &mut Projectile) -> (ticks:
    usize)
    requires
        old(canvas).well_formed(),
    ensures
        *final(proj) == spec_after(env, *old(proj), ticks as nat),
        is_flight(old(canvas), final(canvas), env, *old(proj), ticks as nat),
        forall|k: nat| k < ticks ==> !spec_fallen(#[trigger] spec_after(env, *old(proj), k)),
        spec_fallen(*final(proj)) || ticks == usize::MAX,
{
    let mut ticks: usize = 0;
    while proj.position.1.raw > 0 && ticks < usize::MAX
        invariant
            *proj == spec_after(env, *old(proj), ticks as nat),
            is_flight(old(canvas), canvas, env, *old(proj), ticks as nat),
            forall|k: nat| k < ticks ==> !spec_fallen(#[trigger] spec_after(env, *old(proj), k)),
        decreases usize::MAX - ticks,
    {
        tick(env, proj);
        ticks += 1;
        let column: usize = proj.position.0.to_index();
        let up: usize = proj.position.1.to_index();
        if column < canvas.width && 1 <= up && up <= canvas.height {
            canvas.write_pixel(column, canvas.height - up, Color::white());
        }
    }
    ticks
}

/// The body of the picture at its start: at `(0, 1, 0)`, thrown up and to
/// the right at 11.25 units a tick.
pub open spec fn spec_start() -> Projectile {
    Projectile {
        position: Point::spec_new(Scalar::zero(), Scalar::one(), Scalar::zero()),
        velocity: Vector::spec_new(
            Scalar::one(),
            Scalar::spec_from_ratio(18, 10),
            Scalar::zero(),
        ).normalize().mul(Scalar::spec_from_ratio(1125, 100)),
    }
}

/// What acts on the body of the picture: gravity of 0.1 and a light wind
/// against it.
pub open spec fn spec_weather() -> Environment {
    Environment {
        gravity: Vector::spec_new(
            Scalar::zero(),
            Scalar::spec_from_ratio(1, 10).neg(),
            Scalar::zero(),
        ),
        wind: Vector::spec_new(Scalar::spec_from_ratio(1, 100).neg(), Scalar::zero(), Scalar::zero()),
    }
}

/// The picture, 900 by 550, of the flight of a body that is thrown up and
/// to the right: a white pixel for each place it comes to on the canvas,
/// on black, until it has fallen.
pub fn draw_projectile() -> (image: Canvas)
    ensures
        image.well_formed(),
        image.width == 900,
        image.height == 550,
        exists|n: nat|
            {
                &&& spec_fallen(spec_after(&spec_weather(), spec_start(), n)) || n == usize::MAX
                &&& forall|k: nat|
                    k < n ==> !spec_fallen(#[trigger] spec_after(&spec_weather(), spec_start(), k))
                &&& forall|x: int, y: int|
                    0 <= x < 900 && 0 <= y < 550 ==> image.spec_pixel_at(x, y) == (if spec_flown_over(
                        &spec_weather(),
                        spec_start(),
                        900,
                        550,
                        x,
                        y,
                        n,
                    ) {
                        Color::white()
                    } else {
                        Color::black()
                    })
            },
{
    let start = Point::new(Scalar::zero(), Scalar::one(), Scalar::zero());
    let velocity = Vector::new(
        Scalar::one(),
        Scalar::from_ratio(18, 10),
        Scalar::zero(),
    ).normalize().mul(Scalar::from_ratio(1125, 100));
    let mut p = Projectile { position: start, velocity };
    let gravity = Vector::new(Scalar::zero(), Scalar::from_ratio(1, 10).neg(), Scalar::zero());
    let wind = Vector::new(Scalar::from_ratio(1, 100).neg(), Scalar::zero(), Scalar::zero());
    let e = Environment { gravity, wind };
    let mut c = Canvas::new(900, 550);
    let ghost blank = c;
    let ticks = tick_until_fallen(&mut c, &e, &mut p);
    proof {
        let n = ticks as nat;
        assert(is_flight(&blank, &c, &spec_weather(), spec_start(), n));
        assert forall|x: int, y: int| 0 <= x < 900 && 0 <= y < 550 implies c.spec_pixel_at(x, y)
            == (if spec_flown_over(&spec_weather(), spec_start(), 900, 550, x, y, n) {
            Color::white()
        } else {
            Color::black()
        }) by {
            assert(blank.spec_pixel_at(x, y) == Color::black());
        }
    }
    c
}

} // verus!
