//! The renderer: traces one ray per pixel against the scene and fills a
//! buffer of packed pixels.
//!
//! The renderer owns the traversal: the order of the pixels, the scan of the
//! scene for the nearest hit, the colour of a miss and the packing. What a
//! ray hits and how a hit is lit is the caller's, handed in as two functions.
//! `intersect` answers, for a ray direction and an object, with the distance
//! of the near intersection as a single-precision bit pattern, or `None` for
//! a miss; `shade` gives the colour of a hit at that distance.

use crate::camera::Camera;
use crate::color::lemma_black_is_background;
use crate::color::{convert_to_rgba, Color, BACKGROUND};
use crate::hit::{all_miss, is_nearer, is_nearest, is_reordering, is_strictly_nearest};
use crate::hit::{lemma_nearest_is_unique, lemma_same_object_wins};
use crate::world::World;
use vstd::prelude::*;

verus! {

/// The renderer as the contracts speak of it: the size of the last frame and
/// its pixels, row by row.
pub struct FrameView {
    pub width: nat,
    pub height: nat,
    pub pixels: Seq<u32>,
}

/// The pixel buffer of the last frame, kept between frames so that its
/// storage is reused.
pub struct Renderer {
    image_data: Vec<u32>,
    width: usize,
    height: usize,
}

/// Whether `color` is a colour that tracing a ray against `objects` can give
/// when the objects answer the ray with `hits`.
///
/// If no object is hit the colour is opaque black. Otherwise it is what
/// `shade` gives for the nearest hit, the first of several equally near ones.
pub open spec fn traced_by<D, O, I, S>(
    direction: D,
    objects: Seq<O>,
    intersect: I,
    shade: S,
    hits: Seq<Option<u32>>,
    color: Color,
) -> bool where I: Fn(&D, &O) -> Option<u32>, S: Fn(&D, &O, u32) -> Color {
    &&& hits.len() == objects.len()
    &&& forall|i: int|
        0 <= i < objects.len() ==> call_ensures(intersect, (&direction, &objects[i]), #[trigger] hits[i])
    &&& if all_miss(hits) {
        color == Color::black()
    } else {
        exists|k: int|
            #[trigger] is_nearest(hits, k) && call_ensures(
                shade,
                (&direction, &objects[k], hits[k]->0),
                color,
            )
    }
}

/// Whether `color` is a colour that tracing a ray against `objects` can give.
pub open spec fn traced<D, O, I, S>(
    direction: D,
    objects: Seq<O>,
    intersect: I,
    shade: S,
    color: Color,
) -> bool where I: Fn(&D, &O) -> Option<u32>, S: Fn(&D, &O, u32) -> Color {
    exists|hits: Seq<Option<u32>>|
        #[trigger] traced_by(direction, objects, intersect, shade, hits, color)
}

/// Whether `pixel` is the packing of a colour that tracing can give.
pub open spec fn pixel_traced<D, O, I, S>(
    direction: D,
    objects: Seq<O>,
    intersect: I,
    shade: S,
    pixel: u32,
) -> bool where I: Fn(&D, &O) -> Option<u32>, S: Fn(&D, &O, u32) -> Color {
    exists|color: Color|
        #[trigger] traced(direction, objects, intersect, shade, color) && pixel == color.packed()
}

/// Whether `intersect` and `shade` may be called on this ray and every
/// object: `intersect` on each object, `shade` on each hit that `intersect`
/// can report.
pub open spec fn can_trace<D, O, I, S>(
    direction: D,
    objects: Seq<O>,
    intersect: I,
    shade: S,
) -> bool where I: Fn(&D, &O) -> Option<u32>, S: Fn(&D, &O, u32) -> Color {
    &&& forall|i: int|
        0 <= i < objects.len() ==> #[trigger] call_requires(intersect, (&direction, &objects[i]))
    &&& forall|i: int, t: u32|
        0 <= i < objects.len() && #[trigger] call_ensures(
            intersect,
            (&direction, &objects[i]),
            Some(t),
        ) ==> call_requires(shade, (&direction, &objects[i], t))
}

impl View for Renderer {
    type V = FrameView;

    closed spec fn view(&self) -> FrameView {
        FrameView {
            width: self.width as nat,
            height: self.height as nat,
            pixels: self.image_data@,
        }
    }
}

impl Renderer {
    /// A renderer that has drawn nothing yet.
    pub fn new() -> (renderer: Self)
        ensures
            renderer@ == (FrameView { width: 0, height: 0, pixels: Seq::empty() }),
    {
        Self { image_data: Vec::new(), width: 0, height: 0 }
    }

    /// Renders one frame of `width` by `height` pixels, and says whether the
    /// frame differs in size from the one before.
    ///
    /// Pixel `x + y * width` is traced along entry `x + y * width` of the
    /// camera's table of ray directions, so the table must hold at least
    /// `width * height` entries. The buffer is rebuilt in full.
    pub fn render<P, D, O, I, S>(
        &mut self,
        width: usize,
        height: usize,
        camera: &Camera<P, D>,
        world: &World<O>,
        intersect: I,
        shade: S,
    ) -> (resized: bool) where I: Fn(&D, &O) -> Option<u32>, S: Fn(&D, &O, u32) -> Color
        requires
            width * height <= camera@.ray_directions.len(),
            forall|p: int|
                0 <= p < width * height ==> can_trace(
                    #[trigger] camera@.ray_directions[p],
                    world.objects@,
                    intersect,
                    shade,
                ),
        ensures
            final(self)@.width == width,
            final(self)@.height == height,
            final(self)@.pixels.len() == width * height,
            forall|p: int|
                0 <= p < width * height ==> pixel_traced(
                    camera@.ray_directions[p],
                    world.objects@,
                    intersect,
                    shade,
                    #[trigger] final(self)@.pixels[p],
                ),
            world.objects@.len() == 0 ==> forall|p: int|
                0 <= p < width * height ==> #[trigger] final(self)@.pixels[p] == BACKGROUND,
            resized == (old(self)@.width != width || old(self)@.height != height),
    {
        let resized = self.width != width || self.height != height;
        let ray_directions = camera.get_ray_directions();
        let available: usize = ray_directions.len();
        assert(width * height <= available);

        self.width = width;
        self.height = height;
        self.image_data.clear();
        self.image_data.reserve(width * height);

        let mut y: usize = 0;
        while y < height
            invariant
                y <= height,
                width * height <= available,
                ray_directions@ == camera@.ray_directions,
                available == ray_directions@.len(),
                self.width == width,
                self.height == height,
                self.image_data@.len() == y * width,
                forall|p: int|
                    0 <= p < width * height ==> can_trace(
                        #[trigger] camera@.ray_directions[p],
                        world.objects@,
                        intersect,
                        shade,
                    ),
                forall|p: int|
                    0 <= p < self.image_data@.len() ==> pixel_traced(
                        camera@.ray_directions[p],
                        world.objects@,
                        intersect,
                        shade,
                        #[trigger] self.image_data@[p],
                    ),
                world.objects@.len() == 0 ==> forall|p: int|
                    0 <= p < self.image_data@.len() ==> #[trigger] self.image_data@[p]
                        == BACKGROUND,
            decreases height - y,
        {
            let mut x: usize = 0;
            while x < width
                invariant
                    y < height,
                    x <= width,
                    width * height <= available,
                    ray_directions@ == camera@.ray_directions,
                    available == ray_directions@.len(),
                    self.width == width,
                    self.height == height,
                    self.image_data@.len() == y * width + x,
                    forall|p: int|
                        0 <= p < width * height ==> can_trace(
                            #[trigger] camera@.ray_directions[p],
                            world.objects@,
                            intersect,
                            shade,
                        ),
                    forall|p: int|
                        0 <= p < self.image_data@.len() ==> pixel_traced(
                            camera@.ray_directions[p],
                            world.objects@,
                            intersect,
                            shade,
                            #[trigger] self.image_data@[p],
                        ),
                    world.objects@.len() == 0 ==> forall|p: int|
                        0 <= p < self.image_data@.len() ==> #[trigger] self.image_data@[p]
                            == BACKGROUND,
                decreases width - x,
            {
                assert(y * width + x < width * height) by (nonlinear_arith)
                    requires
                        x < width,
                        y < height,
                ;
                let ray_direction = &ray_directions[x + y * width];
                assert(*ray_direction == camera@.ray_directions[x + y * width]);
                let color = self.trace_ray(ray_direction, world, &intersect, &shade);
                let pixel = convert_to_rgba(&color);
                proof {
                    if world.objects@.len() == 0 {
                        assert(world.objects@ =~= Seq::<O>::empty());
                        lemma_empty_world_is_black(*ray_direction, intersect, shade, color);
                        lemma_black_is_background();
                    }
                }
                self.image_data.push(pixel);
                x += 1;
            }
            assert(y * width + width == (y + 1) * width) by (nonlinear_arith);
            y += 1;
        }
        assert(y * width == width * height) by (nonlinear_arith)
            requires
                y == height,
        ;
        resized
    }

    /// Traces one ray against the scene and gives its colour.
    ///
    /// Every object is asked once, in order, whether the ray hits it. The
    /// nearest hit is shaded, the first of several equally near ones; a
    /// distance is not tested for its sign, so a hit behind the origin of the
    /// ray counts like any other. A ray that hits nothing is opaque black.
    pub fn trace_ray<D, O, I, S>(
        &self,
        direction: &D,
        world: &World<O>,
        intersect: &I,
        shade: &S,
    ) -> (color: Color) where I: Fn(&D, &O) -> Option<u32>, S: Fn(&D, &O, u32) -> Color
        requires
            can_trace(*direction, world.objects@, *intersect, *shade),
        ensures
            traced(*direction, world.objects@, *intersect, *shade, color),
    {
        if world.objects.is_empty() {
            assert(traced_by(
                *direction,
                world.objects@,
                *intersect,
                *shade,
                Seq::<Option<u32>>::empty(),
                Color::black(),
            ));
            return Color::opaque_black();
        }
        let ghost mut hits: Seq<Option<u32>> = Seq::empty();
        let mut nearest: Option<(usize, u32)> = None;
        let mut i: usize = 0;
        while i < world.objects.len()
            invariant
                i <= world.objects@.len(),
                hits.len() == i,
                can_trace(*direction, world.objects@, *intersect, *shade),
                forall|j: int|
                    0 <= j < i ==> call_ensures(
                        *intersect,
                        (direction, &world.objects@[j]),
                        #[trigger] hits[j],
                    ),
                match nearest {
                    Some((k, t)) => k < i && hits[k as int] == Some(t) && is_nearest(hits, k as int),
                    None => all_miss(hits),
                },
            decreases world.objects@.len() - i,
        {
            let hit = intersect(direction, &world.objects[i]);
            proof {
                hits = hits.push(hit);
            }
            match hit {
                Some(t) => {
                    match nearest {
                        Some((_, u)) => {
                            if is_nearer(t, u) {
                                nearest = Some((i, t));
                            }
                        },
                        None => {
                            nearest = Some((i, t));
                        },
                    }
                },
                None => {},
            }
            i += 1;
        }
        match nearest {
            Some((k, t)) => {
                let color = shade(direction, &world.objects[k], t);
                assert(hits[k as int] is Some);
                assert(traced_by(*direction, world.objects@, *intersect, *shade, hits, color));
                color
            },
            None => {
                assert(traced_by(
                    *direction,
                    world.objects@,
                    *intersect,
                    *shade,
                    hits,
                    Color::black(),
                ));
                Color::opaque_black()
            },
        }
    }

    /// The pixels of the last frame, row by row.
    pub fn get_texture_data(&self) -> (pixels: &[u32])
        ensures
            pixels@ == self@.pixels,
    {
        self.image_data.as_slice()
    }
}

/// In an empty scene every ray is opaque black.
pub proof fn lemma_empty_world_is_black<D, O, I, S>(
    direction: D,
    intersect: I,
    shade: S,
    color: Color,
) where I: Fn(&D, &O) -> Option<u32>, S: Fn(&D, &O, u32) -> Color
    requires
        traced(direction, Seq::<O>::empty(), intersect, shade, color),
    ensures
        color == Color::black(),
{
}

/// A ray that misses every object is opaque black: if `intersect` can only
/// answer `None` for the ray, whatever the object, black is the only colour
/// that tracing can give.
pub proof fn lemma_miss_is_black<D, O, I, S>(
    direction: D,
    objects: Seq<O>,
    intersect: I,
    shade: S,
    color: Color,
) where I: Fn(&D, &O) -> Option<u32>, S: Fn(&D, &O, u32) -> Color
    requires
        forall|i: int, hit: Option<u32>|
            0 <= i < objects.len() && #[trigger] call_ensures(
                intersect,
                (&direction, &objects[i]),
                hit,
            ) ==> hit is None,
        traced(direction, objects, intersect, shade, color),
    ensures
        color == Color::black(),
{
}

/// Whether `intersect` and `shade` each have one answer only for this ray
/// and every object.
pub open spec fn is_determined<D, O, I, S>(
    direction: D,
    objects: Seq<O>,
    intersect: I,
    shade: S,
) -> bool where I: Fn(&D, &O) -> Option<u32>, S: Fn(&D, &O, u32) -> Color {
    &&& forall|i: int, first: Option<u32>, second: Option<u32>|
        0 <= i < objects.len() && #[trigger] call_ensures(
            intersect,
            (&direction, &objects[i]),
            first,
        ) && #[trigger] call_ensures(intersect, (&direction, &objects[i]), second) ==> first
            == second
    &&& forall|i: int, t: u32, first: Color, second: Color|
        0 <= i < objects.len() && #[trigger] call_ensures(
            shade,
            (&direction, &objects[i], t),
            first,
        ) && #[trigger] call_ensures(shade, (&direction, &objects[i], t), second) ==> first
            == second
}

/// Nearest wins whatever the order of the scene: a ray traced against the
/// same objects in two orders has the same colour, provided that no two
/// objects tie for the nearest hit and that `intersect` and `shade` each
/// have one answer only.
///
/// `from` and `to` say which object of one order is which of the other.
/// Without the proviso on ties the colour may differ, since of two equally
/// near objects the earlier one is shaded.
pub proof fn lemma_trace_ignores_scene_order<D, O, I, S>(
    direction: D,
    objects: Seq<O>,
    reordered: Seq<O>,
    from: Seq<int>,
    to: Seq<int>,
    intersect: I,
    shade: S,
    hits: Seq<Option<u32>>,
    color: Color,
    reordered_color: Color,
) where I: Fn(&D, &O) -> Option<u32>, S: Fn(&D, &O, u32) -> Color
    requires
        is_reordering(objects, reordered, from, to),
        is_determined(direction, objects, intersect, shade),
        traced_by(direction, objects, intersect, shade, hits, color),
        forall|k: int| is_nearest(hits, k) ==> is_strictly_nearest(hits, k),
        traced(direction, reordered, intersect, shade, reordered_color),
    ensures
        reordered_color == color,
{
    let reordered_hits = choose|reordered_hits: Seq<Option<u32>>|
        traced_by(direction, reordered, intersect, shade, reordered_hits, reordered_color);
    assert forall|k: int| 0 <= k < reordered.len() implies reordered_hits[k] == hits[from[k]] by {
        assert(reordered[k] == objects[from[k]]);
        assert(call_ensures(intersect, (&direction, &objects[from[k]]), hits[from[k]]));
        assert(call_ensures(intersect, (&direction, &objects[from[k]]), reordered_hits[k]));
    }
    assert(is_reordering(hits, reordered_hits, from, to));
    if all_miss(hits) {
        assert forall|k: int| 0 <= k < reordered_hits.len() implies (
        #[trigger] reordered_hits[k]) is None by {
            assert(hits[from[k]] is None);
        }
    } else {
        let winner = choose|k: int|
            #[trigger] is_nearest(hits, k) && call_ensures(
                shade,
                (&direction, &objects[k], hits[k]->0),
                color,
            );
        lemma_same_object_wins(hits, reordered_hits, from, to, winner);
        let moved = to[winner];
        assert(from[moved] == winner);
        assert(reordered_hits[moved] == hits[winner]);
        assert(reordered_hits[moved] is Some);
        assert(!all_miss(reordered_hits));
        let reordered_winner = choose|k: int|
            #[trigger] is_nearest(reordered_hits, k) && call_ensures(
                shade,
                (&direction, &reordered[k], reordered_hits[k]->0),
                reordered_color,
            );
        lemma_nearest_is_unique(reordered_hits, reordered_winner, moved);
        assert(reordered[moved] == objects[winner]);
    }
}

} // verus!
