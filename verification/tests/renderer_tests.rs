use glam::{Vec2, Vec3};
use raytracer::camera::Camera;
use raytracer::color::{Color, BACKGROUND};
use raytracer::renderer::Renderer;
use raytracer::world::World;

#[derive(Debug, Clone, Copy, PartialEq)]
struct Sphere {
    position: Vec3,
    radius: f32,
    albedo: Vec3,
}

fn sphere(position: Vec3, radius: f32, albedo: Vec3) -> Sphere {
    Sphere { position, radius, albedo }
}

/// The near root of the ray-sphere quadratic, as a bit pattern.
fn intersect(ray_origin: Vec3, direction: &Vec3, sphere: &Sphere) -> Option<u32> {
    let origin = ray_origin - sphere.position;
    let a = direction.dot(*direction);
    if a == 0.0 {
        return None;
    }
    let b = 2.0 * origin.dot(*direction);
    let c = origin.dot(origin) - sphere.radius * sphere.radius;
    let discriminant = b * b - 4.0 * a * c;
    if discriminant < 0.0 {
        return None;
    }
    Some(((-b - discriminant.sqrt()) / (2.0 * a)).to_bits())
}

/// Lambertian shading under the fixed light.
fn shade(ray_origin: Vec3, direction: &Vec3, sphere: &Sphere, distance: u32) -> Color {
    let light_direction = Vec3::new(-1.0, -1.0, -1.0);
    let origin = ray_origin - sphere.position;
    let h0 = origin + f32::from_bits(distance) * *direction;
    let normal = h0.normalize();
    let light_intensity = normal.dot(-light_direction).max(0.0) / light_direction.length();
    let color = sphere.albedo * light_intensity;
    Color {
        r: (color.x * 255.0) as u32,
        g: (color.y * 255.0) as u32,
        b: (color.z * 255.0) as u32,
        a: (1.0 * 255.0) as u32,
    }
}

fn trace(ray_origin: Vec3, direction: Vec3, world: &World<Sphere>) -> Color {
    Renderer::new().trace_ray(
        &direction,
        world,
        &|direction: &Vec3, sphere: &Sphere| intersect(ray_origin, direction, sphere),
        &|direction: &Vec3, sphere: &Sphere, distance: u32| {
            shade(ray_origin, direction, sphere, distance)
        },
    )
}

fn pack(color: Color) -> u32 {
    raytracer::color::convert_to_rgba(&color)
}

fn camera_with(height: u32, width: u32, direction: Vec3) -> Camera<Vec2, Vec3> {
    let mut camera = Camera::new(Vec2::ZERO);
    camera.resize(height, width);
    camera.recalculate_raydirections(|_, _| direction);
    camera
}

const EYE: Vec3 = Vec3::new(0.0, 0.0, 3.0);
const AHEAD: Vec3 = Vec3::new(0.0, 0.0, -1.0);

#[test]
fn new_renderer_has_no_pixels() {
    assert!(Renderer::new().get_texture_data().is_empty());
}

#[test]
fn world_keeps_objects_in_order() {
    let world = World { objects: vec![3, 1, 2] };
    assert_eq!(world.objects, [3, 1, 2]);
    assert_eq!(world.clone().objects, world.objects);
}

#[test]
fn empty_world_renders_background() {
    let world: World<Sphere> = World { objects: vec![] };
    for (height, width) in [(1usize, 1usize), (2, 3), (9, 16), (60, 90)] {
        let camera = camera_with(height as u32, width as u32, AHEAD);
        let mut renderer = Renderer::new();
        renderer.render(
            width,
            height,
            &camera,
            &world,
            |_: &Vec3, _: &Sphere| panic!("nothing to intersect"),
            |_: &Vec3, _: &Sphere, _: u32| panic!("nothing to shade"),
        );
        assert_eq!(renderer.get_texture_data().len(), width * height);
        assert!(renderer.get_texture_data().iter().all(|pixel| *pixel == 0xFF00_0000));
        assert!(renderer.get_texture_data().iter().all(|pixel| *pixel == BACKGROUND));
    }
}

#[test]
fn empty_world_traces_opaque_black() {
    let world: World<Sphere> = World { objects: vec![] };
    assert_eq!(trace(EYE, AHEAD, &world), Color { r: 0, g: 0, b: 0, a: 255 });
}

#[test]
fn single_sphere_is_hit_through_its_centre() {
    for radius in [0.1, 0.5, 1.0, 2.5] {
        let world =
            World { objects: vec![sphere(Vec3::ZERO, radius, Vec3::new(1.0, 0.0, 1.0))] };
        let color = trace(EYE, AHEAD, &world);
        assert_ne!(pack(color), BACKGROUND);
        // The normal at the hit faces the eye, a third of the light reaches it.
        assert_eq!(color, Color { r: 147, g: 0, b: 147, a: 255 });
        assert_eq!(pack(color), 0xFF93_0093);
    }
}

#[test]
fn ray_that_misses_is_opaque_black() {
    let world = World {
        objects: vec![
            sphere(Vec3::ZERO, 0.5, Vec3::new(1.0, 0.0, 1.0)),
            sphere(Vec3::new(-0.2, -0.3, -3.0), 2.0, Vec3::new(1.0, 0.53, 0.0)),
        ],
    };
    let color = trace(EYE, Vec3::new(0.0, 1.0, 0.0), &world);
    assert_eq!(color, Color { r: 0, g: 0, b: 0, a: 255 });
    assert_eq!(pack(color), 0xFF00_0000);
}

#[test]
fn ray_without_direction_hits_nothing() {
    let world = World { objects: vec![sphere(Vec3::ZERO, 0.5, Vec3::ONE)] };
    assert_eq!(pack(trace(EYE, Vec3::ZERO, &world)), BACKGROUND);
}

#[test]
fn nearest_sphere_wins_in_either_order() {
    let near = sphere(Vec3::new(0.0, 0.0, 1.0), 0.5, Vec3::new(1.0, 0.0, 0.0));
    let far = sphere(Vec3::new(0.0, 0.0, 0.6), 0.5, Vec3::new(0.0, 1.0, 0.0));
    let one_way = trace(EYE, AHEAD, &World { objects: vec![near, far] });
    let other_way = trace(EYE, AHEAD, &World { objects: vec![far, near] });
    assert_eq!(one_way, other_way);
    // The near sphere is the red one.
    assert_eq!(one_way, Color { r: 147, g: 0, b: 0, a: 255 });
    assert_eq!(one_way, shade(EYE, &AHEAD, &near, 1.5f32.to_bits()));
}

#[test]
fn first_of_equally_near_spheres_wins() {
    let red = sphere(Vec3::ZERO, 0.5, Vec3::new(1.0, 0.0, 0.0));
    let green = sphere(Vec3::ZERO, 0.5, Vec3::new(0.0, 1.0, 0.0));
    let red_first = trace(EYE, AHEAD, &World { objects: vec![red, green] });
    let green_first = trace(EYE, AHEAD, &World { objects: vec![green, red] });
    assert_eq!(red_first, Color { r: 147, g: 0, b: 0, a: 255 });
    assert_eq!(green_first, Color { r: 0, g: 147, b: 0, a: 255 });
}

#[test]
fn hit_behind_the_origin_still_counts() {
    // Looking away from the only sphere: the near root is negative.
    let behind = sphere(Vec3::ZERO, 0.5, Vec3::new(1.0, 1.0, 1.0));
    let away = Vec3::new(0.0, 0.0, 1.0);
    assert_eq!(intersect(EYE, &away, &behind), Some((-3.5f32).to_bits()));
    let color = trace(EYE, away, &World { objects: vec![behind] });
    assert_eq!(color, shade(EYE, &away, &behind, (-3.5f32).to_bits()));

    // A sphere ahead is farther than one behind.
    let ahead = sphere(Vec3::new(0.0, 0.0, 6.0), 0.5, Vec3::new(1.0, 0.0, 0.0));
    let color = trace(EYE, away, &World { objects: vec![ahead, behind] });
    assert_eq!(color, shade(EYE, &away, &behind, (-3.5f32).to_bits()));
}

#[test]
fn every_object_is_asked_once_and_the_winner_shaded_once() {
    let asked = std::cell::RefCell::new(Vec::new());
    let shaded = std::cell::RefCell::new(Vec::new());
    let world = World { objects: vec![4.0f32, 2.0, 8.0, 2.0] };
    let color = Renderer::new().trace_ray(
        &(),
        &world,
        &|_: &(), object: &f32| {
            asked.borrow_mut().push(*object);
            Some(object.to_bits())
        },
        &|_: &(), object: &f32, distance: u32| {
            shaded.borrow_mut().push((*object, f32::from_bits(distance)));
            Color { r: 1, g: 2, b: 3, a: 4 }
        },
    );
    assert_eq!(color, Color { r: 1, g: 2, b: 3, a: 4 });
    assert_eq!(*asked.borrow(), [4.0, 2.0, 8.0, 2.0]);
    assert_eq!(*shaded.borrow(), [(2.0, 2.0)]);
}

#[test]
fn render_fills_buffer_row_major() {
    let mut camera: Camera<Vec2, (u32, u32)> = Camera::new(Vec2::ZERO);
    camera.resize(2, 3);
    camera.recalculate_raydirections(|x, y| (x, y));
    let world = World { objects: vec![()] };
    let mut renderer = Renderer::new();
    renderer.render(
        3,
        2,
        &camera,
        &world,
        |_: &(u32, u32), _: &()| Some(0),
        |pixel: &(u32, u32), _: &(), _: u32| Color { r: pixel.0, g: pixel.1, b: 0, a: 255 },
    );
    assert_eq!(
        renderer.get_texture_data(),
        [0xFF00_0000, 0xFF00_0001, 0xFF00_0002, 0xFF00_0100, 0xFF00_0101, 0xFF00_0102]
    );
}

#[test]
fn render_reports_a_change_of_size() {
    let camera = camera_with(4, 4, AHEAD);
    let world: World<Sphere> = World { objects: vec![] };
    let miss = |_: &Vec3, _: &Sphere| None;
    let black = |_: &Vec3, _: &Sphere, _: u32| Color::opaque_black();
    let mut renderer = Renderer::new();
    assert!(!renderer.render(0, 0, &camera, &world, miss, black));
    assert!(renderer.render(4, 4, &camera, &world, miss, black));
    assert!(!renderer.render(4, 4, &camera, &world, miss, black));
    assert!(renderer.render(2, 4, &camera, &world, miss, black));
    assert!(renderer.render(4, 2, &camera, &world, miss, black));
    assert!(!renderer.render(4, 2, &camera, &world, miss, black));
}

#[test]
fn render_rebuilds_the_buffer_in_full() {
    let camera = camera_with(4, 4, AHEAD);
    let world = World { objects: vec![sphere(Vec3::ZERO, 0.5, Vec3::new(1.0, 0.0, 1.0))] };
    let hit = |direction: &Vec3, sphere: &Sphere| intersect(EYE, direction, sphere);
    let lit = |direction: &Vec3, sphere: &Sphere, distance: u32| {
        shade(EYE, direction, sphere, distance)
    };
    let mut renderer = Renderer::new();
    renderer.render(4, 4, &camera, &world, hit, lit);
    assert_eq!(renderer.get_texture_data(), [0xFF93_0093; 16]);

    let empty: World<Sphere> = World { objects: vec![] };
    renderer.render(3, 2, &camera, &empty, hit, lit);
    assert_eq!(renderer.get_texture_data(), [BACKGROUND; 6]);

    renderer.render(0, 7, &camera, &world, hit, lit);
    assert!(renderer.get_texture_data().is_empty());
}

#[test]
fn render_traces_each_pixel_along_its_own_ray() {
    // Two pixels side by side: the left ray hits the sphere, the right one misses it.
    let mut camera: Camera<Vec2, Vec3> = Camera::new(Vec2::ZERO);
    camera.resize(1, 2);
    camera.recalculate_raydirections(|x, _| if x == 0 { AHEAD } else { Vec3::X });
    let world = World { objects: vec![sphere(Vec3::ZERO, 0.5, Vec3::new(1.0, 0.0, 1.0))] };
    let mut renderer = Renderer::new();
    renderer.render(
        2,
        1,
        &camera,
        &world,
        |direction: &Vec3, sphere: &Sphere| intersect(EYE, direction, sphere),
        |direction: &Vec3, sphere: &Sphere, distance: u32| shade(EYE, direction, sphere, distance),
    );
    assert_eq!(renderer.get_texture_data(), [0xFF93_0093, BACKGROUND]);
}
