use raymarch::cube;
use raymarch::fixed::Fixed;
use raymarch::fixed::ONE;
use raymarch::fixed::RAW_MAX;
use raymarch::scene::bounce_light_from;
use raymarch::sphere;
use raymarch::BasicMaterial;
use raymarch::DirectionalLight;
use raymarch::Light;
use raymarch::LightSample;
use raymarch::Object;
use raymarch::PointLight;
use raymarch::Scene;
use raymarch::Shape;
use raymarch::Vec3;
use raymarch::MIN_SDF_DISTANCE;

type World = Scene<Shape<BasicMaterial>, Light>;

fn p(x: i64, y: i64, z: i64) -> Vec3 {
    Vec3::new(Fixed::from_int(x), Fixed::from_int(y), Fixed::from_int(z))
}

fn r(x: i64, y: i64, z: i64) -> Vec3 {
    Vec3::new(Fixed::from_raw(x), Fixed::from_raw(y), Fixed::from_raw(z))
}

fn paint(x: i64, y: i64, z: i64) -> BasicMaterial {
    BasicMaterial { base_color: r(x, y, z), emission: p(0, 0, 0) }
}

fn ball_at(centre: Vec3, mat: BasicMaterial) -> Shape<BasicMaterial> {
    Shape::from(Shape::from(sphere(mat)).translated(centre))
}

fn box_at(centre: Vec3, size: Vec3, mat: BasicMaterial) -> Shape<BasicMaterial> {
    Shape::from(Shape::from(cube(mat, size)).translated(centre))
}

fn steady_sun(direction: Vec3) -> Light {
    Light::from(DirectionalLight { direction, percent_size: Fixed::zero(), color: p(1, 1, 1) })
}

fn lone_sphere() -> World {
    let mut scene = Scene::new();
    scene.add_object(ball_at(p(0, 0, 10), paint(ONE, ONE / 2, ONE / 4)));
    scene
}

#[test]
fn a_new_scene_is_empty_under_a_blue_sky() {
    let scene: World = Scene::new();
    assert_eq!(scene.distance_field_at(p(1, 2, 3)).raw, RAW_MAX);
    assert_eq!(scene.do_camera_ray(p(0, 0, 0), p(0, 0, 1), 0), p(0, 0, 1));
}

#[test]
fn the_empty_scene_shows_the_sky_everywhere() {
    let mut scene: World = Scene::new();
    scene.set_sky_color(r(1, 2, 3));
    let directions = [p(0, 0, 1), p(0, 0, -1), p(1, 0, 0), p(0, 0, 0), r(5, -7, 11)];
    for d in directions {
        assert_eq!(scene.march_until_hit(p(1, 2, 3), d), None);
        assert_eq!(scene.do_camera_ray(p(1, 2, 3), d, 4), r(1, 2, 3));
    }
}

#[test]
fn in_the_empty_scene_everything_can_be_reached() {
    let scene: World = Scene::new();
    assert!(scene.march_can_reach(p(0, 0, 0), p(0, 0, 20)));
    assert!(scene.march_can_reach(p(0, 0, 0), p(0, 0, 0)));
    assert!(scene.march_can_reach(p(-7, 3, 2), p(100_000, -100_000, 5)));
    assert!(scene.march_can_reach(r(RAW_MAX, 0, 0), r(-RAW_MAX, 0, 0)));
}

#[test]
fn sphere_tracing_hits_the_lone_sphere_at_its_near_pole() {
    let scene = lone_sphere();
    let hit = scene.march_until_hit(p(0, 0, 0), p(0, 0, 1));
    assert_eq!(hit, Some(p(0, 0, 9)));
    let hit = hit.unwrap();
    assert!(hit.distance(p(0, 0, 9)).raw <= MIN_SDF_DISTANCE);
    assert!(scene.distance_field_at(hit).raw <= MIN_SDF_DISTANCE);
}

#[test]
fn sphere_tracing_hits_the_lone_sphere_off_its_axis() {
    let scene = lone_sphere();
    let direction = Vec3::new(Fixed::ratio(6, 100), Fixed::zero(), Fixed::one()).normalized();
    let hit = scene.march_until_hit(p(0, 0, 0), direction);
    assert_eq!(hit, Some(r(2_361_738_247, 0, 39_362_304_316)));
}

#[test]
fn a_ray_aimed_away_misses_and_sees_the_sky() {
    let mut scene = lone_sphere();
    scene.add_light(steady_sun(p(0, 0, 1)));
    assert_eq!(scene.march_until_hit(p(0, 0, 0), p(0, 0, -1)), None);
    assert_eq!(scene.do_camera_ray(p(0, 0, 0), p(0, 0, -1), 3), p(0, 0, 1));
    scene.set_sky_color(r(11, 22, 33));
    assert_eq!(scene.do_camera_ray(p(0, 0, 0), p(0, 0, -1), 3), r(11, 22, 33));
    assert_eq!(scene.do_camera_ray(p(0, 0, 0), p(1, 0, 0), 0), r(11, 22, 33));
}

#[test]
fn a_march_that_gets_nowhere_gives_up_as_a_miss() {
    let scene = lone_sphere();
    // without a direction the ray stays where it is, neither on a surface
    // nor out of the scene
    assert_eq!(scene.march_until_hit(p(0, 0, 0), p(0, 0, 0)), None);
}

#[test]
fn a_surface_in_between_blocks_the_view() {
    let scene = lone_sphere();
    assert!(!scene.march_can_reach(p(0, 0, 0), p(0, 0, 20)));
    assert!(!scene.march_can_reach(p(0, 0, 20), p(0, 0, 0)));
    assert!(!scene.march_can_reach(p(0, 0, 0), p(0, 0, 10)));
}

#[test]
fn a_target_in_front_of_the_surface_is_reached() {
    let scene = lone_sphere();
    assert!(scene.march_can_reach(p(0, 0, 0), p(0, 0, 5)));
    assert!(scene.march_can_reach(p(5, 0, 0), p(5, 0, 20)));
    assert!(scene.march_can_reach(p(0, 0, 0), p(0, 0, 0)));
}

#[test]
fn a_march_that_starts_on_a_surface_is_blocked() {
    let scene = lone_sphere();
    assert!(!scene.march_can_reach(p(0, 0, 9), p(0, 0, 0)));
    assert_eq!(scene.march_until_hit(p(0, 0, 9), p(0, 0, -1)), Some(p(0, 0, 9)));
}

#[test]
fn the_distance_field_is_the_smallest_distance() {
    let mut scene: World = Scene::new();
    scene.add_object(ball_at(p(0, 0, 10), paint(1, 1, 1)));
    assert_eq!(scene.distance_field_at(p(0, 0, 0)).raw, 9 * ONE);
    scene.add_object(box_at(p(0, 3, 0), p(1, 1, 1), paint(2, 2, 2)));
    assert_eq!(scene.distance_field_at(p(0, 0, 0)).raw, 2 * ONE);
    assert_eq!(scene.distance_field_at(p(0, 0, 8)).raw, ONE);
    scene.add_object(ball_at(p(0, 0, 0), paint(3, 3, 3)));
    assert_eq!(scene.distance_field_at(p(0, 0, 0)).raw, -ONE);
}

#[test]
fn the_normal_of_a_sphere_points_away_from_its_centre() {
    let scene = lone_sphere();
    assert_eq!(scene.normal_at(p(0, 0, 9)), r(209_999, 209_999, -4_294_967_285));
    assert_eq!(scene.normal_at(p(1, 0, 10)), r(4_294_967_285, 209_999, 209_999));
}

#[test]
fn the_first_object_at_a_point_gives_the_material() {
    let mut scene: World = Scene::new();
    scene.add_object(ball_at(p(0, 0, 10), paint(1, 1, 1)));
    scene.add_object(ball_at(p(0, 0, 10), paint(2, 2, 2)));
    scene.add_object(ball_at(p(0, 0, 8), paint(3, 3, 3)));
    assert_eq!(scene.material_on_surface(p(0, 0, 11)).base_color, r(1, 1, 1));
    // both the first and the third sphere pass through this point
    assert_eq!(scene.material_on_surface(p(0, 0, 9)).base_color, r(1, 1, 1));
    assert_eq!(scene.material_on_surface(p(0, 0, 7)).base_color, r(3, 3, 3));
    let mut swapped: World = Scene::new();
    swapped.add_object(ball_at(p(0, 0, 8), paint(3, 3, 3)));
    swapped.add_object(ball_at(p(0, 0, 10), paint(1, 1, 1)));
    assert_eq!(swapped.material_on_surface(p(0, 0, 9)).base_color, r(3, 3, 3));
}

#[test]
fn a_light_in_front_lights_the_surface_fully() {
    let mut scene = lone_sphere();
    scene.add_light(steady_sun(p(0, 0, 1)));
    let seen = scene.do_camera_ray(p(0, 0, 0), p(0, 0, 1), 0);
    assert_eq!(seen, r(4_294_967_285, 2_147_483_642, 1_073_741_821));
    assert_eq!(
        scene.color_on_surface(p(0, 0, 9), 0),
        r(4_294_967_285, 2_147_483_642, 1_073_741_821)
    );
}

#[test]
fn a_light_behind_the_surface_adds_nothing() {
    let mut scene = lone_sphere();
    scene.add_light(steady_sun(p(0, 0, -1)));
    assert_eq!(scene.do_camera_ray(p(0, 0, 0), p(0, 0, 1), 0), p(0, 0, 0));
}

#[test]
fn a_light_from_the_side_is_dimmed_by_the_angle() {
    let mut scene = lone_sphere();
    scene.add_light(steady_sun(p(-1, 0, 0)));
    let direction = Vec3::new(Fixed::ratio(6, 100), Fixed::zero(), Fixed::one()).normalized();
    let seen = scene.do_camera_ray(p(0, 0, 0), direction, 0);
    assert_eq!(seen, r(2_361_853_120, 1_180_926_560, 590_463_280));
}

#[test]
fn an_object_in_the_way_casts_a_shadow() {
    let mut scene = lone_sphere();
    scene.add_object(box_at(p(5, 0, 9), p(1, 3, 3), paint(ONE, ONE, ONE)));
    scene.add_light(steady_sun(p(-1, 0, 0)));
    let direction = Vec3::new(Fixed::ratio(6, 100), Fixed::zero(), Fixed::one()).normalized();
    assert_eq!(scene.do_camera_ray(p(0, 0, 0), direction, 0), p(0, 0, 0));
}

#[test]
fn lights_add_up() {
    let mut scene = lone_sphere();
    scene.add_light(steady_sun(p(0, 0, 1)));
    scene.add_light(steady_sun(p(0, 0, -1)));
    scene.add_light(steady_sun(p(0, 0, 1)));
    assert_eq!(
        scene.do_camera_ray(p(0, 0, 0), p(0, 0, 1), 0),
        r(8_589_934_570, 4_294_967_284, 2_147_483_642)
    );
}

#[test]
fn one_sample_of_a_light_for_given_numbers() {
    let scene = lone_sphere();
    let origin = r(4, 4, 38_654_619_764);
    let normal = r(209_999, 209_999, -4_294_967_296);
    let surface = r(ONE, ONE / 2, ONE / 4);
    let front = LightSample { shadow_ray_target: r(4, 4, -429_458_074_980_236), color: p(1, 1, 1) };
    assert_eq!(scene.direct_light_from(origin, normal, surface, front), surface);
    let side = LightSample {
        shadow_ray_target: origin + p(100_000, 0, 0),
        color: p(1, 1, 1),
    };
    assert_eq!(
        scene.direct_light_from(origin, normal, surface, side),
        r(209_999, 104_999, 52_499)
    );
    let behind = LightSample { shadow_ray_target: origin + p(0, 0, 100_000), color: p(1, 1, 1) };
    assert_eq!(scene.direct_light_from(origin, normal, surface, behind), p(0, 0, 0));
}

#[test]
fn bounced_light_is_filtered_and_dimmed() {
    let normal = p(0, 0, -1);
    let surface = r(ONE, ONE / 2, ONE / 4);
    let incoming = p(2, 2, 2);
    let straight = bounce_light_from(normal, surface, p(0, 0, -1), incoming);
    assert_eq!(straight, r(2 * ONE, ONE, ONE / 2));
    let slanted = Vec3::new(Fixed::ratio(3, 5), Fixed::zero(), Fixed::ratio(-4, 5));
    let dimmed = bounce_light_from(normal, surface, slanted, incoming);
    assert_eq!(dimmed, surface * incoming * Fixed::ratio(4, 5));
    let away = bounce_light_from(normal, surface, p(0, 0, 1), incoming);
    assert_eq!(away, r(-2 * ONE, -ONE, -ONE / 2));
}

#[test]
fn bounces_bring_in_the_light_of_the_sky() {
    let mut scene = lone_sphere();
    scene.set_sky_color(p(1, 1, 1));
    // without lights and without bounces the sphere is black
    assert_eq!(scene.do_camera_ray(p(0, 0, 0), p(0, 0, 1), 0), p(0, 0, 0));
    // with bounces it picks up the sky, never more than its own colour
    // lets through
    let mut lit = false;
    for _ in 0..50 {
        let seen = scene.do_camera_ray(p(0, 0, 0), p(0, 0, 1), 3);
        assert!(seen.x.raw >= 0 && seen.x.raw <= ONE);
        assert!(seen.y.raw >= 0 && seen.y.raw <= ONE / 2);
        assert!(seen.z.raw >= 0 && seen.z.raw <= ONE / 4);
        if seen.x.raw > 0 {
            lit = true;
        }
    }
    assert!(lit);
}

#[test]
fn a_soft_light_gives_shades_between_dark_and_fully_lit() {
    let mut scene = lone_sphere();
    scene.add_light(Light::from(PointLight {
        origin: p(0, 0, 0),
        radius: Fixed::ratio(1, 2),
        color: p(1, 1, 1),
    }));
    for _ in 0..50 {
        let seen = scene.do_camera_ray(p(0, 0, 0), p(0, 0, 1), 0);
        assert!(seen.x.raw > 0);
        // nine away from the lamp, the light has fallen off to a little
        // above a tenth
        assert!(seen.x.raw <= ONE / 9);
        assert!(seen.x.raw >= ONE / 11);
    }
}
