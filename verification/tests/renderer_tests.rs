use raymarch::fixed::Fixed;
use raymarch::fixed::ONE;
use raymarch::renderer::jitter_for;
use raymarch::sphere;
use raymarch::AcesFilmicCurve;
use raymarch::AdjustExposure;
use raymarch::BasicMaterial;
use raymarch::DirectionalLight;
use raymarch::Light;
use raymarch::Object;
use raymarch::PostProcessor;
use raymarch::Renderer;
use raymarch::Scene;
use raymarch::Shape;
use raymarch::Vec3;

type Stage = Scene<Shape<BasicMaterial>, Light>;

fn w(x: i64, y: i64, z: i64) -> Vec3 {
    Vec3::new(Fixed::from_int(x), Fixed::from_int(y), Fixed::from_int(z))
}

fn q(x: i64, y: i64, z: i64) -> Vec3 {
    Vec3::new(Fixed::from_raw(x), Fixed::from_raw(y), Fixed::from_raw(z))
}

fn settings<P: PostProcessor>(size: u32, samples: u32, bounces: u32, post: P) -> Renderer<P> {
    Renderer {
        size,
        samples,
        num_bounces: bounces,
        camera_size: Fixed::ratio(3, 10),
        pixel_size: Fixed::ratio(4, 10),
        post_process: post,
    }
}

fn sphere_stage(centre: Vec3) -> Stage {
    let mut scene = Scene::new();
    let mat = BasicMaterial { base_color: q(ONE, ONE / 2, ONE / 4), emission: w(0, 0, 0) };
    scene.add_object(Shape::from(Shape::from(sphere(mat)).translated(centre)));
    scene
}

fn front_light() -> Light {
    Light::from(DirectionalLight {
        direction: w(0, 0, 1),
        percent_size: Fixed::zero(),
        color: w(1, 1, 1),
    })
}

fn pixel(buf: &[u8], size: u32, x: u32, y: u32) -> (u8, u8, u8) {
    let i = 3 * (y * size + x) as usize;
    (buf[i], buf[i + 1], buf[i + 2])
}

#[test]
fn the_ray_through_the_middle_looks_straight_ahead() {
    let r = settings(200, 1, 0, ());
    assert_eq!(r.camera_ray(100, 100, Fixed::zero(), Fixed::zero()), w(0, 0, 1));
}

#[test]
fn rays_through_other_pixels() {
    let r = settings(200, 1, 0, ());
    assert_eq!(
        r.camera_ray(0, 0, Fixed::zero(), Fixed::zero()),
        q(-1_186_151_362, -1_186_151_362, 3_953_837_878)
    );
    assert_eq!(
        r.camera_ray(199, 0, Fixed::zero(), Fixed::zero()),
        q(1_175_182_030, -1_187_052_556, 3_956_841_859)
    );
}

#[test]
fn jitter_moves_the_ray() {
    let r = settings(200, 1, 0, ());
    assert_eq!(
        r.camera_ray(100, 100, Fixed::ratio(1, 2), Fixed::ratio(-1, 4)),
        q(6_442_440, -3_221_220, 4_294_961_257)
    );
}

#[test]
fn a_picture_without_pixels_still_gives_every_ray_a_direction() {
    let r = settings(0, 1, 0, ());
    assert_eq!(
        r.camera_ray(3, 4, Fixed::zero(), Fixed::zero()),
        q(3_037_000_499, 3_037_000_499, 4)
    );
}

#[test]
fn jitter_deviation_is_half_the_pixel_size() {
    let r = settings(200, 1, 0, ());
    assert_eq!(r.jitter_deviation(), Fixed::ratio(4, 10) / Fixed::from_int(2));
    assert_eq!(r.jitter_deviation().raw, 858_993_459);
}

#[test]
fn the_jitter_table_is_read_round_and_round() {
    let table = vec![
        (Fixed::from_raw(1), Fixed::from_raw(2)),
        (Fixed::from_raw(3), Fixed::from_raw(4)),
        (Fixed::from_raw(5), Fixed::from_raw(6)),
    ];
    assert_eq!(jitter_for(&table, 0), (Fixed::from_raw(1), Fixed::from_raw(2)));
    assert_eq!(jitter_for(&table, 2), (Fixed::from_raw(5), Fixed::from_raw(6)));
    assert_eq!(jitter_for(&table, 3), (Fixed::from_raw(1), Fixed::from_raw(2)));
    assert_eq!(jitter_for(&table, 301), (Fixed::from_raw(3), Fixed::from_raw(4)));
    assert_eq!(jitter_for(&table, u128::MAX), (Fixed::from_raw(1), Fixed::from_raw(2)));
}

#[test]
fn an_empty_jitter_table_means_no_jitter() {
    let table: Vec<(Fixed, Fixed)> = Vec::new();
    assert_eq!(jitter_for(&table, 7), (Fixed::zero(), Fixed::zero()));
}

#[test]
fn resolve_averages_and_encodes() {
    let total = Vec3::new(Fixed::from_int(3), Fixed::from_int(6), Fixed::ratio(3, 2));
    assert_eq!(settings(8, 4, 0, ()).resolve(total), (191, 255, 95));
    assert_eq!(settings(8, 4, 0, AcesFilmicCurve).resolve(total), (147, 187, 95));
    let chain = (AdjustExposure(Fixed::ratio(8, 10)), AcesFilmicCurve);
    assert_eq!(settings(8, 4, 0, chain).resolve(total), (126, 172, 75));
}

#[test]
fn resolve_clamps_each_channel() {
    let total = Vec3::new(Fixed::from_int(-3), Fixed::from_int(1), Fixed::from_int(100));
    assert_eq!(settings(8, 1, 0, ()).resolve(total), (0, 255, 255));
}

#[test]
fn resolve_without_samples_gives_black_or_the_extremes() {
    assert_eq!(settings(8, 0, 0, ()).resolve(w(0, 0, 0)), (0, 0, 0));
    assert_eq!(settings(8, 0, 0, ()).resolve(w(1, -1, 0)), (255, 0, 0));
}

#[test]
fn a_sample_of_the_empty_scene_is_the_sky() {
    let mut scene: Stage = Scene::new();
    scene.set_sky_color(q(7, 8, 9));
    let r = settings(16, 1, 3, ());
    assert_eq!(r.sample(&scene, 3, 5, Fixed::ratio(1, 3), Fixed::ratio(-1, 3)), q(7, 8, 9));
}

#[test]
fn rendering_the_empty_scene_gives_the_sky_in_every_pixel() {
    let scene: Stage = Scene::new();
    let r = settings(4, 2, 1, ());
    let buf = r.render(&scene, &Vec::new());
    assert_eq!(buf.len(), 48);
    for i in 0..16 {
        assert_eq!((buf[3 * i], buf[3 * i + 1], buf[3 * i + 2]), (0, 0, 255));
    }
}

#[test]
fn rendering_applies_the_post_processing() {
    let mut scene: Stage = Scene::new();
    scene.set_sky_color(Vec3::new(Fixed::one(), Fixed::ratio(1, 2), Fixed::zero()));
    let plain = settings(3, 1, 0, ()).render(&scene, &Vec::new());
    assert_eq!(plain.len(), 27);
    assert_eq!(pixel(&plain, 3, 2, 1), (255, 127, 0));
    let dimmed = settings(3, 1, 0, AdjustExposure(Fixed::ratio(1, 2))).render(&scene, &Vec::new());
    assert_eq!(pixel(&dimmed, 3, 2, 1), (127, 63, 0));
}

#[test]
fn rendering_nothing() {
    let scene = sphere_stage(w(0, 0, 10));
    assert_eq!(settings(0, 5, 2, ()).render(&scene, &Vec::new()).len(), 0);
}

#[test]
fn rendering_without_samples_gives_black() {
    let scene: Stage = Scene::new();
    let buf = settings(2, 0, 0, ()).render(&scene, &Vec::new());
    assert_eq!(buf, vec![0u8; 12]);
}

#[test]
fn a_lit_sphere_in_the_middle_of_the_picture() {
    let mut scene = sphere_stage(w(0, 0, 10));
    scene.add_light(front_light());
    let size = 8;
    let buf = settings(size, 1, 0, ()).render(&scene, &Vec::new());
    assert_eq!(buf.len(), 192);
    // the ray through pixel (4, 4) hits the near pole, which faces the light
    assert_eq!(pixel(&buf, size, 4, 4), (254, 127, 63));
    // the corners see the sky
    assert_eq!(pixel(&buf, size, 0, 0), (0, 0, 255));
    assert_eq!(pixel(&buf, size, 7, 0), (0, 0, 255));
    assert_eq!(pixel(&buf, size, 0, 7), (0, 0, 255));
    assert_eq!(pixel(&buf, size, 7, 7), (0, 0, 255));
    // the sphere is one pixel wide on each side of the middle
    assert_ne!(pixel(&buf, size, 5, 4), (0, 0, 255));
    assert_ne!(pixel(&buf, size, 3, 4), (0, 0, 255));
    assert_eq!(pixel(&buf, size, 6, 4), (0, 0, 255));
    assert_eq!(pixel(&buf, size, 2, 4), (0, 0, 255));
}

#[test]
fn the_buffer_holds_row_after_row() {
    // a sphere to the right of the axis shows in the pixel right of the
    // middle, not in the pixel below the middle
    let mut scene = sphere_stage(w(1, 0, 10));
    scene.add_light(front_light());
    let size = 8;
    let buf = settings(size, 1, 0, ()).render(&scene, &Vec::new());
    assert_ne!(pixel(&buf, size, 5, 4), (0, 0, 255));
    assert_eq!(pixel(&buf, size, 4, 6), (0, 0, 255));
    assert_eq!(pixel(&buf, size, 3, 4), (0, 0, 255));
    let i = 3 * (4 * 8 + 5);
    assert_ne!((buf[i], buf[i + 1], buf[i + 2]), (0, 0, 255));
}

#[test]
fn jitter_shifts_what_a_pixel_sees() {
    let mut scene = sphere_stage(w(0, 0, 10));
    scene.add_light(front_light());
    let r = settings(8, 1, 0, ());
    // pixel (6, 4) looks past the sphere, but moved a pixel and a half to the
    // left it looks at it
    let still = vec![(Fixed::zero(), Fixed::zero())];
    let moved = vec![(Fixed::ratio(-3, 2), Fixed::zero())];
    assert_eq!(r.render_pixel(&scene, 6, 4, &still), (0, 0, 255));
    assert_ne!(r.render_pixel(&scene, 6, 4, &moved), (0, 0, 255));
}

#[test]
fn more_samples_give_a_steadier_pixel() {
    let mut scene = sphere_stage(w(0, 0, 10));
    scene.set_sky_color(w(1, 1, 1));
    let variance = |samples: u32| -> f64 {
        let r = settings(8, samples, 1, ());
        let trials = 80;
        let mut values = Vec::new();
        for _ in 0..trials {
            let (red, _, _) = r.render_pixel(&scene, 4, 4, &Vec::new());
            values.push(red as f64);
        }
        let mean = values.iter().sum::<f64>() / trials as f64;
        values.iter().map(|v| (v - mean) * (v - mean)).sum::<f64>() / trials as f64
    };
    let rough = variance(1);
    let smooth = variance(32);
    assert!(rough > 0.0);
    assert!(smooth < rough / 2.0);
}
