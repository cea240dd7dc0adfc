use raytracer::camera::Camera;
use raytracer::color::{encode, pow_unit_exec, Color};
use raytracer::fixed::{self, SCALE};
use raytracer::light::{Light, LightType};
use raytracer::material::Material;
use raytracer::options::Options;
use raytracer::ray::Ray;
use raytracer::scene::{RenderError, Scene};
use raytracer::shape::{Object, Plane, Sphere};
use raytracer::vector::Vec3;

fn options(max_rays: u8, shadows: bool, reflections: bool) -> Options {
    Options {
        max_rays,
        gamma: SCALE,
        diffuse: true,
        specular: true,
        shadows,
        reflections,
    }
}

fn front_camera() -> Camera {
    Camera::new(Vec3::new(0, 0, 0), Vec3::new(0, 0, -SCALE), SCALE, SCALE, 0, SCALE)
}

fn scene(objects: Vec<Object>, lights: Vec<Light>, opts: Options) -> Scene {
    Scene {
        width: 9,
        height: 9,
        camera: front_camera(),
        objects,
        lights,
        bg_color: Color::new(0, 0, SCALE),
        options: opts,
    }
}

fn matte(color: Color) -> Material {
    Material {
        color,
        diffuse: SCALE,
        specular: 0,
        specular_exponent: SCALE,
        reflectiveness: 0,
    }
}

fn mirror() -> Material {
    Material {
        color: Color::new(SCALE / 2, SCALE / 2, SCALE / 2),
        diffuse: SCALE,
        specular: 0,
        specular_exponent: SCALE,
        reflectiveness: SCALE,
    }
}

fn ambient(intensity: i64) -> Light {
    Light {
        light_type: LightType::Ambient,
        position: Vec3::zero(),
        intensity,
        color: Color::white(),
    }
}

#[test]
fn fixed_point_arithmetic() {
    assert_eq!(fixed::add(1_500_000, 2_250_000), 3_750_000);
    assert_eq!(fixed::sub(1_000_000, 2_500_000), -1_500_000);
    assert_eq!(fixed::mul(1_500_000, 2_000_000), 3_000_000);
    assert_eq!(fixed::mul(-1, 1), -1);
    assert_eq!(fixed::div(1_000_000, 4_000_000), 250_000);
    assert_eq!(fixed::div(1_000_000, -4_000_000), -250_000);
    assert_eq!(fixed::div(7, 0), 0);
    assert_eq!(fixed::sqrt(4_000_000), 2_000_000);
    assert_eq!(fixed::sqrt(2_000_000), 1_414_213);
    assert_eq!(fixed::sqrt(-5), 0);
    assert_eq!(fixed::add(i64::MAX, i64::MAX), fixed::LIMIT);
    assert_eq!(fixed::abs(-3), 3);
}

#[test]
fn vector_operations() {
    let a = Vec3::new(SCALE, 2 * SCALE, 3 * SCALE);
    let b = Vec3::new(4 * SCALE, 5 * SCALE, 6 * SCALE);
    assert_eq!(a.add(b), Vec3::new(5 * SCALE, 7 * SCALE, 9 * SCALE));
    assert_eq!(b.sub(a), Vec3::new(3 * SCALE, 3 * SCALE, 3 * SCALE));
    assert_eq!(a.dot(b), 32 * SCALE);
    assert_eq!(a.cross(b), Vec3::new(-3 * SCALE, 6 * SCALE, -3 * SCALE));
    assert_eq!(Vec3::new(3 * SCALE, 0, 4 * SCALE).length(), 5 * SCALE);
    assert_eq!(Vec3::new(3 * SCALE, 0, 4 * SCALE).normalize(), Vec3::new(600_000, 0, 800_000));
    assert_eq!(Vec3::zero().normalize(), Vec3::zero());
    assert_eq!(a.scale(SCALE / 2), Vec3::new(500_000, SCALE, 1_500_000));
}

#[test]
fn reflection_keeps_length_and_flips_normal_component() {
    let d = Vec3::new(600_000, -800_000, 0);
    let n = Vec3::new(0, SCALE, 0);
    let r = d.reflect(n);
    assert_eq!(r, Vec3::new(600_000, 800_000, 0));
    assert_eq!(r.dot(n), -d.dot(n));
    assert_eq!(r.length(), d.length());
}

#[test]
fn ray_point_at() {
    let r = Ray { origin: Vec3::new(SCALE, 0, 0), direction: Vec3::new(0, 0, -SCALE) };
    assert_eq!(r.point_at(2 * SCALE), Vec3::new(SCALE, 0, -2 * SCALE));
}

#[test]
fn color_operations() {
    assert_eq!(Color::from_u8(255, 0, 51), Color::new(SCALE, 0, 200_000));
    let c = Color::new(SCALE / 2, SCALE, 0).mul(Color::new(SCALE / 2, SCALE / 4, SCALE));
    assert_eq!(c, Color::new(250_000, 250_000, 0));
    assert_eq!(Color::white().scale(SCALE / 4), Color::new(250_000, 250_000, 250_000));
    assert_eq!(Color::white().add(Color::white()), Color::new(2 * SCALE, 2 * SCALE, 2 * SCALE));
    assert_eq!(Material::neutral().color, Color::black());
}

#[test]
fn gamma_extremes_for_every_gamma() {
    for g in [1, 100_000, 450_000, 850_000, SCALE, 2_200_000, 7 * SCALE] {
        assert_eq!(encode(SCALE, g), 255);
        assert_eq!(encode(3 * SCALE, g), 255);
        assert_eq!(encode(0, g), 0);
        assert_eq!(encode(-SCALE, g), 0);
    }
}

#[test]
fn gamma_curve_values() {
    assert_eq!(encode(SCALE / 2, SCALE), 128);
    assert_eq!(pow_unit_exec(SCALE / 2, 2 * SCALE), 250_000);
    let half_root = pow_unit_exec(250_000, SCALE / 2);
    assert!((half_root - 500_000).abs() <= 2);
    assert_eq!(pow_unit_exec(SCALE / 2, 0), SCALE);
    assert_eq!(Color::new(SCALE, 0, SCALE / 2).to_bytes(SCALE), (255, 0, 128));
}

#[test]
fn sphere_hit_at_front_face() {
    for r in [500_000, SCALE, 2 * SCALE, 2_800_000, 9 * SCALE] {
        let s = Sphere { position: Vec3::zero(), radius: r, material: matte(Color::white()) };
        let ray = Ray { origin: Vec3::new(0, 0, 10 * SCALE), direction: Vec3::new(0, 0, -SCALE) };
        assert_eq!(s.distance(&ray), Some(10 * SCALE - r));
        let hit = Object::Sphere(s).intersect(&ray).unwrap();
        assert_eq!(hit.distance, 10 * SCALE - r);
        assert_eq!(hit.normal, Vec3::new(0, 0, SCALE));
    }
}

#[test]
fn sphere_hit_off_the_grid_rounds_by_one_unit() {
    let s = Sphere { position: Vec3::zero(), radius: 2_500_001, material: matte(Color::white()) };
    let ray = Ray { origin: Vec3::new(0, 0, 10 * SCALE), direction: Vec3::new(0, 0, -SCALE) };
    assert_eq!(s.distance(&ray), Some(7_500_000));
}

#[test]
fn hits_closer_than_a_thousandth_are_kept() {
    let s = Sphere { position: Vec3::zero(), radius: SCALE, material: matte(Color::white()) };
    let ray = Ray { origin: Vec3::new(0, 0, 1_000_500), direction: Vec3::new(0, 0, -SCALE) };
    assert_eq!(s.distance(&ray), Some(500));
    let p = Plane {
        position: Vec3::zero(),
        normal: Vec3::new(0, 0, SCALE),
        material: matte(Color::white()),
    };
    let down = Ray { origin: Vec3::new(0, 0, 500), direction: Vec3::new(0, 0, -SCALE) };
    assert_eq!(p.distance(&down), Some(500));
    assert_eq!(Object::Plane(p).intersect(&down).unwrap().distance, 500);
}

#[test]
fn sphere_from_inside_and_behind() {
    let s = Sphere { position: Vec3::zero(), radius: 2 * SCALE, material: matte(Color::white()) };
    let inside = Ray { origin: Vec3::zero(), direction: Vec3::new(0, 0, -SCALE) };
    assert_eq!(s.distance(&inside), Some(2 * SCALE));
    let away = Ray { origin: Vec3::new(0, 0, 10 * SCALE), direction: Vec3::new(0, 0, SCALE) };
    assert_eq!(s.distance(&away), None);
}

#[test]
fn plane_intersection() {
    let p = Plane {
        position: Vec3::new(0, -SCALE, 0),
        normal: Vec3::new(0, SCALE, 0),
        material: matte(Color::white()),
    };
    let down = Ray { origin: Vec3::zero(), direction: Vec3::new(0, -SCALE, 0) };
    assert_eq!(p.distance(&down), Some(SCALE));
    let parallel = Ray { origin: Vec3::zero(), direction: Vec3::new(SCALE, 0, 0) };
    assert_eq!(p.distance(&parallel), None);
    let up = Ray { origin: Vec3::zero(), direction: Vec3::new(0, SCALE, 0) };
    assert_eq!(p.distance(&up), None);
}

#[test]
fn closest_hit_takes_nearest_object() {
    let far = Object::Sphere(Sphere {
        position: Vec3::new(0, 0, -20 * SCALE),
        radius: SCALE,
        material: matte(Color::white()),
    });
    let near = Object::Sphere(Sphere {
        position: Vec3::new(0, 0, -5 * SCALE),
        radius: SCALE,
        material: matte(Color::new(SCALE, 0, 0)),
    });
    let s = scene(vec![far, near], vec![], options(3, true, true));
    let ray = Ray { origin: Vec3::zero(), direction: Vec3::new(0, 0, -SCALE) };
    let h = s.closest_hit(&ray).unwrap();
    assert_eq!(h.distance, 4 * SCALE);
    assert_eq!(h.material.color, Color::new(SCALE, 0, 0));
}

#[test]
fn missed_ray_is_background() {
    let ball = Object::Sphere(Sphere {
        position: Vec3::new(0, 0, -5 * SCALE),
        radius: SCALE,
        material: matte(Color::new(SCALE, 0, 0)),
    });
    let s = scene(vec![ball], vec![ambient(SCALE)], options(3, true, true));
    let ray = Ray { origin: Vec3::zero(), direction: Vec3::new(0, SCALE, 0) };
    assert_eq!(s.trace(&ray, 0), Color::new(0, 0, SCALE));
    let empty = scene(vec![], vec![ambient(SCALE)], options(3, true, true));
    assert_eq!(empty.trace(&ray, 0), Color::new(0, 0, SCALE));
}

#[test]
fn occluded_point_light() {
    let blocker = Object::Sphere(Sphere {
        position: Vec3::new(0, 5 * SCALE, 0),
        radius: SCALE,
        material: matte(Color::white()),
    });
    let light = Light {
        light_type: LightType::Point,
        position: Vec3::new(0, 10 * SCALE, 0),
        intensity: SCALE,
        color: Color::white(),
    };
    let m = matte(Color::white());
    let p = Vec3::zero();
    let n = Vec3::new(0, SCALE, 0);
    let dir = Vec3::new(0, -SCALE, 0);
    let shadowed = scene(vec![blocker], vec![light], options(3, true, false));
    assert_eq!(shadowed.shade_light(p, n, dir, &m, &light), Color::black());
    let unshadowed = scene(vec![blocker], vec![light], options(3, false, false));
    assert_eq!(unshadowed.shade_light(p, n, dir, &m, &light), Color::white());
    let clear = scene(vec![], vec![light], options(3, true, false));
    assert_eq!(clear.shade_light(p, n, dir, &m, &light), Color::white());
}

#[test]
fn ambient_light_is_never_shadowed() {
    let blocker = Object::Sphere(Sphere {
        position: Vec3::new(0, 5 * SCALE, 0),
        radius: SCALE,
        material: matte(Color::white()),
    });
    let light = ambient(SCALE / 4);
    let s = scene(vec![blocker], vec![light], options(3, true, false));
    let m = matte(Color::new(SCALE, SCALE / 2, 0));
    let c = s.shade_light(Vec3::zero(), Vec3::new(0, SCALE, 0), Vec3::new(0, -SCALE, 0), &m, &light);
    assert_eq!(c, Color::new(250_000, 125_000, 0));
}

#[test]
fn mirror_without_reflections_shows_local_color() {
    let floor = Object::Plane(Plane {
        position: Vec3::new(0, -SCALE, 0),
        normal: Vec3::new(0, SCALE, 0),
        material: mirror(),
    });
    let ray = Ray { origin: Vec3::zero(), direction: Vec3::new(0, -SCALE, 0) };
    let off = scene(vec![floor], vec![ambient(SCALE)], options(3, true, false));
    assert_eq!(off.trace(&ray, 0), Color::new(SCALE / 2, SCALE / 2, SCALE / 2));
    let on = scene(vec![floor], vec![ambient(SCALE)], options(3, true, true));
    assert_eq!(on.trace(&ray, 0), Color::new(0, 0, SCALE));
}

#[test]
fn facing_mirrors_bound_the_recursion() {
    let back = Object::Plane(Plane {
        position: Vec3::new(0, 0, -SCALE),
        normal: Vec3::new(0, 0, SCALE),
        material: mirror(),
    });
    let front = Object::Plane(Plane {
        position: Vec3::new(0, 0, SCALE),
        normal: Vec3::new(0, 0, -SCALE),
        material: mirror(),
    });
    let ray = Ray { origin: Vec3::zero(), direction: Vec3::new(0, 0, -SCALE) };
    for max in [0u8, 1, 5, 40] {
        let s = scene(vec![back, front], vec![ambient(SCALE)], options(max, true, true));
        let (_, calls) = s.trace_counted(&ray, 0);
        assert_eq!(calls, max as u32 + 1);
    }
    let s = scene(vec![back, front], vec![ambient(SCALE)], options(5, true, true));
    assert_eq!(s.trace_counted(&ray, 9), (Color::new(0, 0, SCALE), 1));
}

#[test]
fn red_ball_under_ambient_light() {
    let ball = Object::Sphere(Sphere {
        position: Vec3::new(0, 0, -5 * SCALE),
        radius: SCALE,
        material: matte(Color::new(SCALE, 0, 0)),
    });
    let s = scene(vec![ball], vec![ambient(SCALE)], options(3, true, true));
    let px = s.render().unwrap();
    assert_eq!(px.len(), 81);
    assert_eq!(px[4 * 9 + 4], (255, 0, 0));
    for (i, p) in px.iter().enumerate() {
        assert!(*p == (255, 0, 0) || *p == (0, 0, 255), "pixel {} is {:?}", i, p);
    }
    assert_eq!(px[0], (0, 0, 255));
    assert_eq!(px[8], (0, 0, 255));
    assert_eq!(px[80], (0, 0, 255));
    let reds = px.iter().filter(|p| **p == (255, 0, 0)).count();
    assert!(reds >= 1 && reds < 81);
}

#[test]
fn empty_image_is_refused() {
    let mut s = scene(vec![], vec![], options(3, true, true));
    s.width = 0;
    assert_eq!(s.render(), Err(RenderError::EmptyImage));
    s.width = 4;
    s.height = 0;
    assert_eq!(s.render(), Err(RenderError::EmptyImage));
}

#[test]
fn camera_basis() {
    let c = front_camera();
    assert_eq!(c.w, Vec3::new(0, 0, SCALE));
    assert_eq!(c.u, Vec3::new(SCALE, 0, 0));
    assert_eq!(c.v, Vec3::new(0, SCALE, 0));
    let center = c.get_ray(SCALE / 2, SCALE / 2);
    assert_eq!(center.direction, Vec3::new(0, 0, -SCALE));
    let corner = c.get_ray(0, 0);
    assert!(corner.direction.x < 0 && corner.direction.y > 0);
}

#[test]
fn scene_builders() {
    let mut s = scene(vec![], vec![], options(3, true, true));
    s.create_sphere((0, 0, -SCALE), SCALE, (255, 0, 0), None, Some(0), None, Some(0));
    s.create_plane((0, -SCALE, 0), (0, SCALE, 0), (0, 255, 0), Some(SCALE), None, None, None);
    s.create_point_light((SCALE, SCALE, SCALE), SCALE / 2, (255, 255, 255));
    s.create_ambient_light(None, None);
    assert_eq!(s.objects.len(), 2);
    match s.objects[0] {
        Object::Sphere(sp) => {
            assert_eq!(sp.material.diffuse, 600_000);
            assert_eq!(sp.material.specular, 0);
            assert_eq!(sp.material.specular_exponent, 100 * SCALE);
            assert_eq!(sp.material.reflectiveness, 0);
            assert_eq!(sp.material.color, Color::new(SCALE, 0, 0));
        },
        _ => panic!("expected a sphere"),
    }
    match s.objects[1] {
        Object::Plane(pl) => {
            assert_eq!(pl.material.reflectiveness, SCALE);
            assert_eq!(pl.material.specular, 50 * SCALE);
        },
        _ => panic!("expected a plane"),
    }
    assert_eq!(s.lights.len(), 2);
    assert_eq!(s.lights[1].intensity, 250_000);
    assert_eq!(s.lights[1].color, Color::white());
    assert_eq!(s.lights[1].light_type, LightType::Ambient);
}

#[test]
fn example_scenes_load() {
    let mut s = scene(vec![], vec![], options(3, true, true));
    s.load_example();
    assert_eq!((s.objects.len(), s.lights.len()), (6, 4));
    let before = (s.objects.clone(), s.lights.clone());
    s.load_example();
    assert_eq!((s.objects.clone(), s.lights.clone()), before);
    match s.objects[5] {
        Object::Plane(p) => assert_eq!(p.normal, Vec3::new(0, -SCALE, 0)),
        _ => panic!("expected the floor plane last"),
    }
    let away = Ray { origin: Vec3::new(0, -3 * SCALE, 5 * SCALE), direction: Vec3::new(0, 0, SCALE) };
    assert_eq!(s.trace(&away, 0), s.bg_color);
    s.load_mirrors();
    assert!(!s.objects.is_empty());
    s.load_wallpaper1();
    assert!(!s.objects.is_empty());
    s.load_wallpaper2();
    assert_eq!((s.objects.len(), s.lights.len()), (5, 4));
    assert_eq!(s.width, 9);
}
