//! The example scenes.
use crate::color::{rgb, Color};
use crate::fixed::SCALE;
use crate::light::{valid_light, Light, LightType};
use crate::material::Material;
use crate::shape::{valid_object, Object, Plane, Sphere};
use crate::vector::{lemma_axis_length, mk, Vec3};
use vstd::prelude::*;

use super::make::byte_color;
use super::Scene;

verus! {

/// Light `k` is the one ambient light: every other light is a point light.
pub open spec fn ambient_at(lights: Seq<Light>, k: int) -> bool {
    &&& 0 <= k < lights.len()
    &&& lights[k].light_type == LightType::Ambient
    &&& forall|j: int| 0 <= j < lights.len() && j != k ==> #[trigger] lights[j].light_type == LightType::Point
}

/// Valid objects and lights, exactly one of them ambient.
pub open spec fn valid_contents(objs: Seq<Object>, lights: Seq<Light>) -> bool {
    &&& forall|i: int| 0 <= i < objs.len() ==> valid_object(#[trigger] objs[i])
    &&& forall|i: int| 0 <= i < lights.len() ==> valid_light(#[trigger] lights[i])
    &&& exists|k: int| ambient_at(lights, k)
}

/// The objects that `load_example` places.
pub open spec fn example_objects() -> Seq<Object> {
    seq![
        Object::Sphere(Sphere {
            position: mk(-3_000_000, -5_000_000, -16_000_000),
            radius: 2_800_000,
            material: Material {
                color: byte_color((0xff, 0x55, 0x55)),
                diffuse: 600_000,
                specular: 50_000_000,
                specular_exponent: 100_000_000,
                reflectiveness: 0,
            },
        }),
        Object::Sphere(Sphere {
            position: mk(0, -5_000_000, -13_000_000),
            radius: 2_000_000,
            material: Material {
                color: byte_color((0x40, 0xe0, 0xd0)),
                diffuse: 600_000,
                specular: 5_000_000,
                specular_exponent: 500_000_000,
                reflectiveness: 0,
            },
        }),
        Object::Sphere(Sphere {
            position: mk(3_000_000, -5_000_000, -17_000_000),
            radius: 2_800_000,
            material: Material {
                color: byte_color((0x77, 0xbb, 0x77)),
                diffuse: 500_000,
                specular: 200_000,
                specular_exponent: 2_000_000,
                reflectiveness: 0,
            },
        }),
        Object::Sphere(Sphere {
            position: mk(0, -4_000_000, -20_000_000),
            radius: 3_000_000,
            material: Material {
                color: byte_color((0x2f, 0x8d, 0xff)),
                diffuse: 600_000,
                specular: 3_000_000,
                specular_exponent: 50_000_000,
                reflectiveness: 0,
            },
        }),
        Object::Sphere(Sphere {
            position: mk(-10_000_000, 5_000_000, -20_000_000),
            radius: 5_000_000,
            material: Material {
                color: rgb(100_000, 100_000, 100_000),
                diffuse: 0,
                specular: 50_000_000,
                specular_exponent: 100_000_000,
                reflectiveness: 1_000_000,
            },
        }),
        Object::Plane(Plane {
            position: mk(0, -8_000_000, 0),
            normal: mk(0, -1_000_000, 0),
            material: Material {
                color: byte_color((0x66, 0x33, 0x66)),
                diffuse: 800_000,
                specular: 200_000,
                specular_exponent: 5_000_000,
                reflectiveness: 600_000,
            },
        }),
    ]
}

/// The lights that `load_example` places.
pub open spec fn example_lights() -> Seq<Light> {
    seq![
        Light {
            light_type: LightType::Point,
            position: mk(-40_000_000, 20_000_000, 20_000_000),
            intensity: 1_000_000,
            color: rgb(SCALE as int, SCALE as int, SCALE as int),
        },
        Light {
            light_type: LightType::Point,
            position: mk(40_000_000, 20_000_000, 20_000_000),
            intensity: 800_000,
            color: rgb(660_000, 0, 660_000),
        },
        Light {
            light_type: LightType::Point,
            position: mk(0, 50_000_000, 0),
            intensity: 800_000,
            color: byte_color((0xa6, 0x7c, 0x00)),
        },
        Light {
            light_type: LightType::Ambient,
            position: mk(0, 0, 0),
            intensity: 250_000,
            color: rgb(SCALE as int, SCALE as int, SCALE as int),
        },
    ]
}

/// The objects that `load_mirrors` places.
pub open spec fn mirrors_objects() -> Seq<Object> {
    seq![
        Object::Plane(Plane {
            position: mk(0, 0, -20_000_000),
            normal: mk(0, 0, -1_000_000),
            material: Material {
                color: byte_color((0xff, 0xff, 0xff)),
                diffuse: 10_000,
                specular: 1_000_000,
                specular_exponent: 1_000_000_000,
                reflectiveness: 1_000_000,
            },
        }),
        Object::Plane(Plane {
            position: mk(0, 0, 20_000_000),
            normal: mk(0, 0, 1_000_000),
            material: Material {
                color: byte_color((0xff, 0xff, 0xff)),
                diffuse: 0,
                specular: 1_000_000,
                specular_exponent: 1_000_000_000,
                reflectiveness: 1_000_000,
            },
        }),
        Object::Sphere(Sphere {
            position: mk(5_000_000, 1_000_000, 0),
            radius: 2_500_000,
            material: Material {
                color: byte_color((0x00, 0x15, 0x55)),
                diffuse: 1_000_000,
                specular: 1_000_000,
                specular_exponent: 1_000_000_000,
                reflectiveness: 1_000_000,
            },
        }),
        Object::Sphere(Sphere {
            position: mk(0, 0, 20_000_000),
            radius: 5_000_000,
            material: Material {
                color: byte_color((0x00, 0x00, 0x00)),
                diffuse: 0,
                specular: 1_000_000,
                specular_exponent: 1_000_000_000,
                reflectiveness: 1_000_000,
            },
        }),
    ]
}

/// The lights that `load_mirrors` places.
pub open spec fn mirrors_lights() -> Seq<Light> {
    seq![
        Light {
            light_type: LightType::Ambient,
            position: mk(-10_000_000, 0, 0),
            intensity: 1_000_000,
            color: rgb(SCALE as int, SCALE as int, SCALE as int),
        },
        Light {
            light_type: LightType::Point,
            position: mk(-10_000_000, 0, 0),
            intensity: 1_000_000,
            color: rgb(SCALE as int, SCALE as int, SCALE as int),
        },
    ]
}

/// The objects that `load_wallpaper1` places.
pub open spec fn wallpaper1_objects() -> Seq<Object> {
    seq![
        Object::Sphere(Sphere {
            position: mk(1_000_000, -5_000_000, -15_000_000),
            radius: 2_100_000,
            material: Material {
                color: byte_color((0x00, 0x50, 0x1a)),
                diffuse: 600_000,
                specular: 50_000_000,
                specular_exponent: 100_000_000,
                reflectiveness: 1_000_000,
            },
        }),
        Object::Sphere(Sphere {
            position: mk(0, -1_000_000, -20_000_000),
            radius: 1_900_000,
            material: Material {
                color: byte_color((0x00, 0x8d, 0xff)),
                diffuse: 600_000,
                specular: 50_000_000,
                specular_exponent: 100_000_000,
                reflectiveness: 1_000_000,
            },
        }),
        Object::Sphere(Sphere {
            position: mk(-1_000_000, 2_000_000, -15_000_000),
            radius: 900_000,
            material: Material {
                color: byte_color((0x66, 0x00, 0x00)),
                diffuse: 600_000,
                specular: 50_000_000,
                specular_exponent: 100_000_000,
                reflectiveness: 1_000_000,
            },
        }),
        Object::Sphere(Sphere {
            position: mk(-5_000_000, 7_000_000, -20_000_000),
            radius: 5_000_000,
            material: Material {
                color: rgb(100_000, 100_000, 100_000),
                diffuse: 0,
                specular: 50_000_000,
                specular_exponent: 100_000_000,
                reflectiveness: 1_000_000,
            },
        }),
        Object::Plane(Plane {
            position: mk(0, -8_000_000, 0),
            normal: mk(0, -1_000_000, 0),
            material: Material {
                color: byte_color((0x00, 0x15, 0x55)),
                diffuse: 800_000,
                specular: 200_000,
                specular_exponent: 5_000_000,
                reflectiveness: 600_000,
            },
        }),
    ]
}

/// The lights that `load_wallpaper1` places.
pub open spec fn wallpaper1_lights() -> Seq<Light> {
    seq![
        Light {
            light_type: LightType::Point,
            position: mk(-40_000_000, 15_000_000, 20_000_000),
            intensity: 1_000_000,
            color: byte_color((0x35, 0x35, 0x35)),
        },
        Light {
            light_type: LightType::Point,
            position: mk(40_000_000, 15_000_000, 20_000_000),
            intensity: 800_000,
            color: rgb(750_000, 0, 0),
        },
        Light {
            light_type: LightType::Point,
            position: mk(0, 0, 750_000),
            intensity: 800_000,
            color: byte_color((0xa6, 0x7c, 0x00)),
        },
        Light {
            light_type: LightType::Ambient,
            position: mk(0, 0, 0),
            intensity: 250_000,
            color: rgb(SCALE as int, SCALE as int, SCALE as int),
        },
    ]
}

/// The objects that `load_wallpaper2` places.
pub open spec fn wallpaper2_objects() -> Seq<Object> {
    seq![
        Object::Sphere(Sphere {
            position: mk(-3_000_000, -5_000_000, -16_000_000),
            radius: 2_100_000,
            material: Material {
                color: byte_color((0x00, 0x50, 0x1a)),
                diffuse: 600_000,
                specular: 50_000_000,
                specular_exponent: 100_000_000,
                reflectiveness: 1_000_000,
            },
        }),
        Object::Sphere(Sphere {
            position: mk(4_000_000, -5_000_000, -15_000_000),
            radius: 2_100_000,
            material: Material {
                color: byte_color((0x66, 0x00, 0x00)),
                diffuse: 600_000,
                specular: 50_000_000,
                specular_exponent: 100_000_000,
                reflectiveness: 1_000_000,
            },
        }),
        Object::Sphere(Sphere {
            position: mk(0, -5_000_000, -21_000_000),
            radius: 2_100_000,
            material: Material {
                color: byte_color((0x00, 0x35, 0x75)),
                diffuse: 600_000,
                specular: 50_000_000,
                specular_exponent: 100_000_000,
                reflectiveness: 1_000_000,
            },
        }),
        Object::Sphere(Sphere {
            position: mk(-5_000_000, 7_000_000, -20_000_000),
            radius: 5_000_000,
            material: Material {
                color: rgb(100_000, 100_000, 100_000),
                diffuse: 0,
                specular: 50_000_000,
                specular_exponent: 100_000_000,
                reflectiveness: 1_000_000,
            },
        }),
        Object::Plane(Plane {
            position: mk(0, -8_000_000, 0),
            normal: mk(0, -1_000_000, 0),
            material: Material {
                color: byte_color((0x00, 0x15, 0x55)),
                diffuse: 0,
                specular: 50_000_000,
                specular_exponent: 100_000_000,
                reflectiveness: 1_000_000,
            },
        }),
    ]
}

/// The lights that `load_wallpaper2` places.
pub open spec fn wallpaper2_lights() -> Seq<Light> {
    seq![
        Light {
            light_type: LightType::Point,
            position: mk(-40_000_000, 15_000_000, 20_000_000),
            intensity: 1_000_000,
            color: byte_color((0xa0, 0xa0, 0xa0)),
        },
        Light {
            light_type: LightType::Point,
            position: mk(40_000_000, 15_000_000, 20_000_000),
            intensity: 800_000,
            color: byte_color((0xa0, 0x00, 0x00)),
        },
        Light {
            light_type: LightType::Point,
            position: mk(0, 0, 750_000),
            intensity: 800_000,
            color: byte_color((0x00, 0xa0, 0xa0)),
        },
        Light {
            light_type: LightType::Ambient,
            position: mk(0, 0, 0),
            intensity: 250_000,
            color: rgb(SCALE as int, SCALE as int, SCALE as int),
        },
    ]
}

/// The `load_example` scene holds valid objects and lights, with one ambient light.
pub proof fn lemma_example_valid()
    ensures
        valid_contents(example_objects(), example_lights()),
{
    lemma_axis_length(mk(0, -1_000_000, 0));
    assert(ambient_at(example_lights(), 3));
}

/// The `load_mirrors` scene holds valid objects and lights, with one ambient light.
pub proof fn lemma_mirrors_valid()
    ensures
        valid_contents(mirrors_objects(), mirrors_lights()),
{
    lemma_axis_length(mk(0, 0, -1_000_000));
    lemma_axis_length(mk(0, 0, 1_000_000));
    assert(ambient_at(mirrors_lights(), 0));
}

/// The `load_wallpaper1` scene holds valid objects and lights, with one ambient light.
pub proof fn lemma_wallpaper1_valid()
    ensures
        valid_contents(wallpaper1_objects(), wallpaper1_lights()),
{
    lemma_axis_length(mk(0, -1_000_000, 0));
    assert(ambient_at(wallpaper1_lights(), 3));
}

/// The `load_wallpaper2` scene holds valid objects and lights, with one ambient light.
pub proof fn lemma_wallpaper2_valid()
    ensures
        valid_contents(wallpaper2_objects(), wallpaper2_lights()),
{
    lemma_axis_length(mk(0, -1_000_000, 0));
    assert(ambient_at(wallpaper2_lights(), 3));
}

impl Scene {
    /// three colored point lights and a dim ambient light.
    pub fn load_example(&mut self)
        ensures
            final(self).objects@ == example_objects(),
            final(self).lights@ == example_lights(),
            valid_contents(final(self).objects@, final(self).lights@),
            final(self).width == old(self).width,
            final(self).height == old(self).height,
            final(self).camera == old(self).camera,
            final(self).bg_color == old(self).bg_color,
            final(self).options == old(self).options,
    {
        proof {
            lemma_example_valid();
        }
        self.objects = vec![
            Object::Sphere(Sphere {
                position: Vec3::new(-3_000_000, -5_000_000, -16_000_000),
                radius: 2_800_000,
                material: Material {
                    color: Color::from_u8(0xff, 0x55, 0x55),
                    diffuse: 600_000,
                    specular: 50_000_000,
                    specular_exponent: 100_000_000,
                    reflectiveness: 0,
                },
            }),
            Object::Sphere(Sphere {
                position: Vec3::new(0, -5_000_000, -13_000_000),
                radius: 2_000_000,
                material: Material {
                    color: Color::from_u8(0x40, 0xe0, 0xd0),
                    diffuse: 600_000,
                    specular: 5_000_000,
                    specular_exponent: 500_000_000,
                    reflectiveness: 0,
                },
            }),
            Object::Sphere(Sphere {
                position: Vec3::new(3_000_000, -5_000_000, -17_000_000),
                radius: 2_800_000,
                material: Material {
                    color: Color::from_u8(0x77, 0xbb, 0x77),
                    diffuse: 500_000,
                    specular: 200_000,
                    specular_exponent: 2_000_000,
                    reflectiveness: 0,
                },
            }),
            Object::Sphere(Sphere {
                position: Vec3::new(0, -4_000_000, -20_000_000),
                radius: 3_000_000,
                material: Material {
                    color: Color::from_u8(0x2f, 0x8d, 0xff),
                    diffuse: 600_000,
                    specular: 3_000_000,
                    specular_exponent: 50_000_000,
                    reflectiveness: 0,
                },
            }),
            Object::Sphere(Sphere {
                position: Vec3::new(-10_000_000, 5_000_000, -20_000_000),
                radius: 5_000_000,
                material: Material {
                    color: Color::new(100_000, 100_000, 100_000),
                    diffuse: 0,
                    specular: 50_000_000,
                    specular_exponent: 100_000_000,
                    reflectiveness: 1_000_000,
                },
            }),
            Object::Plane(Plane {
                position: Vec3::new(0, -8_000_000, 0),
                normal: Vec3::new(0, -1_000_000, 0),
                material: Material {
                    color: Color::from_u8(0x66, 0x33, 0x66),
                    diffuse: 800_000,
                    specular: 200_000,
                    specular_exponent: 5_000_000,
                    reflectiveness: 600_000,
                },
            }),
        ];
        self.lights = vec![
            Light {
                light_type: LightType::Point,
                position: Vec3::new(-40_000_000, 20_000_000, 20_000_000),
                intensity: 1_000_000,
                color: Color::white(),
            },
            Light {
                light_type: LightType::Point,
                position: Vec3::new(40_000_000, 20_000_000, 20_000_000),
                intensity: 800_000,
                color: Color::new(660_000, 0, 660_000),
            },
            Light {
                light_type: LightType::Point,
                position: Vec3::new(0, 50_000_000, 0),
                intensity: 800_000,
                color: Color::from_u8(0xa6, 0x7c, 0x00),
            },
            Light {
                light_type: LightType::Ambient,
                position: Vec3::zero(),
                intensity: 250_000,
                color: Color::white(),
            },
        ];
    }

    /// Loads a scene of facing mirror planes.
    pub fn load_mirrors(&mut self)
        ensures
            final(self).objects@ == mirrors_objects(),
            final(self).lights@ == mirrors_lights(),
            valid_contents(final(self).objects@, final(self).lights@),
            final(self).width == old(self).width,
            final(self).height == old(self).height,
            final(self).camera == old(self).camera,
            final(self).bg_color == old(self).bg_color,
            final(self).options == old(self).options,
    {
        proof {
            lemma_mirrors_valid();
        }
        self.objects = vec![
            Object::Plane(Plane {
                position: Vec3::new(0, 0, -20_000_000),
                normal: Vec3::new(0, 0, -1_000_000),
                material: Material {
                    color: Color::from_u8(0xff, 0xff, 0xff),
                    diffuse: 10_000,
                    specular: 1_000_000,
                    specular_exponent: 1_000_000_000,
                    reflectiveness: 1_000_000,
                },
            }),
            Object::Plane(Plane {
                position: Vec3::new(0, 0, 20_000_000),
                normal: Vec3::new(0, 0, 1_000_000),
                material: Material {
                    color: Color::from_u8(0xff, 0xff, 0xff),
                    diffuse: 0,
                    specular: 1_000_000,
                    specular_exponent: 1_000_000_000,
                    reflectiveness: 1_000_000,
                },
            }),
            Object::Sphere(Sphere {
                position: Vec3::new(5_000_000, 1_000_000, 0),
                radius: 2_500_000,
                material: Material {
                    color: Color::from_u8(0x00, 0x15, 0x55),
                    diffuse: 1_000_000,
                    specular: 1_000_000,
                    specular_exponent: 1_000_000_000,
                    reflectiveness: 1_000_000,
                },
            }),
            Object::Sphere(Sphere {
                position: Vec3::new(0, 0, 20_000_000),
                radius: 5_000_000,
                material: Material {
                    color: Color::from_u8(0x00, 0x00, 0x00),
                    diffuse: 0,
                    specular: 1_000_000,
                    specular_exponent: 1_000_000_000,
                    reflectiveness: 1_000_000,
                },
            }),
        ];
        self.lights = vec![
            Light {
                light_type: LightType::Ambient,
                position: Vec3::new(-10_000_000, 0, 0),
                intensity: 1_000_000,
                color: Color::white(),
            },
            Light {
                light_type: LightType::Point,
                position: Vec3::new(-10_000_000, 0, 0),
                intensity: 1_000_000,
                color: Color::white(),
            },
        ];
    }

    /// Loads the first wallpaper scene.
    pub fn load_wallpaper1(&mut self)
        ensures
            final(self).objects@ == wallpaper1_objects(),
            final(self).lights@ == wallpaper1_lights(),
            valid_contents(final(self).objects@, final(self).lights@),
            final(self).width == old(self).width,
            final(self).height == old(self).height,
            final(self).camera == old(self).camera,
            final(self).bg_color == old(self).bg_color,
            final(self).options == old(self).options,
    {
        proof {
            lemma_wallpaper1_valid();
        }
        self.objects = vec![
            Object::Sphere(Sphere {
                position: Vec3::new(1_000_000, -5_000_000, -15_000_000),
                radius: 2_100_000,
                material: Material {
                    color: Color::from_u8(0x00, 0x50, 0x1a),
                    diffuse: 600_000,
                    specular: 50_000_000,
                    specular_exponent: 100_000_000,
                    reflectiveness: 1_000_000,
                },
            }),
            Object::Sphere(Sphere {
                position: Vec3::new(0, -1_000_000, -20_000_000),
                radius: 1_900_000,
                material: Material {
                    color: Color::from_u8(0x00, 0x8d, 0xff),
                    diffuse: 600_000,
                    specular: 50_000_000,
                    specular_exponent: 100_000_000,
                    reflectiveness: 1_000_000,
                },
            }),
            Object::Sphere(Sphere {
                position: Vec3::new(-1_000_000, 2_000_000, -15_000_000),
                radius: 900_000,
                material: Material {
                    color: Color::from_u8(0x66, 0x00, 0x00),
                    diffuse: 600_000,
                    specular: 50_000_000,
                    specular_exponent: 100_000_000,
                    reflectiveness: 1_000_000,
                },
            }),
            Object::Sphere(Sphere {
                position: Vec3::new(-5_000_000, 7_000_000, -20_000_000),
                radius: 5_000_000,
                material: Material {
                    color: Color::new(100_000, 100_000, 100_000),
                    diffuse: 0,
                    specular: 50_000_000,
                    specular_exponent: 100_000_000,
                    reflectiveness: 1_000_000,
                },
            }),
            Object::Plane(Plane {
                position: Vec3::new(0, -8_000_000, 0),
                normal: Vec3::new(0, -1_000_000, 0),
                material: Material {
                    color: Color::from_u8(0x00, 0x15, 0x55),
                    diffuse: 800_000,
                    specular: 200_000,
                    specular_exponent: 5_000_000,
                    reflectiveness: 600_000,
                },
            }),
        ];
        self.lights = vec![
            Light {
                light_type: LightType::Point,
                position: Vec3::new(-40_000_000, 15_000_000, 20_000_000),
                intensity: 1_000_000,
                color: Color::from_u8(0x35, 0x35, 0x35),
            },
            Light {
                light_type: LightType::Point,
                position: Vec3::new(40_000_000, 15_000_000, 20_000_000),
                intensity: 800_000,
                color: Color::new(750_000, 0, 0),
            },
            Light {
                light_type: LightType::Point,
                position: Vec3::new(0, 0, 750_000),
                intensity: 800_000,
                color: Color::from_u8(0xa6, 0x7c, 0x00),
            },
            Light {
                light_type: LightType::Ambient,
                position: Vec3::zero(),
                intensity: 250_000,
                color: Color::white(),
            },
        ];
    }

    /// Loads the second wallpaper scene: mirror spheres over a mirror floor.
    pub fn load_wallpaper2(&mut self)
        ensures
            final(self).objects@ == wallpaper2_objects(),
            final(self).lights@ == wallpaper2_lights(),
            valid_contents(final(self).objects@, final(self).lights@),
            final(self).width == old(self).width,
            final(self).height == old(self).height,
            final(self).camera == old(self).camera,
            final(self).bg_color == old(self).bg_color,
            final(self).options == old(self).options,
    {
        proof {
            lemma_wallpaper2_valid();
        }
        self.objects = vec![
            Object::Sphere(Sphere {
                position: Vec3::new(-3_000_000, -5_000_000, -16_000_000),
                radius: 2_100_000,
                material: Material {
                    color: Color::from_u8(0x00, 0x50, 0x1a),
                    diffuse: 600_000,
                    specular: 50_000_000,
                    specular_exponent: 100_000_000,
                    reflectiveness: 1_000_000,
                },
            }),
            Object::Sphere(Sphere {
                position: Vec3::new(4_000_000, -5_000_000, -15_000_000),
                radius: 2_100_000,
                material: Material {
                    color: Color::from_u8(0x66, 0x00, 0x00),
                    diffuse: 600_000,
                    specular: 50_000_000,
                    specular_exponent: 100_000_000,
                    reflectiveness: 1_000_000,
                },
            }),
            Object::Sphere(Sphere {
                position: Vec3::new(0, -5_000_000, -21_000_000),
                radius: 2_100_000,
                material: Material {
                    color: Color::from_u8(0x00, 0x35, 0x75),
                    diffuse: 600_000,
                    specular: 50_000_000,
                    specular_exponent: 100_000_000,
                    reflectiveness: 1_000_000,
                },
            }),
            Object::Sphere(Sphere {
                position: Vec3::new(-5_000_000, 7_000_000, -20_000_000),
                radius: 5_000_000,
                material: Material {
                    color: Color::new(100_000, 100_000, 100_000),
                    diffuse: 0,
                    specular: 50_000_000,
                    specular_exponent: 100_000_000,
                    reflectiveness: 1_000_000,
                },
            }),
            Object::Plane(Plane {
                position: Vec3::new(0, -8_000_000, 0),
                normal: Vec3::new(0, -1_000_000, 0),
                material: Material {
                    color: Color::from_u8(0x00, 0x15, 0x55),
                    diffuse: 0,
                    specular: 50_000_000,
                    specular_exponent: 100_000_000,
                    reflectiveness: 1_000_000,
                },
            }),
        ];
        self.lights = vec![
            Light {
                light_type: LightType::Point,
                position: Vec3::new(-40_000_000, 15_000_000, 20_000_000),
                intensity: 1_000_000,
                color: Color::from_u8(0xa0, 0xa0, 0xa0),
            },
            Light {
                light_type: LightType::Point,
                position: Vec3::new(40_000_000, 15_000_000, 20_000_000),
                intensity: 800_000,
                color: Color::from_u8(0xa0, 0x00, 0x00),
            },
            Light {
                light_type: LightType::Point,
                position: Vec3::new(0, 0, 750_000),
                intensity: 800_000,
                color: Color::from_u8(0x00, 0xa0, 0xa0),
            },
            Light {
                light_type: LightType::Ambient,
                position: Vec3::zero(),
                intensity: 250_000,
                color: Color::white(),
            },
        ];
    }
}

} // verus!
