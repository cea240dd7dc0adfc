//! The scene, its shading engine and its render loop.
use crate::camera::{camera_ray, Camera};
use crate::color::{
    lemma_encode_extremes,
    cadd, cmul, cscale, encode_color, pow_unit, rgb, unit_clamp, Color,
};
use crate::fixed::{self, fmax, fmul, fsub, SCALE};
use crate::light::{Light, LightType};
use crate::material::Material;
use crate::options::Options;
use crate::ray::{point_at_spec, Ray};
use crate::shape::{hit_of, object_material, Hit, Object, EPSILON};
use crate::vector::{vadd, vdot, vlen, vneg, vnormalize, vreflect, vscale, vsub, Vec3};
use vstd::prelude::*;

pub mod make;
pub mod setup;

verus! {

/// Everything a render reads: image size, camera, primitives, lights, background and
/// options. A render does not change it.
pub struct Scene {
    pub width: u32,
    pub height: u32,
    pub camera: Camera,
    pub objects: Vec<Object>,
    pub lights: Vec<Light>,
    pub bg_color: Color,
    pub options: Options,
}

#[derive(Clone, Copy, Debug, PartialEq, Eq, Structural)]
pub enum RenderError {
    /// The image has no pixels: its width or its height is zero.
    EmptyImage,
}

/// The nearest hit among the first `n` objects; of equally near hits, the first.
pub open spec fn nearest(objs: Seq<Object>, ray: Ray, n: nat) -> Option<Hit>
    decreases n,
{
    if n == 0 {
        None
    } else {
        let best = nearest(objs, ray, (n - 1) as nat);
        match hit_of(objs[n - 1], ray) {
            None => best,
            Some(h) => match best {
                Some(b) => if h.distance < b.distance {
                    Some(h)
                } else {
                    best
                },
                None => Some(h),
            },
        }
    }
}

/// Whether `o` meets `ray` nearer than `limit`.
pub open spec fn hit_within(o: Object, ray: Ray, limit: int) -> bool {
    match hit_of(o, ray) {
        Some(h) => h.distance < limit,
        None => false,
    }
}

/// Whether some object meets `ray` nearer than `limit`.
pub open spec fn blocked(objs: Seq<Object>, ray: Ray, limit: int) -> bool {
    exists|i: int| 0 <= i < objs.len() && #[trigger] hit_within(objs[i], ray, limit)
}

/// A point lifted off its surface along the normal, where secondary rays start.
pub open spec fn lifted(p: Vec3, n: Vec3) -> Vec3 {
    vadd(p, vscale(n, EPSILON as int))
}

/// The normal turned to face against the incoming direction.
pub open spec fn facing(n: Vec3, dir: Vec3) -> Vec3 {
    if vdot(n, dir) > 0 {
        vneg(n)
    } else {
        n
    }
}

/// Diffuse light: `max(0, N.L) * diffuse * intensity * light color * surface color`.
pub open spec fn diffuse_term(opts: Options, n: Vec3, l: Vec3, m: Material, light: Light) -> Color {
    if opts.diffuse {
        cscale(
            cmul(light.color, m.color),
            fmul(fmul(fmax(0, vdot(n, l)), m.diffuse as int), light.intensity as int),
        )
    } else {
        rgb(0, 0, 0)
    }
}

/// Specular light: with `R` the mirror of the light's incoming direction `-L` about `N`,
/// `max(0, R.(-D))^exponent * specular * intensity * light color`.
pub open spec fn specular_term(
    opts: Options,
    n: Vec3,
    l: Vec3,
    dir: Vec3,
    m: Material,
    light: Light,
) -> Color {
    if opts.specular {
        let r = vreflect(vneg(l), n);
        let k = pow_unit(unit_clamp(vdot(r, vneg(dir))), m.specular_exponent as int);
        cscale(light.color, fmul(fmul(k, m.specular as int), light.intensity as int))
    } else {
        rgb(0, 0, 0)
    }
}

/// The ray from `p` (lifted off the surface) toward a point light.
pub open spec fn shadow_ray(p: Vec3, n: Vec3, light: Light) -> Ray {
    Ray {
        origin: lifted(p, n),
        direction: vnormalize(vsub(light.position, lifted(p, n))),
    }
}

/// The distance from the lifted point to a point light.
pub open spec fn light_distance(p: Vec3, n: Vec3, light: Light) -> int {
    vlen(vsub(light.position, lifted(p, n)))
}

/// What a point light gives a point when nothing is in its way.
pub open spec fn unshadowed_term(
    opts: Options,
    p: Vec3,
    n: Vec3,
    dir: Vec3,
    m: Material,
    light: Light,
) -> Color {
    let l = shadow_ray(p, n, light).direction;
    cadd(diffuse_term(opts, n, l, m, light), specular_term(opts, n, l, dir, m, light))
}

/// What one light gives point `p` with facing normal `n`, seen along `dir`.
pub open spec fn light_term(
    opts: Options,
    objs: Seq<Object>,
    p: Vec3,
    n: Vec3,
    dir: Vec3,
    m: Material,
    light: Light,
) -> Color {
    match light.light_type {
        LightType::Ambient => cscale(
            cmul(light.color, m.color),
            fmul(light.intensity as int, m.diffuse as int),
        ),
        LightType::Point => if opts.shadows && blocked(
            objs,
            shadow_ray(p, n, light),
            light_distance(p, n, light),
        ) {
            rgb(0, 0, 0)
        } else {
            unshadowed_term(opts, p, n, dir, m, light)
        },
    }
}

/// The sum of what the first `k` lights give.
pub open spec fn local_sum(
    opts: Options,
    objs: Seq<Object>,
    lights: Seq<Light>,
    p: Vec3,
    n: Vec3,
    dir: Vec3,
    m: Material,
    k: nat,
) -> Color
    decreases k,
{
    if k == 0 {
        rgb(0, 0, 0)
    } else {
        cadd(
            local_sum(opts, objs, lights, p, n, dir, m, (k - 1) as nat),
            light_term(opts, objs, p, n, dir, m, lights[k - 1]),
        )
    }
}

pub open spec fn local_color(s: Scene, p: Vec3, n: Vec3, dir: Vec3, m: Material) -> Color {
    local_sum(s.options, s.objects@, s.lights@, p, n, dir, m, s.lights@.len())
}

/// The mirror ray off point `p` with facing normal `n`.
pub open spec fn reflect_ray(p: Vec3, n: Vec3, dir: Vec3) -> Ray {
    Ray { origin: lifted(p, n), direction: vnormalize(vreflect(dir, n)) }
}

/// Whether a hit at recursion depth `depth` on material `m` casts a mirror ray.
pub open spec fn reflects(opts: Options, m: Material, depth: int) -> bool {
    opts.reflections && m.reflectiveness > 0 && depth + 1 <= opts.max_rays
}

/// `local * (1 - k) + reflected * k`.
pub open spec fn blend(local: Color, reflected: Color, k: int) -> Color {
    cadd(cscale(local, fsub(SCALE as int, k)), cscale(reflected, k))
}

/// The color seen along `ray` at recursion depth `depth`.
pub open spec fn trace_spec(s: Scene, ray: Ray, depth: int) -> Color
    decreases s.options.max_rays + 1 - depth,
{
    if depth > s.options.max_rays {
        s.bg_color
    } else {
        match nearest(s.objects@, ray, s.objects@.len()) {
            None => s.bg_color,
            Some(h) => {
                let p = point_at_spec(ray, h.distance as int);
                let n = facing(h.normal, ray.direction);
                let local = local_color(s, p, n, ray.direction, h.material);
                if reflects(s.options, h.material, depth) {
                    blend(
                        local,
                        trace_spec(s, reflect_ray(p, n, ray.direction), depth + 1),
                        h.material.reflectiveness as int,
                    )
                } else {
                    local
                }
            },
        }
    }
}

/// Image-plane coordinate of the center of pixel `i` of `n`.
pub open spec fn pixel_coord(i: int, n: int) -> int {
    ((2 * i + 1) * SCALE) / (2 * n)
}

/// The color of pixel `(x, y)`, counted from the top-left corner.
pub open spec fn pixel_color(s: Scene, x: int, y: int) -> Color {
    trace_spec(
        s,
        camera_ray(s.camera, pixel_coord(x, s.width as int), pixel_coord(y, s.height as int)),
        0,
    )
}

/// The bytes of pixel `i` in row-major order.
pub open spec fn pixel_bytes(s: Scene, i: int) -> (u8, u8, u8) {
    encode_color(pixel_color(s, i % (s.width as int), i / (s.width as int)), s.options.gamma as int)
}

/// The nearest-hit scan finds nothing exactly when every object misses.
pub proof fn lemma_nearest_none(objs: Seq<Object>, ray: Ray, n: nat)
    requires
        n <= objs.len(),
    ensures
        nearest(objs, ray, n) is None <==> forall|i: int| 0 <= i < n ==> (#[trigger] hit_of(objs[i], ray)) is None,
    decreases n,
{
    if n > 0 {
        lemma_nearest_none(objs, ray, (n - 1) as nat);
    }
}

/// Closest-hit search: what the scan returns is the hit of one of the objects, and no
/// object is hit nearer.
pub proof fn lemma_nearest_is_closest(objs: Seq<Object>, ray: Ray, n: nat)
    requires
        n <= objs.len(),
    ensures
        nearest(objs, ray, n) matches Some(h) ==> (exists|i: int|
            0 <= i < n && #[trigger] hit_of(objs[i], ray) == Some(h)) && (forall|j: int|
            0 <= j < n ==> (#[trigger] hit_of(objs[j], ray) matches Some(g) ==> h.distance
                <= g.distance)),
    decreases n,
{
    if n > 0 {
        let k = (n - 1) as nat;
        lemma_nearest_is_closest(objs, ray, k);
        lemma_nearest_none(objs, ray, k);
        let best = nearest(objs, ray, k);
        if let Some(h) = nearest(objs, ray, n) {
            if nearest(objs, ray, n) == hit_of(objs[n - 1], ray) {
                assert(hit_of(objs[n - 1], ray) == Some(h));
            }
            assert forall|j: int| 0 <= j < n implies (#[trigger] hit_of(objs[j], ray) matches Some(
                g,
            ) ==> h.distance <= g.distance) by {
                if j < k {
                    if let Some(b) = best {
                        assert(hit_of(objs[j], ray) matches Some(g) ==> b.distance <= g.distance);
                    }
                }
            }
        }
    }
}

/// A ray that misses every object shows exactly the background color.
pub proof fn lemma_miss_is_background(s: Scene, ray: Ray, depth: int)
    requires
        forall|i: int| 0 <= i < s.objects@.len() ==> (#[trigger] hit_of(s.objects@[i], ray)) is None,
    ensures
        trace_spec(s, ray, depth) == s.bg_color,
{
    lemma_nearest_none(s.objects@, ray, s.objects@.len());
}

/// A point light with an object between it and the point gives nothing there when
/// shadows are on, and its full diffuse and specular light when they are off.
pub proof fn lemma_occluded_light(
    opts: Options,
    objs: Seq<Object>,
    p: Vec3,
    n: Vec3,
    dir: Vec3,
    m: Material,
    light: Light,
)
    requires
        light.light_type == LightType::Point,
        blocked(objs, shadow_ray(p, n, light), light_distance(p, n, light)),
    ensures
        opts.shadows ==> light_term(opts, objs, p, n, dir, m, light) == rgb(0, 0, 0),
        !opts.shadows ==> light_term(opts, objs, p, n, dir, m, light) == unshadowed_term(
            opts,
            p,
            n,
            dir,
            m,
            light,
        ),
{
}

/// With reflections off, a hit shows its local color alone, whatever its reflectiveness.
pub proof fn lemma_no_reflections(s: Scene, ray: Ray, depth: int)
    requires
        !s.options.reflections,
        0 <= depth <= s.options.max_rays,
        nearest(s.objects@, ray, s.objects@.len()) is Some,
    ensures
        ({
            let h = nearest(s.objects@, ray, s.objects@.len())->Some_0;
            let p = point_at_spec(ray, h.distance as int);
            let n = facing(h.normal, ray.direction);
            trace_spec(s, ray, depth) == local_color(s, p, n, ray.direction, h.material)
        }),
{
}

/// Objects that are all pure red, fully diffuse and not reflective, lit by one white
/// ambient light of intensity 1 and nothing else.
pub open spec fn red_under_ambient(s: Scene) -> bool {
    &&& s.lights@.len() == 1
    &&& s.lights@[0].light_type == LightType::Ambient
    &&& s.lights@[0].intensity == SCALE
    &&& s.lights@[0].color == rgb(SCALE as int, SCALE as int, SCALE as int)
    &&& forall|k: int|
        0 <= k < s.objects@.len() ==> {
            let m = #[trigger] object_material(s.objects@[k]);
            m.color == rgb(SCALE as int, 0, 0) && m.diffuse == SCALE && m.reflectiveness == 0
        }
}

proof fn lemma_red_local(s: Scene, p: Vec3, n: Vec3, dir: Vec3, m: Material)
    requires
        red_under_ambient(s),
        m.color == rgb(SCALE as int, 0, 0),
        m.diffuse == SCALE,
    ensures
        local_color(s, p, n, dir, m) == rgb(SCALE as int, 0, 0),
{
    assert(fmul(SCALE as int, SCALE as int) == SCALE) by (nonlinear_arith);
    assert(fmul(SCALE as int, 0) == 0);
    assert(fmul(0, SCALE as int) == 0);
    let red = rgb(SCALE as int, 0, 0);
    assert(cmul(s.lights@[0].color, red) == red);
    assert(cscale(red, SCALE as int) == red);
    assert(cadd(rgb(0, 0, 0), red) == red);
    assert(light_term(s.options, s.objects@, p, n, dir, m, s.lights@[0]) == red);
    assert(local_sum(s.options, s.objects@, s.lights@, p, n, dir, m, 0) == rgb(0, 0, 0));
}

/// Under `red_under_ambient`, a ray that meets an object shows pure red, and any other ray
/// the background.
pub proof fn lemma_red_trace(s: Scene, ray: Ray)
    requires
        red_under_ambient(s),
    ensures
        nearest(s.objects@, ray, s.objects@.len()) is Some ==> trace_spec(s, ray, 0) == rgb(
            SCALE as int,
            0,
            0,
        ),
        nearest(s.objects@, ray, s.objects@.len()) is None ==> trace_spec(s, ray, 0) == s.bg_color,
{
    let objs = s.objects@;
    lemma_nearest_is_closest(objs, ray, objs.len());
    if let Some(h) = nearest(objs, ray, objs.len()) {
        let k = choose|k: int| 0 <= k < objs.len() && #[trigger] hit_of(objs[k], ray) == Some(h);
        assert(object_material(objs[k]) == h.material);
        let p = point_at_spec(ray, h.distance as int);
        let n = facing(h.normal, ray.direction);
        lemma_red_local(s, p, n, ray.direction, h.material);
    }
}

/// The camera ray through pixel `i` in row-major order.
pub open spec fn pixel_ray(s: Scene, i: int) -> Ray {
    camera_ray(
        s.camera,
        pixel_coord(i % (s.width as int), s.width as int),
        pixel_coord(i / (s.width as int), s.height as int),
    )
}

/// Under `red_under_ambient` and a positive gamma, a pixel whose ray meets an object is pure
/// red, and every other pixel has the background color.
pub proof fn lemma_red_under_ambient(s: Scene, i: int)
    requires
        red_under_ambient(s),
        s.options.gamma > 0,
    ensures
        nearest(s.objects@, pixel_ray(s, i), s.objects@.len()) is Some ==> pixel_bytes(s, i) == (
            255u8,
            0u8,
            0u8,
        ),
        nearest(s.objects@, pixel_ray(s, i), s.objects@.len()) is None ==> pixel_bytes(s, i)
            == encode_color(s.bg_color, s.options.gamma as int),
{
    let ray = pixel_ray(s, i);
    lemma_red_trace(s, ray);
    lemma_encode_extremes(s.options.gamma as int);
}

impl Scene {
    /// The nearest hit of `ray` over all objects.
    pub fn closest_hit(&self, ray: &Ray) -> (r: Option<Hit>)
        ensures
            r == nearest(self.objects@, *ray, self.objects@.len()),
    {
        let mut best: Option<Hit> = None;
        let mut i: usize = 0;
        while i < self.objects.len()
            invariant
                0 <= i <= self.objects@.len(),
                best == nearest(self.objects@, *ray, i as nat),
            decreases self.objects@.len() - i,
        {
            match self.objects[i].intersect(ray) {
                Some(h) => {
                    match best {
                        Some(b) => {
                            if h.distance < b.distance {
                                best = Some(h);
                            }
                        },
                        None => {
                            best = Some(h);
                        },
                    }
                },
                None => {},
            }
            i = i + 1;
        }
        best
    }

    /// Whether some object meets `ray` nearer than `limit`.
    pub fn in_shadow(&self, ray: &Ray, limit: i64) -> (r: bool)
        ensures
            r == blocked(self.objects@, *ray, limit as int),
    {
        let mut i: usize = 0;
        while i < self.objects.len()
            invariant
                0 <= i <= self.objects@.len(),
                forall|j: int| 0 <= j < i ==> !#[trigger] hit_within(self.objects@[j], *ray, limit as int),
            decreases self.objects@.len() - i,
        {
            match self.objects[i].intersect(ray) {
                Some(h) => {
                    if h.distance < limit {
                        assert(hit_within(self.objects@[i as int], *ray, limit as int));
                        return true;
                    }
                },
                None => {},
            }
            i = i + 1;
        }
        false
    }

    /// What `light` gives point `p` with facing normal `n` on material `m`, seen along `dir`.
    pub fn shade_light(&self, p: Vec3, n: Vec3, dir: Vec3, m: &Material, light: &Light) -> (r: Color)
        ensures
            r == light_term(self.options, self.objects@, p, n, dir, *m, *light),
    {
        match light.light_type {
            LightType::Ambient => light.color.mul(m.color).scale(fixed::mul(light.intensity, m.diffuse)),
            LightType::Point => {
                let origin = p.add(n.scale(EPSILON));
                let to_light = light.position.sub(origin);
                let l = to_light.normalize();
                let shadow = Ray { origin, direction: l };
                if self.options.shadows && self.in_shadow(&shadow, to_light.length()) {
                    return Color::black();
                }
                let diffuse = if self.options.diffuse {
                    let k = fixed::mul(fixed::mul(fixed::max(0, n.dot(l)), m.diffuse), light.intensity);
                    light.color.mul(m.color).scale(k)
                } else {
                    Color::black()
                };
                let specular = if self.options.specular {
                    let r = l.neg().reflect(n);
                    let c = r.dot(dir.neg());
                    let c = if c < 0 {
                        0
                    } else if c > SCALE {
                        SCALE
                    } else {
                        c
                    };
                    let k = crate::color::pow_unit_exec(c, m.specular_exponent);
                    light.color.scale(fixed::mul(fixed::mul(k, m.specular), light.intensity))
                } else {
                    Color::black()
                };
                diffuse.add(specular)
            },
        }
    }

    /// The sum of what every light gives the point.
    pub fn local_light(&self, p: Vec3, n: Vec3, dir: Vec3, m: &Material) -> (r: Color)
        ensures
            r == local_sum(self.options, self.objects@, self.lights@, p, n, dir, *m, self.lights@.len()),
    {
        let mut acc = Color::black();
        let mut i: usize = 0;
        while i < self.lights.len()
            invariant
                0 <= i <= self.lights@.len(),
                acc == local_sum(self.options, self.objects@, self.lights@, p, n, dir, *m, i as nat),
            decreases self.lights@.len() - i,
        {
            acc = acc.add(self.shade_light(p, n, dir, m, &self.lights[i]));
            i = i + 1;
        }
        acc
    }

    /// The color seen along `ray` at recursion depth `depth`, and how many traces it took
    /// (this one included).
    pub fn trace_counted(&self, ray: &Ray, depth: u32) -> (r: (Color, u32))
        ensures
            r.0 == trace_spec(*self, *ray, depth as int),
            1 <= r.1,
            depth <= self.options.max_rays ==> r.1 <= self.options.max_rays + 1 - depth,
            depth > self.options.max_rays ==> r.1 == 1,
        decreases self.options.max_rays + 1 - depth,
    {
        if depth > self.options.max_rays as u32 {
            return (self.bg_color, 1);
        }
        match self.closest_hit(ray) {
            None => (self.bg_color, 1),
            Some(h) => {
                let p = ray.point_at(h.distance);
                let n = if h.normal.dot(ray.direction) > 0 {
                    h.normal.neg()
                } else {
                    h.normal
                };
                let local = self.local_light(p, n, ray.direction, &h.material);
                let k = h.material.reflectiveness;
                if self.options.reflections && k > 0 && depth + 1 <= self.options.max_rays as u32 {
                    let mirror = Ray {
                        origin: p.add(n.scale(EPSILON)),
                        direction: ray.direction.reflect(n).normalize(),
                    };
                    let (reflected, calls) = self.trace_counted(&mirror, depth + 1);
                    let c = local.scale(fixed::sub(SCALE, k)).add(reflected.scale(k));
                    (c, calls + 1)
                } else {
                    (local, 1)
                }
            },
        }
    }

    /// The color seen along `ray` at recursion depth `depth`.
    pub fn trace(&self, ray: &Ray, depth: u32) -> (r: Color)
        ensures
            r == trace_spec(*self, *ray, depth as int),
    {
        self.trace_counted(ray, depth).0
    }

    /// The image, row-major from the top-left corner, one triple of bytes per pixel. Pixel
    /// `(x, y)` is traced through the image-plane point at the pixel's center.
    pub fn render(&self) -> (r: Result<Vec<(u8, u8, u8)>, RenderError>)
        requires
            self.width * self.height <= usize::MAX,
        ensures
            r is Err <==> self.width == 0 || self.height == 0,
            r matches Ok(px) ==> px@.len() == self.width * self.height && forall|i: int|
                0 <= i < px@.len() ==> #[trigger] px@[i] == pixel_bytes(*self, i),
    {
        if self.width == 0 || self.height == 0 {
            return Err(RenderError::EmptyImage);
        }
        let w = self.width as u64;
        let h = self.height as u64;
        let total = w * h;
        let mut px: Vec<(u8, u8, u8)> = Vec::new();
        let mut i: u64 = 0;
        while i < total
            invariant
                w == self.width,
                h == self.height,
                w > 0,
                h > 0,
                total == w * h,
                i <= total,
                px@.len() == i,
                forall|j: int| 0 <= j < i ==> #[trigger] px@[j] == pixel_bytes(*self, j),
            decreases total - i,
        {
            let x = i % w;
            let y = i / w;
            assert(y < h) by (nonlinear_arith)
                requires
                    y == i / w,
                    i < w * h,
                    w > 0,
            ;
            let s = (((2 * x + 1) as i64) * SCALE) / (2 * w as i64);
            let t = (((2 * y + 1) as i64) * SCALE) / (2 * h as i64);
            let ray = self.camera.get_ray(s, t);
            let c = self.trace(&ray, 0);
            px.push(c.to_bytes(self.options.gamma));
            i = i + 1;
        }
        Ok(px)
    }
}

} // verus!
