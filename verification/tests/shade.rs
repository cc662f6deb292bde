use cgmath::{InnerSpace, Vector3, Zero};
use raytracer::colorf::ColorF;
use raytracer::light::Light;
use raytracer::material::{Material, MaterialId};
use raytracer::resolver::scene_intersect;
use raytracer::scalar::Scalar;
use raytracer::scene::Scene;
use raytracer::shading::{
    begin_shading, bias, light_occluded, refraction_interface, restart_point, total_reflection,
    Shading, MAX_REFLECTION,
};
use raytracer::traceable::chessboard::Chessboard;
use raytracer::traceable::sphere::Sphere;
use raytracer::traceable::{HitInfo, RayTraceable};
use raytracer::vector::{Vec3f, Vec4f};

type V3 = Vector3<f32>;

fn s(v: f32) -> Scalar {
    Scalar::from_bits(v.to_bits())
}

fn f(v: Scalar) -> f32 {
    f32::from_bits(v.to_bits())
}

fn point(v: V3) -> Vec3f {
    Vec3f::new(s(v.x), s(v.y), s(v.z))
}

fn vector(v: &Vec3f) -> V3 {
    V3::new(f(v.x), f(v.y), f(v.z))
}

fn material(refract: f32, albedo: [f32; 4], color: [f32; 3], specularity: f32) -> Material {
    Material {
        refract: s(refract),
        albedo: Vec4f::new(s(albedo[0]), s(albedo[1]), s(albedo[2]), s(albedo[3])),
        diffuse_color: ColorF::rgb(s(color[0]), s(color[1]), s(color[2])),
        specularity: s(specularity),
    }
}

/// A sphere with its geometry in floats.
struct Ball(Sphere);

impl Ball {
    fn new(x: f32, y: f32, z: f32, radius: f32, material: MaterialId) -> Ball {
        Ball(Sphere::new(point(V3::new(x, y, z)), s(radius), material))
    }
}

impl RayTraceable for Ball {
    fn hit(&self, _origin: Vec3f, _dir: Vec3f) -> Option<HitInfo> {
        unreachable!()
    }

    fn ray_intersect(&self, origin: &Vec3f, dir: &Vec3f) -> Option<HitInfo> {
        let origin = vector(origin);
        let dir = vector(dir);
        let center = vector(&self.0.center);
        let radius = f(self.0.radius);
        let fwd = center - origin;
        let tca = fwd.dot(dir);
        let d2 = fwd.dot(fwd) - tca * tca;
        if d2 > radius * radius {
            return None;
        }
        let thc = (radius * radius - d2).sqrt();
        let distance = Sphere::nearest_root(s(tca - thc), s(tca + thc))?;
        let hitpoint = origin + dir * f(distance);
        let normal = (hitpoint - center).normalize();
        Some(HitInfo { distance, hitpoint: point(hitpoint), normal: point(normal), material: self.0.material })
    }
}

/// The chequered floor with its geometry in floats.
struct Floor(Chessboard);

impl RayTraceable for Floor {
    fn hit(&self, _origin: Vec3f, _dir: Vec3f) -> Option<HitInfo> {
        unreachable!()
    }

    fn ray_intersect(&self, origin: &Vec3f, dir: &Vec3f) -> Option<HitInfo> {
        if !Chessboard::crosses_plane(dir.y) {
            return None;
        }
        let origin = vector(origin);
        let dir = vector(dir);
        let d = -(origin.y + 4.0) / dir.y;
        let hit = origin + dir * d;
        if !Chessboard::contains(s(d), &point(hit)) {
            return None;
        }
        let material = self.0.material_at((0.5 * hit.x + 1000.0) as i32, (0.5 * hit.z) as i32);
        Some(HitInfo { distance: s(d), hitpoint: point(hit), normal: point(V3::unit_y()), material })
    }
}

#[derive(Clone, Copy, Debug, PartialEq)]
struct Rgba([f32; 4]);

impl Rgba {
    fn of(c: ColorF) -> Rgba {
        Rgba([f(c.r), f(c.g), f(c.b), f(c.a)])
    }

    fn scale(self, k: f32) -> Rgba {
        Rgba([self.0[0] * k, self.0[1] * k, self.0[2] * k, self.0[3] * k])
    }

    fn plus(self, o: Rgba) -> Rgba {
        Rgba([self.0[0] + o.0[0], self.0[1] + o.0[1], self.0[2] + o.0[2], self.0[3] + o.0[3]])
    }
}

const SKY: Rgba = Rgba([0.2, 0.7, 0.8, 1.0]);

fn reflect(vec: V3, normal: V3) -> V3 {
    vec - normal * 2.0 * vec.dot(normal)
}

fn refract(vec: V3, normal: V3, index: f32) -> V3 {
    let cosi = vec.dot(normal).min(1.0).max(-1.0) * -1.0;
    let interface = refraction_interface(s(cosi), s(index), point(normal));
    let cosi = f(interface.cosine);
    let n = vector(&interface.normal);
    let eta = f(interface.eta_incident) / f(interface.eta_transmitted);
    let k = 1.0 - eta * eta * (1.0 - cosi * cosi);
    if total_reflection(s(k)) {
        V3::zero()
    } else {
        vec * eta + n * (eta * cosi - k.sqrt())
    }
}

/// The diffuse and the specular light that reaches a hit.
fn lighting(scene: &Scene, hit: &HitInfo, dir: V3, specularity: f32) -> (f32, f32) {
    let hitpoint = vector(&hit.hitpoint);
    let normal = vector(&hit.normal);
    let inside = point(hitpoint - normal * f(bias()));
    let outside = point(hitpoint + normal * f(bias()));
    let mut diffuse = 0.0;
    let mut specular = 0.0;
    for light in scene.lights.iter() {
        let position = vector(&light.position);
        let light_dir = (position - hitpoint).normalize();
        let light_distance = (position - hitpoint).magnitude();
        let shadow_orig = restart_point(s(light_dir.dot(normal)), inside, outside);
        let blocker = scene_intersect(&shadow_orig, &point(light_dir), &scene.objects)
            .map(|shadow_hit| s((vector(&shadow_hit.hitpoint) - vector(&shadow_orig)).magnitude()));
        if light_occluded(blocker, s(light_distance)) {
            continue;
        }
        diffuse += f(light.intensity) * light_dir.dot(normal).max(0.0);
        specular += reflect(light_dir, normal).dot(dir).max(0.0).powf(specularity) * f(light.intensity);
    }
    (diffuse, specular)
}

fn reflected_ray(hit: &HitInfo, dir: V3) -> (V3, V3) {
    let hitpoint = vector(&hit.hitpoint);
    let normal = vector(&hit.normal);
    let inside = point(hitpoint - normal * f(bias()));
    let outside = point(hitpoint + normal * f(bias()));
    let reflect_dir = reflect(dir, normal).normalize();
    (vector(&restart_point(s(reflect_dir.dot(normal)), inside, outside)), reflect_dir)
}

fn cast_ray(orig: V3, dir: V3, scene: &Scene, depth: i32) -> Rgba {
    let maybe_hit = scene_intersect(&point(orig), &point(dir), &scene.objects);
    let hit = match begin_shading(maybe_hit, depth) {
        Shading::Surface(hit) => hit,
        Shading::Background(color) => return Rgba::of(color),
    };
    let hitpoint = vector(&hit.hitpoint);
    let normal = vector(&hit.normal);
    let m = scene.materials.get(hit.material).unwrap();
    let inside = point(hitpoint - normal * f(bias()));
    let outside = point(hitpoint + normal * f(bias()));

    let (reflect_orig, reflect_dir) = reflected_ray(&hit, dir);
    let reflect_color = cast_ray(reflect_orig, reflect_dir, scene, depth + 1);

    let refract_dir = refract(dir, normal, f(m.refract)).normalize();
    let refract_orig = vector(&restart_point(s(refract_dir.dot(normal)), inside, outside));
    let refract_color = cast_ray(refract_orig, refract_dir, scene, depth + 1);

    let (diffuse, specular) = lighting(scene, &hit, dir, f(m.specularity));
    Rgba::of(m.diffuse_color)
        .scale(diffuse)
        .scale(f(m.albedo.x))
        .plus(Rgba([1.0, 1.0, 1.0, 1.0]).scale(specular).scale(f(m.albedo.y)))
        .plus(reflect_color.scale(f(m.albedo.z)))
        .plus(refract_color.scale(f(m.albedo.w)))
}

fn lamp(x: f32, y: f32, z: f32, intensity: f32) -> Light {
    Light { position: point(V3::new(x, y, z)), intensity: s(intensity) }
}

#[test]
fn a_ray_into_the_void_gets_the_background() {
    let scene = Scene::new();
    assert_eq!(cast_ray(V3::zero(), V3::new(0.0, 0.0, -1.0), &scene, 0), SKY);
}

#[test]
fn recursion_bound() {
    let mut scene = Scene::new();
    let ivory = scene.materials.insert("ivory".to_string(), material(1.0, [0.6, 0.3, 0.1, 0.0], [0.4, 0.4, 0.3], 50.0));
    let mirror = scene.materials.insert("mirror".to_string(), material(1.0, [0.0, 10.0, 0.8, 0.0], [1.0, 1.0, 1.0], 1425.0));
    let a = Ball::new(0.0, 0.0, -10.0, 2.0, ivory);
    let b = Ball::new(5.0, 0.0, -10.0, 2.0, mirror);
    scene.objects.push(&a);
    scene.objects.push(&b);
    scene.lights.push(lamp(-20.0, 20.0, 20.0, 1.5));
    let rays = [
        V3::new(0.0, 0.0, -1.0),
        V3::new(5.0, 0.0, -10.0).normalize(),
        V3::new(1.0, 0.0, 0.0),
        V3::new(0.1, 0.1, -1.0).normalize(),
    ];
    for dir in rays.iter() {
        assert_eq!(cast_ray(V3::zero(), *dir, &scene, MAX_REFLECTION + 1), SKY);
        assert_eq!(cast_ray(V3::zero(), *dir, &scene, MAX_REFLECTION + 7), SKY);
    }
    // at the maximum itself a hit is still shaded
    assert_ne!(cast_ray(V3::zero(), rays[0], &scene, MAX_REFLECTION), SKY);
    assert_ne!(cast_ray(V3::zero(), rays[0], &scene, 0), SKY);
}

#[test]
fn pure_mirror() {
    let mut scene = Scene::new();
    let mirror = scene.materials.insert("mirror".to_string(), material(1.0, [0.0, 0.0, 1.0, 0.0], [1.0, 1.0, 1.0], 1425.0));
    let ivory = scene.materials.insert("ivory".to_string(), material(1.0, [0.6, 0.3, 0.1, 0.0], [0.4, 0.4, 0.3], 50.0));
    let glass = Ball::new(0.0, 0.0, -10.0, 2.0, mirror);
    let other = Ball::new(6.0, 0.0, -4.0, 2.0, ivory);
    scene.objects.push(&glass);
    scene.objects.push(&other);
    scene.lights.push(lamp(-20.0, 20.0, 20.0, 1.5));
    scene.lights.push(lamp(30.0, 50.0, -25.0, 1.8));

    for (dir, depth) in [
        (V3::new(0.0, 0.0, -1.0), 0),
        (V3::new(0.1, 0.0, -1.0).normalize(), 0),
        (V3::new(0.15, 0.05, -1.0).normalize(), 2),
        (V3::new(0.1, 0.0, -1.0).normalize(), MAX_REFLECTION),
    ] {
        let hit = scene_intersect(&point(V3::zero()), &point(dir), &scene.objects).unwrap();
        assert_eq!(hit.material, mirror);
        let (orig, reflected) = reflected_ray(&hit, dir);
        assert_eq!(cast_ray(V3::zero(), dir, &scene, depth), cast_ray(orig, reflected, &scene, depth + 1));
    }
}

#[test]
fn shadow_takes_the_diffuse_light_away() {
    let mut scene = Scene::new();
    let ivory = scene.materials.insert("ivory".to_string(), material(1.0, [0.6, 0.3, 0.1, 0.0], [0.4, 0.4, 0.3], 50.0));
    let shaded = Ball::new(0.0, 0.0, -10.0, 2.0, ivory);
    let occluder = Ball::new(0.0, 5.0, -3.0, 1.0, ivory);
    scene.lights.push(lamp(0.0, 10.0, 2.0, 1.5));
    let dir = V3::new(0.0, 0.0, -1.0);

    scene.objects.push(&shaded);
    let hit = scene_intersect(&point(V3::zero()), &point(dir), &scene.objects).unwrap();
    let (diffuse, _) = lighting(&scene, &hit, dir, 50.0);
    assert!(diffuse > 0.0);

    scene.objects.push(&occluder);
    let hit = scene_intersect(&point(V3::zero()), &point(dir), &scene.objects).unwrap();
    assert_eq!(f(hit.distance), 8.0);
    let (diffuse, specular) = lighting(&scene, &hit, dir, 50.0);
    assert_eq!(diffuse, 0.0);
    assert_eq!(specular, 0.0);
}

#[test]
fn the_floor_shows_both_materials() {
    let mut scene = Scene::new();
    let even = scene.materials.insert("even_chess".to_string(), material(1.0, [0.9, 0.1, 0.0, 0.0], [0.3, 0.3, 0.3], 10.0));
    let odd = scene.materials.insert("odd_chess".to_string(), material(1.0, [0.9, 0.1, 0.0, 0.0], [0.3, 0.2, 0.1], 10.0));
    let floor = Floor(Chessboard { even_material: even, odd_material: odd });
    scene.objects.push(&floor);
    let at = |x: f32, z: f32| {
        let dir = V3::new(x, -4.0, z).normalize();
        scene_intersect(&point(V3::zero()), &point(dir), &scene.objects).map(|h| h.material)
    };
    assert_eq!(at(0.5, -12.5), Some(even));
    assert_eq!(at(2.5, -12.5), Some(odd));
    assert_eq!(at(0.5, -14.5), Some(odd));
    assert_eq!(at(2.5, -14.5), Some(even));
    assert_eq!(at(-1.5, -12.5), Some(odd));
    // beside and behind the floor
    assert_eq!(at(12.0, -12.5), None);
    assert_eq!(at(0.5, -5.0), None);
    assert_eq!(at(0.5, -35.0), None);
    // a ray along the floor
    assert!(scene_intersect(&point(V3::zero()), &point(V3::new(0.0, 0.0, -1.0)), &scene.objects).is_none());
    // a ray that leaves the floor behind
    assert!(scene_intersect(&point(V3::zero()), &point(V3::new(0.0, 1.0, -1.0).normalize()), &scene.objects).is_none());
}

#[test]
fn total_reflection_has_no_refracted_ray() {
    // from inside glass at a grazing angle
    let normal = V3::new(0.0, 0.0, 1.0);
    let dir = V3::new(0.995, 0.0, 0.1).normalize();
    assert_eq!(refract(dir, normal, 1.5), V3::zero());
    // head on, the ray goes straight through
    let through = refract(V3::new(0.0, 0.0, -1.0), normal, 1.5);
    assert_eq!(through.normalize(), V3::new(0.0, 0.0, -1.0));
}
