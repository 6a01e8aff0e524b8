use vstd::prelude::*;
use vstd::std_specs::cmp::PartialEqSpecImpl;
use crate::color::Color;
use crate::lights::PointLight;
use crate::patterns::{Pattern, Solid};
use crate::scalar::Scalar;
use crate::shapes::Shape;
use crate::tuples::{Point, Vector};

verus! {

/// How a surface answers to light, and the pattern that colors it.
#[derive(Debug)]
pub struct Material {
    pub ambient: Scalar,
    pub diffuse: Scalar,
    pub specular: Scalar,
    pub shininess: Scalar,
    pub reflective: Scalar,
    pub transparency: Scalar,
    pub refractive_index: Scalar,
    pub pattern: Pattern,
}

impl Clone for Material {
    fn clone(&self) -> (r: Self)
        ensures
            r == *self,
    {
        Material {
            ambient: self.ambient,
            diffuse: self.diffuse,
            specular: self.specular,
            shininess: self.shininess,
            reflective: self.reflective,
            transparency: self.transparency,
            refractive_index: self.refractive_index,
            pattern: self.pattern.clone(),
        }
    }
}

impl Material {
    pub open spec fn spec_new() -> Material {
        Material {
            ambient: Scalar::spec_from_ratio(1, 10),
            diffuse: Scalar::spec_from_ratio(9, 10),
            specular: Scalar::spec_from_ratio(9, 10),
            shininess: Scalar::spec_from_int(200),
            reflective: Scalar::zero(),
            transparency: Scalar::zero(),
            refractive_index: Scalar::one(),
            pattern: Solid::spec_new(Color::white()),
        }
    }

    /// The default material: ambient 0.1, diffuse and specular 0.9,
    /// shininess 200, not mirroring, white all over.
    pub fn new() -> (m: Material)
        ensures
            m == Material::spec_new(),
    {
        Material {
            ambient: Scalar::from_ratio(1, 10),
            diffuse: Scalar::from_ratio(9, 10),
            specular: Scalar::from_ratio(9, 10),
            shininess: Scalar::from_int(200),
            reflective: Scalar::zero(),
            transparency: Scalar::zero(),
            refractive_index: Scalar::one(),
            pattern: Solid::new(Color::white()),
        }
    }

    /// The part of the light that the surface gives back whatever the
    /// light's direction: the pattern's color at the point, blended with
    /// the light, times `ambient`.
    pub open spec fn spec_ambient_part(&self, light: &PointLight, point: Point, object: &Shape) -> Color {
        self.pattern.spec_at_object(object, point).hadamard(light.intensity).mul(self.ambient)
    }

    /// The diffuse and the specular part of a lit point, summed.
    pub open spec fn spec_lit_part(
        &self,
        light: &PointLight,
        point: Point,
        eyev: Vector,
        normalv: Vector,
        object: &Shape,
    ) -> (Color, Color) {
        let effective = self.pattern.spec_at_object(object, point).hadamard(light.intensity);
        let lightv = light.position.sub(point).normalize();
        let light_dot_normal = lightv.spec_dot(&normalv);
        if light_dot_normal.is_negative() {
            (Color::black(), Color::black())
        } else {
            let diffuse = effective.mul(self.diffuse).mul(light_dot_normal);
            let reflect_dot_eye = lightv.neg().reflect(normalv).spec_dot(&eyev);
            if reflect_dot_eye.le(Scalar::zero()) {
                (diffuse, Color::black())
            } else {
                (
                    diffuse,
                    light.intensity.mul(self.specular).mul(reflect_dot_eye.powf(self.shininess)),
                )
            }
        }
    }

    /// The color of a point under one light. In shadow it is the ambient
    /// part alone. Else the diffuse part is added where the light stands
    /// on the side of the normal, and the specular part where its mirror
    /// image points toward the eye.
    #[verifier::opaque]
    pub open spec fn spec_lighting(
        &self,
        light: &PointLight,
        point: Point,
        eyev: Vector,
        normalv: Vector,
        in_shadow: bool,
        object: &Shape,
    ) -> Color {
        let ambient = self.spec_ambient_part(light, point, object);
        if in_shadow {
            ambient
        } else {
            let lit = self.spec_lit_part(light, point, eyev, normalv, object);
            ambient.add(lit.0).add(lit.1)
        }
    }

    /// The color of a point of an object's surface under a light, seen
    /// from `eyev`, with the normal `normalv`.
    pub fn lighting(
        &self,
        light: &PointLight,
        point: Point,
        eyev: Vector,
        normalv: Vector,
        in_shadow: bool,
        object: &Shape,
    ) -> (c: Color)
        requires
            self.pattern.valid(),
            object.transformation.spec_is_transformation(),
        ensures
            c == self.spec_lighting(light, point, eyev, normalv, in_shadow, object),
    {
        reveal(Material::spec_lighting);
        let color = self.pattern.at_object(object, point);
        let effective = color.hadamard(light.intensity);
        let ambient = effective.mul(self.ambient);
        if in_shadow {
            return ambient;
        }
        let lightv = light.position.sub(point).normalize();
        let light_dot_normal = lightv.dot(&normalv);
        if light_dot_normal.is_negative() {
            return ambient.add(Color::black()).add(Color::black());
        }
        let diffuse = effective.mul(self.diffuse).mul(light_dot_normal);
        let reflect_dot_eye = lightv.neg().reflect(normalv).dot(&eyev);
        if reflect_dot_eye.le(Scalar::zero()) {
            return ambient.add(diffuse).add(Color::black());
        }
        let factor = reflect_dot_eye.powf(self.shininess);
        let specular = light.intensity.mul(self.specular).mul(factor);
        ambient.add(diffuse).add(specular)
    }

    /// Whether the four coefficients of the lighting are the same and the
    /// patterns are equal.
    pub open spec fn spec_equals(&self, other: &Material) -> bool {
        self.ambient == other.ambient && self.diffuse == other.diffuse && self.specular
            == other.specular && self.shininess == other.shininess && self.pattern.spec_equals(
            &other.pattern,
        )
    }
}

impl PartialEq for Material {
    fn eq(&self, other: &Self) -> (r: bool) {
        self.ambient == other.ambient && self.diffuse == other.diffuse && self.specular
            == other.specular && self.shininess == other.shininess && self.pattern.equals(
            &other.pattern,
        )
    }
}

impl PartialEqSpecImpl for Material {
    open spec fn obeys_eq_spec() -> bool {
        true
    }

    open spec fn eq_spec(&self, other: &Self) -> bool {
        self.spec_equals(other)
    }
}

} // verus!
