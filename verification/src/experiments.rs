pub mod circle;
pub mod clock;
pub mod pattern;
pub mod projectile;
pub mod scene;
pub mod sphere;
pub mod validity;
