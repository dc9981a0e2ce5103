//! A sphere-marching renderer for scenes given as signed distance fields,
//! computed in saturating fixed-point arithmetic.

pub mod basis;
mod convert;
pub mod fixed;
pub mod lights;
pub mod material;
pub mod objects;
pub mod post_process;
mod random;
pub mod renderer;
pub mod scene;
pub mod showcase;
pub mod util;
pub mod vec;
mod vec_ops;

pub use fixed::Fixed;
pub use lights::DirectionalLight;
pub use lights::ImmediateLight;
pub use lights::Light;
pub use lights::LightSample;
pub use lights::PointLight;
pub use material::BasicMaterial;
pub use material::Material;
pub use material::MaterialSample;
pub use objects::cube;
pub use objects::sphere;
pub use objects::Cube;
pub use objects::Object;
pub use objects::RenderedObject;
pub use objects::Scaled;
pub use objects::Shape;
pub use objects::Sphere;
pub use objects::Translated;
pub use post_process::AcesFilmicCurve;
pub use post_process::AdjustExposure;
pub use post_process::PostProcessor;
pub use renderer::Renderer;
pub use scene::Scene;
pub use util::random_bounce_direction;
pub use util::MAX_SDF_DISTANCE;
pub use util::MIN_SDF_DISTANCE;
pub use vec::Vec3;
