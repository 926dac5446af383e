//! A declarative transformation engine for HTTP messages: header and body
//! rewriting driven by minijinja templates.
pub mod config;
pub mod functions;
pub mod jinja;
pub mod ops;
pub mod text;
pub mod transform;

pub use config::{BodyParseBehavior, BodyTransform, LocalTransform, LocalTransformationConfig, NameValuePair};
pub use ops::TransformationOps;
