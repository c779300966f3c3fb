//! Translates Kubernetes workload manifests (Deployments, Jobs) into an
//! equivalent Docker-Compose document: locating YAML documents across
//! the given inputs, classifying each into a typed workload object while
//! tolerating unrecognized kinds, mapping each workload's pod
//! specification into named services, and writing the result as YAML
//! text. File and directory reading stay with the caller; everything
//! here works on plain values.

pub mod classify;
pub mod compose;
pub mod convert;
pub mod emit;
pub mod laws;
pub mod load;
pub mod model;
pub mod parse;
pub mod pipeline;
pub mod resolve;
pub mod yaml;

pub use compose::Compose;
pub use compose::Port;
pub use compose::Service;
pub use compose::Version;
pub use convert::Converter;
pub use model::Object;
pub use model::ObjectKind;
pub use yaml::YamlNode;
pub use yaml::YamlVal;
