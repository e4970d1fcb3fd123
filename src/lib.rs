//! Redirects one dependency of a Cargo manifest to an editable local clone:
//! classifies how the dependency is declared, works out a clonable repository
//! address, finds the package inside a cloned tree, and merges a `[patch]`
//! entry into the model of the project's `.cargo/config.toml`.
pub mod config;
pub mod manifest;
pub mod plan;
pub mod repository;
pub mod text;
pub mod workspace;

pub use config::{CargoConfig, PatchConfig};
pub use manifest::{CargoToml, DependencyDefinition, DependencyInfo, DependencyType};
pub use plan::{find_similar_crate, CrateInfo};
pub use repository::{extract_crate_name_from_git_url, is_git_url};
pub use workspace::WorkspaceDetector;
