//! Collects information about a package at the time it is built (its
//! metadata, the compiler, the enabled features, the repository's HEAD, the
//! Continuous Integration platform, the resolved dependencies and the build
//! time) and renders it as a module of constant declarations.
//!
//! The environment is taken as an explicit snapshot, an `EnvironmentMap`; what
//! only the operating system can give (running the compiler, reading the
//! repository, the lock document and the clock) is handed in as plain values.
pub mod ci;
pub mod emit;
pub mod env;
pub mod lock;
pub mod options;
pub mod order;
pub mod text;

pub use ci::CIPlatform;
pub use emit::{
    git_descriptor,
    head_descriptor,
    render_built_file,
    version_from_output,
    write_ci,
    write_compiler_version,
    write_dependencies,
    write_env,
    write_features,
    write_git_version,
    write_time,
    BuildInfo,
    GenError,
    RepoLookup,
};
pub use env::EnvironmentMap;
pub use lock::{collect_dependencies, parse_dependencies, LockError, LockPackage};
pub use options::Options;
pub use text::fmt_option_str;
