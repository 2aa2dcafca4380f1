//! A child-process execution library: a typestate command builder that cannot
//! be run before a working directory is supplied, shell-safe display rendering
//! of the assembled command line, classification of process outcomes into a
//! uniform error taxonomy, and a resolver that locates executables on a search
//! path.

pub mod escape;
pub mod process;
pub mod resolver;
pub mod text;
