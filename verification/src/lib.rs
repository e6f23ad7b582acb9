//! Aligns the version constraints declared in `pyproject.toml` with the
//! versions that `uv` resolved into `uv.lock`.

pub mod checks;
pub mod cli;
pub mod coverage;
pub mod deps;
pub mod edit;
pub mod laws;
pub mod messages;
pub mod normalise;
pub mod plain;
pub mod pep508;
pub mod report;
pub mod shapes;
pub mod style;
pub mod text;
pub mod toml_read;
