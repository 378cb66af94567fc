//! Format patterns for describing packages: `{p}`, `{l}` and `{r}` stand for
//! a package's identifier, license and repository.

pub mod parse;
pub mod pattern;
pub mod theorems;
