//! Line search over text and its configuration, with a handful of small
//! verified algorithms and data types beside it.
pub mod blog;
pub mod cache;
pub mod colors;
pub mod config;
pub mod egg_drop;
pub mod generics;
pub mod gui;
pub mod iterators;
pub mod matrix;
pub mod merge;
pub mod outline;
pub mod quota;
pub mod search;
pub mod shapes;
pub mod summary;
pub mod text;
