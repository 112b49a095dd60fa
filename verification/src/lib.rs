//! Session engine for an interactive process monitor: the state model,
//! the filter-sort pipeline that turns a metrics snapshot into the
//! ordered, displayable row list, the cursor-clamping rules, and the
//! keyboard transition table that drives the session.

pub mod engine;
pub mod model;
pub mod pipeline;
pub mod render;
pub mod select;
pub mod text;
