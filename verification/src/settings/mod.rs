//! The household settings tool: labels for states and values, and the
//! checks on a record being edited.

pub mod editor;
pub mod labels;
