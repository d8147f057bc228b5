pub mod graph;
pub mod instr;
pub mod layout;
pub mod sem;
pub mod sigparse;
pub mod transform;
pub mod types;
pub mod validate;

pub use crate::instr::load_value;
pub use crate::layout::calculate_size;
pub use crate::transform::parse;
