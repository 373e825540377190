pub mod ir;
pub mod spill;
