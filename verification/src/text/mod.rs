pub mod runs;
pub mod visibility;
