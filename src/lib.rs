pub mod lanes;
pub mod par;
pub mod laws;
