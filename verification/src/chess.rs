pub mod nrof;
pub mod piece;
