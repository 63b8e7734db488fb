pub mod attention;
pub mod continuity;
pub mod sleep;
pub mod thought;
