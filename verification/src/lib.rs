pub mod ai;
pub mod brett;
pub mod farbe;
