pub mod coord;
