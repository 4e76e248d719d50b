pub mod approx;
pub mod canvas;
pub mod color;
pub mod matrix;
pub mod point;
pub mod ray;
pub mod scalar;
pub mod tuple;
pub mod vector;
