pub mod circle;
pub mod rectangle;
pub mod rounded_rectangle;

pub use circle::Circle;
pub use rectangle::{Intersection, Rectangle};
pub use rounded_rectangle::RoundedRectangle;
