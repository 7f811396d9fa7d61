pub mod compose;
pub mod defaults;
pub mod laws;
pub mod model;
pub mod num;
pub mod produce;
pub mod render;
pub mod sched;
pub mod text;

pub use model::Bar;
pub use model::Item;
