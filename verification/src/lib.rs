pub mod state;
pub mod frame;
pub mod universe;
pub mod laws;

pub use state::HISTORY_LEN;
pub use universe::Universe;
