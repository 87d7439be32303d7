pub mod dealing;
pub mod eval;
pub mod game;
pub mod session;
pub mod structs;
pub mod sums;

pub use game::Board;
pub use game::Game;
pub use session::StepOk;
