pub mod board;
pub mod counter;
pub mod laws;
pub mod model;
pub mod search;
pub mod store;

pub use board::Board;
pub use model::{Comment, Error, Message, MessagePayload, Report, SetupError, User, UserId};
