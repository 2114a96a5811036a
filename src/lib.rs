pub mod book;
pub mod codes;
pub mod command;
pub mod compose;
pub mod config;
pub mod definition;
pub mod markup;
pub mod span;
pub mod state;
pub mod text;

pub use book::Book;
pub use codes::Codes;
pub use command::{Command, Effect, Key};
pub use config::{Config, Span};
pub use definition::{Definition, JsonValue};
pub use state::State;
