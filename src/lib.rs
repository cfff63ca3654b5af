pub mod document;
pub mod editor;
pub mod highlighting;
pub mod row;
pub mod search;
pub mod text;

pub use document::{Document, Position};
pub use editor::{
    Editor, Effect, InteractionMode, Key, KeyAction, PromptState, SaveOutcome, Size, StatusMessage,
};
pub use highlighting::Type as HighlightType;
pub use row::Row;
pub use search::{Direction, SearchState};
pub mod commands;

pub use commands::{Command, CommandAction, Commands, Invocation, PatternError};
