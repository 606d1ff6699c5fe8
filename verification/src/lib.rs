//! The scripting core of an in-game developer console.
//!
//! A submitted line goes through three stages: the [`tokenizer`] turns its
//! text into tokens, the [`grammar`] turns the tokens into expression trees,
//! and the [`interpreter`] evaluates the trees. A call is dispatched through
//! the table of [`functions`] to an operation of the game or to a scripted
//! function. The [`console`] holds the line being typed and the history, and
//! applies the keys to them.
//!
//! Two things are the embedding program's. It does the arithmetic of the
//! script's numbers, as a [`number::Arithmetic`], and it is the game on which
//! the commands act, a [`game_state::GameState`]. What it answers is handed
//! on as it comes; the contracts name the call that gave each answer.

pub mod number;
pub mod text;
pub mod tokenizer;
pub mod grammar;
pub mod interpreter;
pub mod game_state;
pub mod item;
pub mod functions;
pub mod console;
