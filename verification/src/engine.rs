pub mod heap;
pub mod interpretter;
pub mod lexer;
pub mod scope;
pub mod stack;
pub mod state;
pub mod tokens;
