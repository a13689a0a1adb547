//! Driving a browser page by scripts: which scripts an operation has evaluated, and what it makes
//! of the replies.
//!
//! The library decides and never evaluates. [`Page`] and [`Element`] hold the operations; each is
//! a function from what has happened so far to what is to be done next. The caller owns the script
//! engine, does what an operation asks for, and comes back with what came of it.

pub mod decimal;
pub mod double;
pub mod element;
pub mod error;
pub mod json;
pub mod keyboard;
pub mod literal;
pub mod page;
pub mod reply;
pub mod script;
pub mod step;
pub mod string;
pub mod typing;

pub use element::Element;
pub use error::Error;
pub use page::Page;
pub use reply::Reply;
pub use step::Step;
