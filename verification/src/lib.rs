//! A task manager with a markdown viewer, verified with Verus.
//!
//! The heart of the crate is the pipeline that turns markdown text into a styled
//! document: `parser` reads the text into structural events, `interpreter` gathers
//! the text of the events into blocks, `highlight` colours the lines of code blocks,
//! and `color` resolves the colours of headings, links and plain text. `markdown` puts
//! the steps together, `document` and `event` hold the data, and `listing` picks the
//! markdown files out of a directory that was read.
//!
//! Around it stands the state of the application: tasks (`todo`), the task list with
//! its view settings (`todo_list`), themes (`theme`), points in time (`time`), and the
//! screens with what the user can do on them (`app`, `actions`).
//!
//! Every function has a contract over the mathematical value of its arguments, and
//! Verus proves the body against it. What other crates compute is called through
//! small functions whose contracts are believed without proof; each of them says in
//! its comment which function it calls and what it claims of it.

pub mod actions;
pub mod app;
pub mod color;
pub mod document;
pub mod event;
pub mod highlight;
pub mod interpreter;
pub mod listing;
pub mod markdown;
pub mod parser;
pub mod text;
pub mod theme;
pub mod time;
pub mod todo;
pub mod todo_list;
