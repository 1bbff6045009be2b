//! Discovery and invocation planning for precompiled test binaries.
//!
//! From the messages of a build the library makes the list of test binaries
//! ([`binary_list`], which reads no line that is nested too deep for it,
//! [`nesting`]), and from it the artifacts that carry what a run needs
//! to know of a binary ([`suite`], with paths mapped by [`path_mapper`]). A
//! binary lists its tests itself; the library says how it is asked
//! ([`suite`]), reads what it answers ([`list_format`]), lets a filter judge
//! each test ([`filter`]) and gathers the tests of all binaries in one list
//! ([`test_list`]). For each test of the list it makes the invocation that
//! runs it ([`command`], [`runner`]). Lists are written out for people
//! ([`render`]) and handed on as summaries ([`summary`]). [`signal`] is the
//! source of cancellation events.
//!
//! Every function states what it returns over the models of its arguments.
//! Calls into `camino`, `cargo_metadata`, `indent_write` and `owo_colors`
//! stand behind small functions whose contracts are taken on trust; each of
//! them says so.

pub mod binary_list;
pub mod command;
pub mod errors;
pub mod filter;
pub mod keymap;
pub mod list_format;
pub mod nesting;
pub mod order;
pub mod package;
pub mod path;
pub mod path_mapper;
pub mod platform;
pub mod render;
pub mod runner;
pub mod signal;
pub mod sort;
pub mod suite;
pub mod summary;
pub mod test_list;
pub mod text;
