//! The decisions of a terminal backend that draws into a web page.
//!
//! A terminal hands the backend the cells that changed; the backend turns them
//! into work on the page: one `<span>` per cell, one `<pre>` per row, and one
//! `<a>` around each run of hyperlink cells. This crate keeps the backend's
//! state and decides on that work, as a list of [`effect::Effect`]s. It never
//! touches a page itself.
//!
//! - [`text`]: the strings that go into attributes.
//! - [`geometry`]: sizes, positions, and where a position lies in the buffer.
//! - [`cell`]: a terminal cell as the page sees it.
//! - [`options`]: how the backend is set up.
//! - [`effect`]: the work that is asked of the page.
//! - [`row`]: the work that rebuilds one row, and the row that it leaves.
//! - [`frame`]: what one frame does to the state, and the work it asks for.
//! - [`backend`]: the backend itself, and [`state`], what it is about.
//! - [`page`]: a model of the page, and of what work does to it.
//! - [`laws`]: what holds of the backend as a whole.
//! - [`outside`]: what is taken on trust of other crates.
pub mod backend;
pub mod cell;
pub mod effect;
pub mod frame;
pub mod geometry;
pub mod laws;
pub mod options;
pub mod outside;
pub mod page;
pub mod row;
pub mod state;
pub mod text;
