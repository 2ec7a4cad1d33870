//! What holds of the backend as a whole.
//!
//! - [`cells`]: what cells are, and what the library's values say.
//! - [`rows`]: how rows are laid out.
//! - [`links`]: what is asked for to lay out a row, and its hyperlinks.
//! - [`setup`]: what the page looks like once the grid is set up.
//! - [`frames`]: that the page shows what was drawn, after every frame.
//! - [`places`]: where on the page a drawn cell is seen.
//! - [`cursors`]: where the cursor is seen.
//! - [`work`]: what the page is asked to do, and what work does to it.
//! - [`steps`]: how the state goes on.
//! - [`handlers`]: which handlers are in place.
pub mod cells;
pub mod cursors;
pub mod frames;
pub mod handlers;
pub mod links;
pub mod places;
pub mod rows;
pub mod setup;
pub mod steps;
pub mod work;
