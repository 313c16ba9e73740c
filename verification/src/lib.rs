//! Client-side logic of a bookmark manager: loading states, bookmark query
//! parameters, tag auto-completion, search-term highlighting, routes and the
//! state machines behind its forms.

pub mod account_forms;
pub mod bookmark_forms;
pub mod bookmark_list;
pub mod data;
pub mod eventually;
pub mod text;
pub mod url;
pub mod highlight;
pub mod provider;
pub mod query;
pub mod routes;
pub mod shell;
pub mod tag_input;
