//! Closes every open issue and pull request of one repository, as a GitHub App.
//!
//! The library holds the decisions of a run: reading the app's configuration,
//! building its signed credential, choosing the installation, walking the pages
//! of open items in order and rendering one progress line per item. The network
//! calls are made by the program that drives a [`session::Closer`].
pub mod credential;
pub mod error;
pub mod session;
pub mod text;
pub mod walk;

pub use credential::{app_credential, parse_app_id};
pub use error::RunError;
pub use session::{Action, Closer, Installation, Page, Phase, WorkItem};
pub use text::{decimal_string, log_line};
