//! Registry of git projects with curated branch lists, and the decision logic
//! of the stash / checkout / pop workflow that switches between them.
pub mod text;
pub mod seqs;
pub mod registry;
pub mod store;
pub mod resolve;
pub mod git;
pub mod checkout;
pub mod session;
pub mod list;
pub mod widgets;
