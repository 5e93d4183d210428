//! What holds of the library as a whole: laws that relate several operations,
//! stated over what the operations' contracts say of them.
pub mod animation;
pub mod dispatch;
pub mod parser;
pub mod placement;
pub mod state;
