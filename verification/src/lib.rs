pub mod shortcuts;
pub mod text;
pub mod render_mode;
pub mod media_mode;
pub mod numbers;
pub mod models;
pub mod state;
pub mod spaces;
pub mod apps;
pub mod permissions;
pub mod links;
pub mod storage;
pub mod webviews;
pub mod lifecycle;
pub mod favicon;
pub mod dialog;
