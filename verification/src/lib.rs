//! Window classification and ad suppression engine for the KakaoTalk desktop
//! client.
//!
//! The library holds the decisions: it is handed plain observations of the
//! desktop (processes, windows, their class names, texts and parents) and
//! answers with updated tracking state and a list of window actions to carry
//! out. Querying the operating system and performing the actions is left to
//! the caller.

pub mod cycles;
pub mod debug_info;
pub mod handles;
pub mod icon;
pub mod locale;
pub mod process;
pub mod state;
pub mod suppress;
pub mod text;
pub mod version;
pub mod watch;
pub mod window;

pub use state::AdBlockState;
