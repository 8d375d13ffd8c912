//! PathWarp's platform-independent core: the overlay controller state machine,
//! path filtering and selection, and the decision logic around file dialogs,
//! keyboard input, Explorer paths and logging configuration.

pub mod types;
pub mod text;
pub mod window;
pub mod controller;
pub mod controller_laws;
pub mod logging;
pub mod dialog;
pub mod monitor;
pub mod input_hook;
pub mod explorer;
pub mod overlay;
