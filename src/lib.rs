//! Interactive pane search, multi-selection and relocation.
//!
//! The library holds the whole decision logic of the picker: the pane and tab
//! inventory, the case-insensitive substring match engine, the marking set,
//! the two cyclic cursors and the key router that turns keystrokes into state
//! transitions and relocation commands. The host side (event delivery,
//! rendering, moving panes) lives outside.
pub mod cursor;
pub mod inventory;
pub mod matching;
pub mod pane_id;
pub mod router;
pub mod state;
pub mod text;
pub mod window;
