//! The state of one MeshChat conversation: the messages received and sent so far, the text that
//! is being typed, and what the screen shows of them.
pub mod calendar;
pub mod channel_view;
pub mod clock;
pub mod config;
pub mod conversation;
pub mod conversation_id;
pub mod device;
pub mod emoji_picker;
pub mod history;
pub mod laws;
pub mod message;
pub mod receipt_laws;
pub mod timestamp;
pub mod update_laws;
pub mod view_laws;
