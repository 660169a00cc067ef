//! Verified core of a viewer for a Misskey note stream: account settings,
//! the normalisation of streamed notes into display records, the retry policy
//! of the streaming connections, and a deduplicating cache of decoded images.

pub mod config;
pub mod text;
pub mod note;
pub mod connection;
pub mod decode;
pub mod emoji;
pub mod miauth;
pub mod preview;

pub use config::{Account, AppConfig, TimelineType};
pub use emoji::{AnimatedEmoji, EmojiCache};
pub use miauth::MiAuthSession;
pub use note::EmojiInfo;
