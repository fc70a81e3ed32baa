pub mod text;
pub mod synthesis;
pub mod music;
pub mod markdown;
pub mod settings;
pub mod voice;
pub mod registry;
pub mod digits;
pub mod emoji;
pub mod message;
pub mod kana;
pub mod pager;
pub mod styles;
pub mod autoconnect;
pub mod connection;
pub mod managers;
