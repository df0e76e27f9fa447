pub mod text;
pub mod numbers;
pub mod voicevox;
pub mod buttons;
pub mod utils;
pub mod message;
pub mod antispam;
pub mod config;
pub mod deleted_messages;
pub mod translate;
pub mod music;
