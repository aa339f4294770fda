pub mod cmd;
pub mod hexes;
pub mod keys;
pub mod layout;
pub mod music;
pub mod text;
