pub mod list;
pub mod namemap;
pub mod profile;
pub mod text;
pub mod tui;
pub mod util;
