//! The Profile tab.

pub mod age;
pub mod apply;
pub mod assign;
pub mod board;
pub mod by_plugin;
pub mod by_plugin_page;
pub mod detail;
pub mod explain;
pub mod on_demand_help;
pub mod pool;
pub mod roots;
pub mod rules;
pub mod rules_page;
pub mod tab;
pub mod tab_page;

pub use self::tab::{ProfileView, Sub, ViewMode};
