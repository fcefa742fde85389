pub mod text;
pub mod conf;
pub mod clock;
pub mod prayer;
pub mod notif;
pub mod indicator;
pub mod input;
pub mod ui_state;
pub mod settings;
pub mod data;
pub mod state;
pub mod menu;
pub mod provider;
