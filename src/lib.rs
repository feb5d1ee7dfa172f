//! Help-menu rendering and slash-command registration planning for a chat bot.
pub mod command;
pub mod commands;
pub mod groups;
pub mod help;
pub mod menu;
pub mod register;
