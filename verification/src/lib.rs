//! Declarative window workbenches for the Niri compositor.
pub mod accept_laws;
pub mod action_laws;
pub mod app_laws;
pub mod apply;
pub mod apps;
pub mod canvas;
pub mod capture;
pub mod capture_form;
pub mod capture_laws;
pub mod command_laws;
pub mod commands;
pub mod config;
pub mod config_laws;
pub mod desktop;
pub mod doctor;
pub mod draft_laws;
pub mod edit_laws;
pub mod editing;
pub mod editor;
pub mod environment;
pub mod event_laws;
pub mod events;
pub mod execute;
pub mod group_laws;
pub mod i18n;
pub mod i18n_laws;
pub mod icons;
pub mod interface;
pub mod launch;
pub mod launch_laws;
pub mod layout_laws;
pub mod lists;
pub mod match_laws;
pub mod matcher;
pub mod message_laws;
pub mod model;
pub mod names;
pub mod naming;
pub mod outputs;
pub mod outside;
pub mod pages;
pub mod path_laws;
pub mod paths;
pub mod picker;
pub mod plan_laws;
pub mod planner;
pub mod process;
pub mod progress_laws;
pub mod quick;
pub mod report;
pub mod report_laws;
pub mod resolve;
pub mod resolve_laws;
pub mod same;
pub mod save_laws;
pub mod saving;
pub mod session;
pub mod settings;
pub mod shell_laws;
pub mod show;
pub mod sizes;
pub mod snapshot_laws;
pub mod spawn;
pub mod spawn_laws;
pub mod system_laws;
pub mod text;
pub mod view_laws;
