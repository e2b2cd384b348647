//! Sirius: the verified core of a distro-agnostic diagnostic installer.

pub mod text;
pub mod i18n;
pub mod config_model;
pub mod storage;
pub mod lsblk;
pub mod draft;
pub mod navigator;
pub mod diag;
pub mod pages;
pub mod state;
pub mod adapter;
pub mod summary;
pub mod network;
pub mod runner;
pub mod logging;
pub mod distro;
pub mod storage_editor;
pub mod storage_page;
pub mod choices;
