pub mod text;
pub mod i18n;
pub mod crypto;
pub mod auth;
pub mod num;
pub mod captcha;
pub mod email;
pub mod config;
pub mod site;
pub mod content;
pub mod mail;
pub mod fmt;
pub mod admin_account;
pub mod media;
pub mod raster;
pub mod reviewer;
pub mod error;
pub mod api;
pub mod pages;
