pub mod captcha;
pub mod cli;
pub mod data;
pub mod discovery;
pub mod extend;
pub mod flow;
pub mod form;
pub mod html;
pub mod login;
pub mod page;
pub mod params;
pub mod retry;
pub mod schedule;
pub mod session;
pub mod text;
