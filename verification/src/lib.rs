pub mod text;
pub mod i18n;
pub mod ui;
pub mod reactive;
pub mod qt_build;
pub mod cli;
pub mod locale;
