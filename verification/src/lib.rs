pub mod text;
pub mod native;
pub mod linuxkit;
pub mod mobile_fs;
pub mod mobile_shell;
pub mod bridge;
pub mod paths;
pub mod settings;
