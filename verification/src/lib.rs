pub mod text;
pub mod json;
pub mod transcript_naming;
pub mod transcript_paths;
pub mod session_files;
pub mod tab_title;
pub mod project_layout;
