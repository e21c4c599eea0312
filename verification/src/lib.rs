pub mod lsp;
pub mod manifest;
pub mod oxfmt;
pub mod oxlint;
pub mod path;
pub mod vite_plus;
