//! A static-site pipeline for a tree of Markdown notes: rendering with heading
//! anchors, a table of contents and rewritten links; resolving requested paths
//! to resources; and the decisions behind building, serving and watching.

pub mod assets;
pub mod git;
pub mod markdown;
pub mod parallel;
pub mod paths;
pub mod serve;
pub mod site;
pub mod text;
pub mod watch;
