//! Site scaffolding: classify a project directory into a site structure and
//! render HTML pages from templates with `{{title}}` / `{{content}}` tokens.

pub mod text;
pub mod site;
pub mod markup;
pub mod template;
pub mod session;
pub mod blog;
