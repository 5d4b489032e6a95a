//! Static site generation from a tree of Markdown documents: discovery of
//! sources, title extraction and rendering, mapping of source paths onto an
//! output tree, page assembly from header and footer templates, and the
//! asset manifest.

pub mod text;
pub mod convert;
pub mod paths;
pub mod template;
pub mod assets;
pub mod scan;
pub mod site;
