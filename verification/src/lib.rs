//! Front end of a streaming-media fetch tool: classifies the input,
//! derives file names, parses the quality and key grammars, checks the
//! client options and chooses among the links found on a web page, so
//! that the download engine gets one resolved task.

pub mod client;
pub mod input;
pub mod keys;
pub mod links;
pub mod mux;
pub mod naming;
pub mod quality;
pub mod save;
pub mod text;
pub mod validate;
