pub mod curation;
pub mod graph_maps;
pub mod model;
pub mod command;
