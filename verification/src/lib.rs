//! Interactive editing commands of a drawing program and the document
//! operations behind its plugin interface.
pub mod command;
pub mod curve_laws;
pub mod divide;
pub mod doc_api;
pub mod doc_edits;
pub mod doc_entities;
pub mod doc_laws;
pub mod doc_layers;
pub mod doc_queries;
pub mod doc_records;
pub mod doc_solids;
pub mod document;
pub mod draw_panel;
pub mod entity;
pub mod handle_map;
pub mod hatchedit;
pub mod hatchedit_laws;
pub mod lengthen;
pub mod ncopy;
pub mod pedit;
pub mod pedit_laws;
pub mod polyline;
pub mod polyline_laws;
pub mod prompt_laws;
pub mod record_laws;
pub mod refusal_laws;
pub mod setbylayer;
pub mod spline;
pub mod spline_laws;
pub mod splinedit;
pub mod tables;
pub mod text;
pub mod text_laws;
pub mod tool_laws;
pub mod value;
