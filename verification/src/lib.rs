//! Codecs for the community marker-string formats of a multi-map trial
//! editor: a simple numeric marker format, a hex-packed breadcrumb-line
//! format, and a bracket-delimited rich-marker format, together with the
//! zone/map model and the nearest-map resolution they share.

pub mod model;
pub mod numeric;
pub mod strutil;
pub mod colors;
pub mod icons;
pub mod zone;
pub mod table;
pub mod elms;
pub mod escape;
pub mod lines;
pub mod m0r;
