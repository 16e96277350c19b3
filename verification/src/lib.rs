pub mod items;
pub mod laws;
pub mod rule_laws;
pub mod ordered;
pub mod pack_shapes;
pub mod pokemon;
pub mod shop;
pub mod state;
pub mod step_events;
pub mod text;
pub mod special_routines;
