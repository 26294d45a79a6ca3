//! Field unification and accessor synthesis for tagged-union descriptions.
//!
//! Given the description of a sum type — a name, opaque generic parameters,
//! and an ordered sequence of variants whose payloads are named fields,
//! positional fields, or nothing — this library decides, for every field name
//! occurring anywhere in the union, whether the field is *uniform* (present in
//! every variant with one identical declared type) or *partial* (present in
//! only some variants, or present everywhere but at differing types), and
//! synthesizes a matching pair of accessors per field name: a read accessor
//! and a write accessor that agree on optionality and on per-variant
//! presence.
//!
//! The host language's parser and code emitter are external collaborators:
//! the library consumes an already-parsed [`description::TypeDescription`]
//! and hands back [`synth::GeneratedImpl`], a structure ready to be lowered
//! into concrete syntax.

pub mod collect;
pub mod description;
pub mod eval;
pub mod laws;
pub mod synth;
pub mod unify;
