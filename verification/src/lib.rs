//! Frame-content decoding engine for ID3v2 metadata tags.
//!
//! Given the raw payload of one frame, its 3-4 character identifier, and the
//! tag's format version, the engine classifies the frame via a fixed, ordered
//! rule table and decodes its body into a strongly typed value: generic text,
//! link and language frames are decoded here in full, while compound frame
//! kinds (pictures, extended text/URL, unique file identifiers, popularity
//! ratings) are classified and their payloads handed through verbatim for
//! collaborator parsers outside this engine. Malformed or truncated input
//! never panics: a frame body too short for its shape decodes to no value,
//! and an illegal marker or malformed text fails that one frame alone.

pub mod content;
pub mod cursor;
pub mod encoding;
pub mod text;
