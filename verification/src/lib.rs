//! Core types for creating and encoding mails: a byte level encoder for
//! mail data, character classes of the mail grammars, transfer encodings of
//! body buffers, media types, headers, resources and the mail tree built
//! from them.

pub mod char_validators;

pub mod error;
pub mod iri;
pub mod encodings;
pub mod codec;
pub mod text;
pub mod media_type;
pub mod date_time;
pub mod file_buffer;
pub mod components;
pub mod resource;
pub mod headers;
pub mod mime;
pub mod mail;
pub mod fs_loader;
pub mod composition;
pub mod id_gen;
pub mod body;
