//! The logic of a small personal site: a navigation frame, a blog, a gallery
//! of images in fixed sizes, and a resolver that turns a video identifier
//! into a playable audio stream.
pub mod base;
pub mod blog;
pub mod code_art;
pub mod dates;
pub mod digest;
pub mod err;
pub mod header;
pub mod markup;
pub mod pictures;
pub mod regex_calls;
pub mod robots;
pub mod static_pages;
pub mod text;
pub mod url_calls;
pub mod youtube;
