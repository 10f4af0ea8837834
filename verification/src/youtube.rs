//! Resolving a playable audio stream for a video: reading the decoding routine
//! out of the provider's client script, replaying it on a signature, choosing a
//! format and rebuilding its address.
pub mod cipher;
pub mod extract;
pub mod streams;
pub mod resolve;
