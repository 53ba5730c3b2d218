//! Renders inlay hints (inferred types, parameter names, chaining results,
//! binding modes, elided lifetimes, closing-brace labels) back into source
//! text as inline markup.

pub mod hint;
pub mod markup;
pub mod laws;
pub mod source;
pub mod paths;
