//! A small linear-algebra playground: a dense row-major matrix, a
//! coordinate-list matrix, and a univariate polynomial algebra whose
//! coefficient arithmetic is supplied by the caller, so that the shape of
//! every operation (lengths, zero padding, convolution indexing, canonical
//! rendering) is verified once for every coefficient type.

pub mod matrix;
pub mod polynomial;
pub mod render;
