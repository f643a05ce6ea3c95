//! What the request layer asks of the core beyond the store and admission.

pub mod extractors;
