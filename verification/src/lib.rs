//! Template engine for base16 color schemes.
//!
//! A template is free text in which `{{...}}` placeholders stand for the
//! fields of a 16-entry color scheme: `{{scheme-author}}`, `{{scheme-name}}`,
//! and `{{baseNN-hex}}` (optionally lightened or darkened with `;+PP` /
//! `;-PP`). Rendering substitutes every recognized placeholder and passes all
//! other characters through unchanged.

pub mod apply_colors;
pub mod color;
pub mod error;
pub mod hex;
pub mod scheme;
