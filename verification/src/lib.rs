//! Template-driven naming of media files from their metadata.
//!
//! A template string such as `"%artist - %title"` mixes literal text with
//! field references.  [`compile`] parses a template into a sequence of typed
//! elements, and [`evaluate`] resolves that sequence against a
//! [`MetadataRecord`], producing the output name or the first error.

mod error;
mod eval;
mod field;
mod numeral;
mod record;
mod template;

pub use error::CompileError;
pub use error::Error;
pub use error::EvalError;
pub use error::spec_from_compile;
pub use error::spec_from_eval;
pub use error::spec_message;
pub use eval::evaluate;
pub use eval::lemma_round_trip;
pub use eval::spec_evaluate;
pub use eval::spec_resolve;
pub use field::Field;
pub use field::spec_display_name;
pub use field::spec_key_field;
pub use numeral::decimal_string;
pub use numeral::spec_decimal;
pub use numeral::spec_digit;
pub use record::MetadataRecord;
pub use record::SpecRecord;
pub use template::CompiledTemplate;
pub use template::Element;
pub use template::SpecElement;
pub use template::Token;
pub use template::compile;
pub use template::element_matches_token;
pub use template::elements_view;
pub use template::is_lower;
pub use template::lemma_compile_covers;
pub use template::lemma_compile_deterministic;
pub use template::lemma_full_coverage;
pub use template::lemma_literal_end_bounds;
pub use template::lemma_lower_end_bounds;
pub use template::lemma_no_empty_literals;
pub use template::lemma_tokens_nonempty;
pub use template::literal_end;
pub use template::lower_end;
pub use template::spec_compile;
pub use template::spec_elements;
pub use template::spec_tokens;
pub use template::spec_tokens_from;
pub use template::starts_field;
pub use template::token_nonempty;
pub use template::token_text;
pub use template::tokens_text;
