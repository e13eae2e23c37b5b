//! A small sentence base: languages identified by ISO 639-3 codes and
//! sentences carrying text, a language, and an optional word-structure
//! markup whose flattened text must match the sentence content.

mod cors;
mod languages;
mod one_sentence;
mod sentences;
mod store;
mod structure;

pub use cors::CORS;
pub use languages::create_language;
pub use languages::get_all_sentences_of_language;
pub use languages::is_valid_iso639_3;
pub use one_sentence::edit_sentence_language;
pub use one_sentence::edit_sentence_structure;
pub use one_sentence::edit_sentence_text;
pub use one_sentence::get_sentence;
pub use one_sentence::get_sentence_by_content;
pub use sentences::create_sentence;
pub use sentences::create_sentence_with_id;
pub use sentences::cursor_pred;
pub use sentences::get_all_sentences;
pub use sentences::get_all_sentences_with_last_id;
pub use sentences::get_sentence_by_uuid_or_content_and_language;
pub use sentences::is_first_conflict;
pub use sentences::language_pred;
pub use sentences::lemma_get_after_create;
pub use sentences::lemma_structure_absent_round_trip;
pub use sentences::lemma_structure_round_trip;
pub use sentences::list_sentences;
pub use sentences::matches_uuid_or_pair;
pub use sentences::opt_view;
pub use sentences::page;
pub use sentences::seq_view;
pub use sentences::structure_fits;
pub use sentences::Sentence;
pub use sentences::SentenceView;
pub use sentences::SENTENCES_PER_PAGE;
pub use store::is_ascii_letter;
pub use store::language_exists;
pub use store::valid_iso;
pub use store::CreateSentenceError;
pub use store::EditLanguageError;
pub use store::EditStructureError;
pub use store::EditTextError;
pub use store::LanguageError;
pub use store::Store;
pub use store::StoreView;
pub use structure::end_tag;
pub use structure::flatten;
pub use structure::flatten_spec;
pub use structure::lemma_validate_stable;
pub use structure::scan_init;
pub use structure::scan_prefix;
pub use structure::scan_step;
pub use structure::validate;
pub use structure::validate_spec;
pub use structure::ScanState;
