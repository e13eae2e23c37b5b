//! The storage model: the language and sentence tables with their
//! schema constraints, the error taxonomy, and its mapping to HTTP
//! statuses.
//!
//! The store keeps languages and sentences in creation order and
//! maintains the schema's constraints as an invariant: every language
//! code is exactly three ASCII letters and unique; every sentence has
//! a unique identifier, a unique (text, language) pair, and a
//! language that exists.  Every operation checks a constraint and
//! applies its change in one step, so a violated constraint rejects
//! the write atomically.

use vstd::prelude::*;

use crate::sentences::{Sentence, SentenceView};

verus! {

/// The two tables.  A `Store` made by [`Store::new`] and touched only
/// through the operations of this crate stays well formed.
pub struct Store {
    /// The ISO 639-3 codes of the known languages, in creation order.
    pub languages: Vec<String>,
    /// The sentences, in creation order; every stored sentence has an
    /// identifier.
    pub sentences: Vec<Sentence>,
}

/// The mathematical value of a store.
pub ghost struct StoreView {
    pub languages: Seq<Seq<char>>,
    pub sentences: Seq<SentenceView>,
}

impl View for Store {
    type V = StoreView;

    open spec fn view(&self) -> StoreView {
        StoreView {
            languages: self.languages@.map_values(|s: String| s@),
            sentences: self.sentences@.map_values(|s: Sentence| s@),
        }
    }
}

/// An ASCII letter.
pub open spec fn is_ascii_letter(c: char) -> bool {
    (97 <= c as u32 && c as u32 <= 122) || (65 <= c as u32 && c as u32 <= 90)
}

/// A well-formed ISO 639-3 code: exactly three ASCII letters.
pub open spec fn valid_iso(code: Seq<char>) -> bool {
    code.len() == 3 && forall|i: int| 0 <= i < code.len() ==> is_ascii_letter(#[trigger] code[i])
}

impl StoreView {
    /// A language with this code exists.
    pub open spec fn has_language(self, code: Seq<char>) -> bool {
        exists|i: int| 0 <= i < self.languages.len() && self.languages[i] == code
    }

    /// A sentence with this identifier exists.
    pub open spec fn has_sentence_id(self, id: u128) -> bool {
        exists|i: int| 0 <= i < self.sentences.len() && self.sentences[i].id == Some(id)
    }

    /// A sentence with this text in this language exists.
    pub open spec fn has_pair(self, text: Seq<char>, code: Seq<char>) -> bool {
        exists|i: int|
            0 <= i < self.sentences.len() && self.sentences[i].text == text
                && self.sentences[i].iso639_3 == code
    }

    /// The sentence with this identifier, if any.  In a well-formed
    /// store at most one sentence bears an identifier, so the choice
    /// is determined.
    pub open spec fn spec_get(self, id: u128) -> Option<SentenceView> {
        if self.has_sentence_id(id) {
            Some(
                self.sentences[choose|i: int|
                    0 <= i < self.sentences.len() && self.sentences[i].id == Some(id)],
            )
        } else {
            None
        }
    }

    /// The schema's constraints.
    pub open spec fn wf(self) -> bool {
        &&& forall|i: int| 0 <= i < self.languages.len() ==> valid_iso(#[trigger] self.languages[i])
        &&& forall|i: int, j: int|
            0 <= i < j < self.languages.len() ==> #[trigger] self.languages[i]
                != #[trigger] self.languages[j]
        &&& forall|i: int|
            0 <= i < self.sentences.len() ==> (#[trigger] self.sentences[i]).id is Some
        &&& forall|i: int, j: int|
            0 <= i < j < self.sentences.len() ==> (#[trigger] self.sentences[i]).id
                != (#[trigger] self.sentences[j]).id
        &&& forall|i: int, j: int|
            0 <= i < j < self.sentences.len() ==> !((#[trigger] self.sentences[i]).text
                == (#[trigger] self.sentences[j]).text && self.sentences[i].iso639_3
                == self.sentences[j].iso639_3)
        &&& forall|i: int|
            0 <= i < self.sentences.len() ==> self.has_language(
                (#[trigger] self.sentences[i]).iso639_3,
            )
    }
}

impl Store {
    /// An empty store.
    pub fn new() -> (s: Store)
        ensures
            s@.wf(),
            s@.languages.len() == 0,
            s@.sentences.len() == 0,
    {
        let s = Store { languages: Vec::new(), sentences: Vec::new() };
        proof {
            assert(s@.languages =~= Seq::<Seq<char>>::empty());
            assert(s@.sentences =~= Seq::<SentenceView>::empty());
        }
        s
    }
}

/// Whether two strings hold the same characters.
pub(crate) fn str_equal(a: &str, b: &str) -> (r: bool)
    ensures
        r == (a@ == b@),
{
    let n = a.unicode_len();
    if n != b.unicode_len() {
        return false;
    }
    let mut k: usize = 0;
    while k < n
        invariant
            n == a@.len(),
            n == b@.len(),
            0 <= k <= n,
            forall|m: int| 0 <= m < k ==> a@[m] == b@[m],
        decreases n - k,
    {
        if a.get_char(k) != b.get_char(k) {
            return false;
        }
        k = k + 1;
    }
    assert(a@ =~= b@);
    true
}

/// Whether a language with this code exists in the store.
pub fn language_exists(store: &Store, code: &str) -> (r: bool)
    ensures
        r == store@.has_language(code@),
{
    let n = store.languages.len();
    let mut i: usize = 0;
    while i < n
        invariant
            n == store.languages@.len(),
            0 <= i <= n,
            forall|j: int| 0 <= j < i ==> store@.languages[j] != code@,
        decreases n - i,
    {
        if str_equal(store.languages[i].as_str(), code) {
            assert(store@.languages[i as int] == code@);
            return true;
        }
        i = i + 1;
    }
    false
}

/// The position of the sentence with this identifier, if any.
pub(crate) fn find_by_id(store: &Store, id: u128) -> (r: Option<usize>)
    ensures
        match r {
            Some(i) => i < store.sentences.len() && store@.sentences[i as int].id == Some(id),
            None => !store@.has_sentence_id(id),
        },
{
    let n = store.sentences.len();
    let mut i: usize = 0;
    while i < n
        invariant
            n == store.sentences@.len(),
            0 <= i <= n,
            forall|j: int| 0 <= j < i ==> store@.sentences[j].id != Some(id),
        decreases n - i,
    {
        match store.sentences[i].id {
            Some(stored_id) => {
                if stored_id == id {
                    assert(store@.sentences[i as int].id == Some(id));
                    return Some(i);
                }
            },
            None => {},
        }
        i = i + 1;
    }
    None
}

/// The position of the sentence with this text in this language, if
/// any.
pub(crate) fn find_pair(store: &Store, text: &String, code: &String) -> (r: Option<usize>)
    ensures
        match r {
            Some(i) => i < store.sentences.len() && store@.sentences[i as int].text == text@
                && store@.sentences[i as int].iso639_3 == code@,
            None => !store@.has_pair(text@, code@),
        },
{
    let n = store.sentences.len();
    let mut i: usize = 0;
    while i < n
        invariant
            n == store.sentences@.len(),
            0 <= i <= n,
            forall|j: int|
                0 <= j < i ==> !(store@.sentences[j].text == text@ && store@.sentences[j].iso639_3
                    == code@),
        decreases n - i,
    {
        if store.sentences[i].text.eq(text) && store.sentences[i].iso639_3.eq(code) {
            assert(store@.sentences[i as int].text == text@);
            return Some(i);
        }
        i = i + 1;
    }
    None
}

/// Why a language could not be created.
#[derive(Debug)]
pub enum LanguageError {
    /// A language with this code already exists.
    Conflict,
    /// The code is not three ASCII letters, so the schema rejects it.
    Invalid,
}

impl LanguageError {
    /// The HTTP status of this error: 409 for a duplicate code, 500
    /// for a code the schema rejects.
    pub fn status(&self) -> (s: u16)
        ensures
            self is Conflict ==> s == 409,
            self is Invalid ==> s == 500,
    {
        match self {
            LanguageError::Conflict => 409,
            LanguageError::Invalid => 500,
        }
    }
}

/// Why a sentence could not be created.
#[derive(Debug)]
pub enum CreateSentenceError {
    /// The submitted structure does not flatten to the submitted
    /// text.
    Validation,
    /// The referenced language does not exist.
    Reference,
    /// The identifier or the (text, language) pair is already used;
    /// carries the sentence it collides with.
    Conflict(Sentence),
}

impl CreateSentenceError {
    /// The HTTP status of this error: 400 for a failed validation or
    /// an unknown language, 409 for a collision.
    pub fn status(&self) -> (s: u16)
        ensures
            self is Validation ==> s == 400,
            self is Reference ==> s == 400,
            self is Conflict ==> s == 409,
    {
        match self {
            CreateSentenceError::Validation => 400,
            CreateSentenceError::Reference => 400,
            CreateSentenceError::Conflict(_) => 409,
        }
    }
}

/// Why a sentence's text could not be replaced.
#[derive(Debug)]
pub enum EditTextError {
    /// No sentence bears this identifier.
    NotFound,
    /// Another sentence of the same language already has this text;
    /// carries that sentence.
    Conflict(Sentence),
}

impl EditTextError {
    /// The HTTP status of this error: 404 for an unknown identifier,
    /// 409 for a collision.
    pub fn status(&self) -> (s: u16)
        ensures
            self is NotFound ==> s == 404,
            self is Conflict ==> s == 409,
    {
        match self {
            EditTextError::NotFound => 404,
            EditTextError::Conflict(_) => 409,
        }
    }
}

/// Why a sentence's structure could not be replaced.
#[derive(Debug)]
pub enum EditStructureError {
    /// No sentence bears this identifier.
    NotFound,
    /// The structure does not flatten to the sentence's current text.
    Validation,
}

impl EditStructureError {
    /// The HTTP status of this error: 404 for an unknown identifier,
    /// 400 for a failed validation.
    pub fn status(&self) -> (s: u16)
        ensures
            self is NotFound ==> s == 404,
            self is Validation ==> s == 400,
    {
        match self {
            EditStructureError::NotFound => 404,
            EditStructureError::Validation => 400,
        }
    }
}

/// Why a sentence's language could not be reassigned.
#[derive(Debug)]
pub enum EditLanguageError {
    /// No sentence bears this identifier, or no language bears this
    /// code.
    NotFound,
    /// Another sentence already has this sentence's text in the new
    /// language.
    Conflict,
}

impl EditLanguageError {
    /// The HTTP status of this error: 404 for an unknown identifier
    /// or language, 409 for a collision.
    pub fn status(&self) -> (s: u16)
        ensures
            self is NotFound ==> s == 404,
            self is Conflict ==> s == 409,
    {
        match self {
            EditLanguageError::NotFound => 404,
            EditLanguageError::Conflict => 409,
        }
    }
}

} // verus!
