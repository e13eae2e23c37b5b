//! Operations on one sentence: reading it back and replacing its
//! text, its structure, or its language.

use vstd::prelude::*;

use crate::sentences::{Sentence, SentenceView};
use crate::store::{
    find_by_id, find_pair, language_exists, EditLanguageError, EditStructureError, EditTextError,
    Store,
};
use crate::structure::{validate, validate_spec};

verus! {

/// Returns the sentence bearing this identifier, if any.
pub fn get_sentence(store: &Store, sentence_uuid: u128) -> (r: Option<Sentence>)
    requires
        store@.wf(),
    ensures
        match r {
            Some(s) => store@.spec_get(sentence_uuid) == Some(s@),
            None => store@.spec_get(sentence_uuid) is None,
        },
{
    match find_by_id(store, sentence_uuid) {
        Some(i) => {
            let s = store.sentences[i].clone();
            proof {
                let j = choose|j: int|
                    0 <= j < store@.sentences.len() && store@.sentences[j].id == Some(
                        sentence_uuid,
                    );
                assert(store@.sentences[j].id == store@.sentences[i as int].id);
                if j != i {
                    assert(false);
                }
            }
            Some(s)
        },
        None => None,
    }
}

/// Replaces a sentence's text.  The sentence must exist and no other
/// sentence of the same language may already hold the new text; on a
/// collision the colliding sentence is returned in the error.  The
/// structure is left as it stands, even if it no longer flattens to
/// the new text: a text change alone is not re-validated.
pub fn edit_sentence_text(store: &mut Store, sentence_uuid: u128, text: String) -> (r: Result<
    (),
    EditTextError,
>)
    requires
        old(store)@.wf(),
    ensures
        final(store)@.wf(),
        match r {
            Ok(()) => exists|i: int|
                {
                    &&& 0 <= i < old(store)@.sentences.len()
                    &&& (#[trigger] old(store)@.sentences[i]).id == Some(sentence_uuid)
                    &&& forall|j: int|
                        0 <= j < old(store)@.sentences.len() && j != i ==> !((#[trigger] old(
                            store,
                        )@.sentences[j]).text == text@ && old(store)@.sentences[j].iso639_3 == old(
                            store,
                        )@.sentences[i].iso639_3)
                    &&& final(store)@.sentences == old(store)@.sentences.update(
                        i,
                        SentenceView { text: text@, ..old(store)@.sentences[i] },
                    )
                    &&& final(store)@.languages == old(store)@.languages
                },
            Err(EditTextError::NotFound) => {
                &&& !old(store)@.has_sentence_id(sentence_uuid)
                &&& final(store)@ == old(store)@
            },
            Err(EditTextError::Conflict(ex)) => exists|i: int, j: int|
                {
                    &&& 0 <= i < old(store)@.sentences.len()
                    &&& (#[trigger] old(store)@.sentences[i]).id == Some(sentence_uuid)
                    &&& 0 <= j < old(store)@.sentences.len()
                    &&& j != i
                    &&& (#[trigger] old(store)@.sentences[j]).text == text@
                    &&& old(store)@.sentences[j].iso639_3 == old(store)@.sentences[i].iso639_3
                    &&& ex@ == old(store)@.sentences[j]
                    &&& final(store)@ == old(store)@
                },
        },
{
    let idx = match find_by_id(store, sentence_uuid) {
        Some(i) => i,
        None => {
            return Err(EditTextError::NotFound);
        },
    };
    let iso_copy = store.sentences[idx].iso639_3.clone();
    match find_pair(store, &text, &iso_copy) {
        Some(j) => {
            if j != idx {
                let ex = store.sentences[j].clone();
                return Err(EditTextError::Conflict(ex));
            }
        },
        None => {},
    }
    let ghost pre = store@;
    let mut s = store.sentences[idx].clone();
    s.text = text;
    store.sentences.set(idx, s);
    proof {
        assert(store@.sentences =~= pre.sentences.update(
            idx as int,
            SentenceView { text: text@, ..pre.sentences[idx as int] },
        ));
        assert forall|i: int| 0 <= i < store@.sentences.len() implies store@.has_language(
            (#[trigger] store@.sentences[i]).iso639_3,
        ) by {
            assert(pre.has_language(pre.sentences[i].iso639_3));
            assert(store@.sentences[i].iso639_3 == pre.sentences[i].iso639_3);
            let j = choose|j: int|
                0 <= j < pre.languages.len() && pre.languages[j] == pre.sentences[i].iso639_3;
            assert(store@.languages[j] == store@.sentences[i].iso639_3);
        }
    }
    Ok(())
}

/// Replaces a sentence's structure.  The sentence must exist and the
/// new structure must flatten to the sentence's current text.
pub fn edit_sentence_structure(store: &mut Store, sentence_uuid: u128, markup: String) -> (r:
    Result<(), EditStructureError>)
    requires
        old(store)@.wf(),
    ensures
        final(store)@.wf(),
        match r {
            Ok(()) => exists|i: int|
                {
                    &&& 0 <= i < old(store)@.sentences.len()
                    &&& (#[trigger] old(store)@.sentences[i]).id == Some(sentence_uuid)
                    &&& validate_spec(markup@, old(store)@.sentences[i].text)
                    &&& final(store)@.sentences == old(store)@.sentences.update(
                        i,
                        SentenceView { structure: Some(markup@), ..old(store)@.sentences[i] },
                    )
                    &&& final(store)@.languages == old(store)@.languages
                },
            Err(EditStructureError::NotFound) => {
                &&& !old(store)@.has_sentence_id(sentence_uuid)
                &&& final(store)@ == old(store)@
            },
            Err(EditStructureError::Validation) => exists|i: int|
                {
                    &&& 0 <= i < old(store)@.sentences.len()
                    &&& (#[trigger] old(store)@.sentences[i]).id == Some(sentence_uuid)
                    &&& !validate_spec(markup@, old(store)@.sentences[i].text)
                    &&& final(store)@ == old(store)@
                },
        },
{
    let idx = match find_by_id(store, sentence_uuid) {
        Some(i) => i,
        None => {
            return Err(EditStructureError::NotFound);
        },
    };
    if !validate(markup.as_str(), store.sentences[idx].text.as_str()) {
        return Err(EditStructureError::Validation);
    }
    let ghost pre = store@;
    let mut s = store.sentences[idx].clone();
    s.structure = Some(markup);
    store.sentences.set(idx, s);
    proof {
        assert(store@.sentences =~= pre.sentences.update(
            idx as int,
            SentenceView { structure: Some(markup@), ..pre.sentences[idx as int] },
        ));
        assert forall|i: int| 0 <= i < store@.sentences.len() implies store@.has_language(
            (#[trigger] store@.sentences[i]).iso639_3,
        ) by {
            assert(pre.has_language(pre.sentences[i].iso639_3));
            assert(store@.sentences[i].iso639_3 == pre.sentences[i].iso639_3);
            let j = choose|j: int|
                0 <= j < pre.languages.len() && pre.languages[j] == pre.sentences[i].iso639_3;
            assert(store@.languages[j] == store@.sentences[i].iso639_3);
        }
    }
    Ok(())
}

/// Reassigns a sentence to another language.  The sentence and the
/// language must both exist, and no other sentence may already hold
/// the same text in the new language.
pub fn edit_sentence_language(store: &mut Store, sentence_uuid: u128, iso639_3: String) -> (r:
    Result<(), EditLanguageError>)
    requires
        old(store)@.wf(),
    ensures
        final(store)@.wf(),
        match r {
            Ok(()) => exists|i: int|
                {
                    &&& 0 <= i < old(store)@.sentences.len()
                    &&& (#[trigger] old(store)@.sentences[i]).id == Some(sentence_uuid)
                    &&& old(store)@.has_language(iso639_3@)
                    &&& forall|j: int|
                        0 <= j < old(store)@.sentences.len() && j != i ==> !((#[trigger] old(
                            store,
                        )@.sentences[j]).text == old(store)@.sentences[i].text && old(
                            store,
                        )@.sentences[j].iso639_3 == iso639_3@)
                    &&& final(store)@.sentences == old(store)@.sentences.update(
                        i,
                        SentenceView { iso639_3: iso639_3@, ..old(store)@.sentences[i] },
                    )
                    &&& final(store)@.languages == old(store)@.languages
                },
            Err(EditLanguageError::NotFound) => {
                &&& !old(store)@.has_sentence_id(sentence_uuid) || !old(store)@.has_language(
                    iso639_3@,
                )
                &&& final(store)@ == old(store)@
            },
            Err(EditLanguageError::Conflict) => exists|i: int, j: int|
                {
                    &&& 0 <= i < old(store)@.sentences.len()
                    &&& (#[trigger] old(store)@.sentences[i]).id == Some(sentence_uuid)
                    &&& old(store)@.has_language(iso639_3@)
                    &&& 0 <= j < old(store)@.sentences.len()
                    &&& j != i
                    &&& (#[trigger] old(store)@.sentences[j]).text == old(
                        store,
                    )@.sentences[i].text
                    &&& old(store)@.sentences[j].iso639_3 == iso639_3@
                    &&& final(store)@ == old(store)@
                },
        },
{
    let idx = match find_by_id(store, sentence_uuid) {
        Some(i) => i,
        None => {
            return Err(EditLanguageError::NotFound);
        },
    };
    if !language_exists(store, iso639_3.as_str()) {
        return Err(EditLanguageError::NotFound);
    }
    let text_copy = store.sentences[idx].text.clone();
    match find_pair(store, &text_copy, &iso639_3) {
        Some(j) => {
            if j != idx {
                return Err(EditLanguageError::Conflict);
            }
        },
        None => {},
    }
    let ghost pre = store@;
    let mut s = store.sentences[idx].clone();
    s.iso639_3 = iso639_3;
    store.sentences.set(idx, s);
    proof {
        assert(store@.sentences =~= pre.sentences.update(
            idx as int,
            SentenceView { iso639_3: iso639_3@, ..pre.sentences[idx as int] },
        ));
        assert forall|i: int| 0 <= i < store@.sentences.len() implies store@.has_language(
            (#[trigger] store@.sentences[i]).iso639_3,
        ) by {
            if i != idx {
                assert(pre.has_language(pre.sentences[i].iso639_3));
                assert(store@.sentences[i].iso639_3 == pre.sentences[i].iso639_3);
                let j = choose|j: int|
                    0 <= j < pre.languages.len() && pre.languages[j] == pre.sentences[i].iso639_3;
                assert(store@.languages[j] == store@.sentences[i].iso639_3);
            } else {
                assert(pre.has_language(iso639_3@));
                let j = choose|j: int|
                    0 <= j < pre.languages.len() && pre.languages[j] == iso639_3@;
                assert(store@.languages[j] == store@.sentences[i].iso639_3);
            }
        }
    }
    Ok(())
}

/// Returns the first sentence holding this text, whatever its
/// language.  At least one must exist: the service only asks after
/// a collision.
pub fn get_sentence_by_content(store: &Store, text: &String) -> (r: Sentence)
    requires
        exists|i: int|
            0 <= i < store@.sentences.len() && (#[trigger] store@.sentences[i]).text == text@,
    ensures
        exists|i: int|
            {
                &&& 0 <= i < store@.sentences.len()
                &&& r@ == store@.sentences[i]
                &&& (#[trigger] store@.sentences[i]).text == text@
                &&& forall|j: int|
                    0 <= j < i ==> (#[trigger] store@.sentences[j]).text != text@
            },
{
    let n = store.sentences.len();
    let mut i: usize = 0;
    while i < n
        invariant
            n == store.sentences@.len(),
            0 <= i <= n,
            forall|j: int| 0 <= j < i ==> (#[trigger] store@.sentences[j]).text != text@,
        decreases n - i,
    {
        assert(store@.sentences[i as int] == store.sentences@[i as int]@);
        if store.sentences[i].text.eq(text) {
            let r = store.sentences[i].clone();
            assert(store@.sentences[i as int].text == text@);
            return r;
        }
        i = i + 1;
    }
    proof {
        assert(false);
    }
    vstd::pervasive::unreached()
}

} // verus!
