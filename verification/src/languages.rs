//! The language resource: creating a language and listing the
//! sentences written in it.

use vstd::prelude::*;

use crate::sentences::{
    language_pred, lemma_filter_take_step, lemma_filter_take_zero, page, seq_view, Sentence,
    SENTENCES_PER_PAGE,
};
use crate::store::{language_exists, str_equal, valid_iso, LanguageError, Store};

verus! {

/// Checks that a code is exactly three ASCII letters.
pub fn is_valid_iso639_3(code: &str) -> (r: bool)
    ensures
        r == valid_iso(code@),
{
    let n = code.unicode_len();
    if n != 3 {
        return false;
    }
    let mut k: usize = 0;
    while k < 3
        invariant
            code@.len() == 3,
            0 <= k <= 3,
            forall|m: int| 0 <= m < k ==> crate::store::is_ascii_letter(#[trigger] code@[m]),
        decreases 3 - k,
    {
        let c = code.get_char(k);
        let u = c as u32;
        if !((97 <= u && u <= 122) || (65 <= u && u <= 90)) {
            return false;
        }
        k = k + 1;
    }
    true
}

/// Creates a language.  The code must be exactly three ASCII letters
/// and not yet used; on success the language is appended to the
/// store, and nothing else changes.
pub fn create_language(store: &mut Store, iso639_3: String) -> (r: Result<(), LanguageError>)
    requires
        old(store)@.wf(),
    ensures
        final(store)@.wf(),
        match r {
            Ok(()) => {
                &&& valid_iso(iso639_3@)
                &&& !old(store)@.has_language(iso639_3@)
                &&& final(store)@.languages == old(store)@.languages.push(iso639_3@)
                &&& final(store)@.sentences == old(store)@.sentences
            },
            Err(LanguageError::Invalid) => {
                &&& !valid_iso(iso639_3@)
                &&& final(store)@ == old(store)@
            },
            Err(LanguageError::Conflict) => {
                &&& valid_iso(iso639_3@)
                &&& old(store)@.has_language(iso639_3@)
                &&& final(store)@ == old(store)@
            },
        },
{
    if !is_valid_iso639_3(iso639_3.as_str()) {
        return Err(LanguageError::Invalid);
    }
    if language_exists(store, iso639_3.as_str()) {
        return Err(LanguageError::Conflict);
    }
    let ghost pre = store@;
    store.languages.push(iso639_3);
    proof {
        assert(store@.languages =~= pre.languages.push(iso639_3@));
        assert forall|i: int| 0 <= i < store@.sentences.len() implies store@.has_language(
            (#[trigger] store@.sentences[i]).iso639_3,
        ) by {
            let j = choose|j: int|
                0 <= j < pre.languages.len() && pre.languages[j] == pre.sentences[i].iso639_3;
            assert(store@.languages[j] == store@.sentences[i].iso639_3);
        }
    }
    Ok(())
}

/// Lists the sentences of one language, in creation order, at most
/// one page of them.  An unknown language simply has no sentences: no
/// error is raised.
pub fn get_all_sentences_of_language(store: &Store, language_code: &str) -> (r: Vec<Sentence>)
    ensures
        seq_view(r@) == page(
            store@.sentences,
            language_pred(language_code@),
            SENTENCES_PER_PAGE as int,
        ),
{
    let ghost pred = language_pred(language_code@);
    let n = store.sentences.len();
    let mut r: Vec<Sentence> = Vec::new();
    let mut i: usize = 0;
    proof {
        lemma_filter_take_zero(store@.sentences, pred);
        assert(seq_view(r@) =~= Seq::<crate::sentences::SentenceView>::empty());
    }
    while i < n
        invariant
            pred == language_pred(language_code@),
            n == store.sentences@.len(),
            0 <= i <= n,
            r@.len() <= SENTENCES_PER_PAGE,
            seq_view(r@) == page(
                store@.sentences.take(i as int),
                pred,
                SENTENCES_PER_PAGE as int,
            ),
        decreases n - i,
    {
        let ghost pre_filtered = store@.sentences.take(i as int).filter(pred);
        let ghost pre_views = seq_view(r@);
        proof {
            lemma_filter_take_step(store@.sentences, pred, i as int);
        }
        assert(store@.sentences[i as int] == store.sentences@[i as int]@);
        if str_equal(store.sentences[i].iso639_3.as_str(), language_code) {
            assert(pred(store@.sentences[i as int]));
            if r.len() < SENTENCES_PER_PAGE {
                r.push(store.sentences[i].clone());
                proof {
                    assert(seq_view(r@) =~= pre_views.push(store@.sentences[i as int]));
                }
            } else {
                proof {
                    assert(pre_filtered.push(store@.sentences[i as int]).take(
                        SENTENCES_PER_PAGE as int,
                    ) =~= pre_filtered.take(SENTENCES_PER_PAGE as int));
                }
            }
        } else {
            assert(!pred(store@.sentences[i as int]));
        }
        i = i + 1;
    }
    proof {
        assert(store@.sentences.take(n as int) =~= store@.sentences);
    }
    r
}

} // verus!
