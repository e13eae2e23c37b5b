//! The sentence resource: its representation, creation, and listing.

use vstd::prelude::*;

use crate::store::{find_by_id, find_pair, language_exists, CreateSentenceError, Store};
use crate::structure::{validate, validate_spec};

verus! {

/// A sentence as callers see it: the identifier (absent in a creation
/// request that leaves it to the service), the plain text, the ISO
/// 639-3 code of its language, and the optional word-structure
/// markup.
#[derive(Debug)]
pub struct Sentence {
    pub id: Option<u128>,
    pub text: String,
    pub iso639_3: String,
    pub structure: Option<String>,
}

/// The mathematical value of a sentence.
pub ghost struct SentenceView {
    pub id: Option<u128>,
    pub text: Seq<char>,
    pub iso639_3: Seq<char>,
    pub structure: Option<Seq<char>>,
}

impl View for Sentence {
    type V = SentenceView;

    open spec fn view(&self) -> SentenceView {
        SentenceView {
            id: self.id,
            text: self.text@,
            iso639_3: self.iso639_3@,
            structure: match self.structure {
                Some(s) => Some(s@),
                None => None,
            },
        }
    }
}

impl Clone for Sentence {
    fn clone(&self) -> (r: Self)
        ensures
            r@ == self@,
    {
        Sentence {
            id: self.id,
            text: self.text.clone(),
            iso639_3: self.iso639_3.clone(),
            structure: match &self.structure {
                Some(s) => Some(s.clone()),
                None => None,
            },
        }
    }
}

/// The values of a sequence of sentences.
pub open spec fn seq_view(s: Seq<Sentence>) -> Seq<SentenceView> {
    s.map_values(|x: Sentence| x@)
}

/// How many sentences a listing returns at most.
pub const SENTENCES_PER_PAGE: usize = 100;

/// One page of a listing: the sentences passing `pred`, in store
/// order, capped at `limit`.
pub open spec fn page(s: Seq<SentenceView>, pred: spec_fn(SentenceView) -> bool, limit: int) -> Seq<
    SentenceView,
> {
    let f = s.filter(pred);
    if f.len() <= limit {
        f
    } else {
        f.take(limit)
    }
}

/// The filter of a listing by language.
pub open spec fn language_pred(code: Seq<char>) -> spec_fn(SentenceView) -> bool {
    |s: SentenceView| s.iso639_3 == code
}

/// The filter of a listing with a pagination cursor: without one,
/// every sentence; with one, the sentences whose identifier is the
/// cursor or beyond, the cursor's own sentence included.
pub open spec fn cursor_pred(after: Option<u128>) -> spec_fn(SentenceView) -> bool {
    |s: SentenceView| match after {
        None => true,
        Some(a) => s.id is Some && s.id->0 >= a,
    }
}

/// Filtering one more sentence appends it to the filtered sequence
/// exactly when it passes the filter.
pub(crate) proof fn lemma_filter_take_step(
    s: Seq<SentenceView>,
    pred: spec_fn(SentenceView) -> bool,
    i: int,
)
    requires
        0 <= i < s.len(),
    ensures
        s.take(i + 1).filter(pred) == if pred(s[i]) {
            s.take(i).filter(pred).push(s[i])
        } else {
            s.take(i).filter(pred)
        },
{
    reveal(Seq::filter);
    assert(s.take(i + 1).drop_last() =~= s.take(i));
    assert(s.take(i + 1).last() == s[i]);
}

/// Filtering no sentences yields nothing.
pub(crate) proof fn lemma_filter_take_zero(s: Seq<SentenceView>, pred: spec_fn(SentenceView) -> bool)
    ensures
        s.take(0).filter(pred) == Seq::<SentenceView>::empty(),
{
    reveal(Seq::filter);
    assert(s.take(0) =~= Seq::<SentenceView>::empty());
}

/// Lists sentences in creation order, at most `limit` of them.  With
/// a cursor, only the sentences whose identifier is the cursor or
/// beyond are listed, the cursor's own sentence included, so the last
/// sentence of one page reappears as the first of the next.
pub fn list_sentences(store: &Store, after_id: Option<u128>, limit: usize) -> (r: Vec<Sentence>)
    ensures
        seq_view(r@) == page(store@.sentences, cursor_pred(after_id), limit as int),
{
    let ghost pred = cursor_pred(after_id);
    let n = store.sentences.len();
    let mut r: Vec<Sentence> = Vec::new();
    let mut i: usize = 0;
    proof {
        lemma_filter_take_zero(store@.sentences, pred);
        assert(seq_view(r@) =~= Seq::<SentenceView>::empty());
    }
    while i < n
        invariant
            pred == cursor_pred(after_id),
            n == store.sentences@.len(),
            0 <= i <= n,
            r@.len() <= limit,
            seq_view(r@) == page(store@.sentences.take(i as int), pred, limit as int),
        decreases n - i,
    {
        let ghost pre_filtered = store@.sentences.take(i as int).filter(pred);
        let ghost pre_views = seq_view(r@);
        proof {
            lemma_filter_take_step(store@.sentences, pred, i as int);
        }
        assert(store@.sentences[i as int] == store.sentences@[i as int]@);
        let passes = match after_id {
            None => true,
            Some(a) => match store.sentences[i].id {
                Some(x) => x >= a,
                None => false,
            },
        };
        if passes {
            assert(pred(store@.sentences[i as int]));
            if r.len() < limit {
                r.push(store.sentences[i].clone());
                proof {
                    assert(seq_view(r@) =~= pre_views.push(store@.sentences[i as int]));
                }
            } else {
                proof {
                    assert(pre_filtered.push(store@.sentences[i as int]).take(limit as int)
                        =~= pre_filtered.take(limit as int));
                }
            }
        } else {
            assert(!pred(store@.sentences[i as int]));
        }
        i = i + 1;
    }
    proof {
        assert(store@.sentences.take(n as int) =~= store@.sentences);
    }
    r
}

/// Lists the first page of all sentences, in creation order.
pub fn get_all_sentences(store: &Store) -> (r: Vec<Sentence>)
    ensures
        seq_view(r@) == page(store@.sentences, cursor_pred(None), SENTENCES_PER_PAGE as int),
{
    list_sentences(store, None, SENTENCES_PER_PAGE)
}

/// Lists one page of sentences starting at the given identifier,
/// inclusive.
pub fn get_all_sentences_with_last_id(store: &Store, last_id: u128) -> (r: Vec<Sentence>)
    ensures
        seq_view(r@) == page(
            store@.sentences,
            cursor_pred(Some(last_id)),
            SENTENCES_PER_PAGE as int,
        ),
{
    list_sentences(store, Some(last_id), SENTENCES_PER_PAGE)
}

/// Whether a stored sentence collides with a creation request:
/// either it bears the requested identifier, or it holds the same
/// text in the same language.
pub open spec fn matches_uuid_or_pair(
    s: SentenceView,
    id: u128,
    text: Seq<char>,
    code: Seq<char>,
) -> bool {
    s.id == Some(id) || (s.text == text && s.iso639_3 == code)
}

/// Whether `s` is the first stored sentence colliding with a
/// creation request.
pub open spec fn is_first_conflict(
    v: crate::store::StoreView,
    id: u128,
    text: Seq<char>,
    code: Seq<char>,
    s: SentenceView,
) -> bool {
    exists|i: int|
        {
            &&& 0 <= i < v.sentences.len()
            &&& s == v.sentences[i]
            &&& matches_uuid_or_pair(v.sentences[i], id, text, code)
            &&& forall|j: int|
                0 <= j < i ==> !matches_uuid_or_pair(#[trigger] v.sentences[j], id, text, code)
        }
}

/// Returns the first sentence that bears this identifier or holds
/// this text in this language.  At least one must exist: the
/// service only asks after a collision.
pub fn get_sentence_by_uuid_or_content_and_language(
    store: &Store,
    uuid: u128,
    content: &String,
    iso639_3: &String,
) -> (r: Sentence)
    requires
        exists|i: int|
            0 <= i < store@.sentences.len() && matches_uuid_or_pair(
                #[trigger] store@.sentences[i],
                uuid,
                content@,
                iso639_3@,
            ),
    ensures
        is_first_conflict(store@, uuid, content@, iso639_3@, r@),
{
    let n = store.sentences.len();
    let mut i: usize = 0;
    while i < n
        invariant
            n == store.sentences@.len(),
            0 <= i <= n,
            forall|j: int|
                0 <= j < i ==> !matches_uuid_or_pair(
                    #[trigger] store@.sentences[j],
                    uuid,
                    content@,
                    iso639_3@,
                ),
        decreases n - i,
    {
        assert(store@.sentences[i as int] == store.sentences@[i as int]@);
        let by_id = match store.sentences[i].id {
            Some(x) => x == uuid,
            None => false,
        };
        let by_pair = store.sentences[i].text.eq(content) && store.sentences[i].iso639_3.eq(
            iso639_3,
        );
        if by_id || by_pair {
            let r = store.sentences[i].clone();
            assert(matches_uuid_or_pair(store@.sentences[i as int], uuid, content@, iso639_3@));
            return r;
        }
        i = i + 1;
    }
    proof {
        assert(false);
    }
    vstd::pervasive::unreached()
}

/// The value of an optional structure string.
pub open spec fn opt_view(o: Option<String>) -> Option<Seq<char>> {
    match o {
        Some(s) => Some(s@),
        None => None,
    }
}

/// Whether an optional structure flattens to the text: a missing
/// structure always does.
pub open spec fn structure_fits(structure: Option<Seq<char>>, text: Seq<char>) -> bool {
    match structure {
        Some(m) => validate_spec(m, text),
        None => true,
    }
}

/// Relies on `uuid::Uuid::new_v4` for a freshly drawn random
/// identifier; nothing is assumed about the value drawn.
#[verifier::external_body]
fn new_random_id() -> (r: u128) {
    uuid::Uuid::new_v4().as_u128()
}

/// Creates a sentence under a given identifier.  The structure, if
/// any, must flatten to the text; the language must exist; neither
/// the identifier nor the (text, language) pair may be in use.  On
/// success the sentence is appended to the store; on a collision the
/// first colliding sentence is returned in the error, and nothing is
/// changed.
pub fn create_sentence_with_id(
    store: &mut Store,
    id: u128,
    text: String,
    iso639_3: String,
    structure: Option<String>,
) -> (r: Result<(), CreateSentenceError>)
    requires
        old(store)@.wf(),
    ensures
        final(store)@.wf(),
        match r {
            Ok(()) => {
                &&& structure_fits(opt_view(structure), text@)
                &&& old(store)@.has_language(iso639_3@)
                &&& !old(store)@.has_sentence_id(id)
                &&& !old(store)@.has_pair(text@, iso639_3@)
                &&& final(store)@.sentences == old(store)@.sentences.push(
                    SentenceView {
                        id: Some(id),
                        text: text@,
                        iso639_3: iso639_3@,
                        structure: opt_view(structure),
                    },
                )
                &&& final(store)@.languages == old(store)@.languages
            },
            Err(CreateSentenceError::Validation) => {
                &&& !structure_fits(opt_view(structure), text@)
                &&& final(store)@ == old(store)@
            },
            Err(CreateSentenceError::Reference) => {
                &&& structure_fits(opt_view(structure), text@)
                &&& !old(store)@.has_language(iso639_3@)
                &&& final(store)@ == old(store)@
            },
            Err(CreateSentenceError::Conflict(ex)) => {
                &&& structure_fits(opt_view(structure), text@)
                &&& old(store)@.has_language(iso639_3@)
                &&& old(store)@.has_sentence_id(id) || old(store)@.has_pair(text@, iso639_3@)
                &&& is_first_conflict(old(store)@, id, text@, iso639_3@, ex@)
                &&& final(store)@ == old(store)@
            },
        },
{
    match &structure {
        Some(m) => {
            if !validate(m.as_str(), text.as_str()) {
                return Err(CreateSentenceError::Validation);
            }
        },
        None => {},
    }
    if !language_exists(store, iso639_3.as_str()) {
        return Err(CreateSentenceError::Reference);
    }
    let id_taken = match find_by_id(store, id) {
        Some(_) => true,
        None => false,
    };
    let pair_taken = match find_pair(store, &text, &iso639_3) {
        Some(_) => true,
        None => false,
    };
    if id_taken || pair_taken {
        let ex = get_sentence_by_uuid_or_content_and_language(store, id, &text, &iso639_3);
        return Err(CreateSentenceError::Conflict(ex));
    }
    let ghost pre = store@;
    let s = Sentence { id: Some(id), text, iso639_3, structure };
    store.sentences.push(s);
    proof {
        assert(store@.sentences =~= pre.sentences.push(
            SentenceView {
                id: Some(id),
                text: text@,
                iso639_3: iso639_3@,
                structure: opt_view(structure),
            },
        ));
        assert forall|i: int| 0 <= i < store@.sentences.len() implies store@.has_language(
            (#[trigger] store@.sentences[i]).iso639_3,
        ) by {
            if i < pre.sentences.len() {
                assert(pre.has_language(pre.sentences[i].iso639_3));
            }
            let j = choose|j: int|
                0 <= j < pre.languages.len() && pre.languages[j] == store@.sentences[i].iso639_3;
            assert(store@.languages[j] == store@.sentences[i].iso639_3);
        }
    }
    Ok(())
}

/// Creates a sentence from a request, drawing a fresh random
/// identifier when the request carries none, and returns the
/// identifier actually used.  With an identifier supplied, this is
/// exactly [`create_sentence_with_id`]; with none, the drawn
/// identifier may itself collide, so a collision is possible even
/// for a free (text, language) pair.
pub fn create_sentence(store: &mut Store, sentence: Sentence) -> (r: Result<
    u128,
    CreateSentenceError,
>)
    requires
        old(store)@.wf(),
    ensures
        final(store)@.wf(),
        match r {
            Ok(id) => {
                &&& structure_fits(sentence@.structure, sentence@.text)
                &&& old(store)@.has_language(sentence@.iso639_3)
                &&& !old(store)@.has_sentence_id(id)
                &&& !old(store)@.has_pair(sentence@.text, sentence@.iso639_3)
                &&& sentence@.id is Some ==> id == sentence@.id->0
                &&& final(store)@.sentences == old(store)@.sentences.push(
                    SentenceView {
                        id: Some(id),
                        text: sentence@.text,
                        iso639_3: sentence@.iso639_3,
                        structure: sentence@.structure,
                    },
                )
                &&& final(store)@.languages == old(store)@.languages
            },
            Err(CreateSentenceError::Validation) => {
                &&& !structure_fits(sentence@.structure, sentence@.text)
                &&& final(store)@ == old(store)@
            },
            Err(CreateSentenceError::Reference) => {
                &&& structure_fits(sentence@.structure, sentence@.text)
                &&& !old(store)@.has_language(sentence@.iso639_3)
                &&& final(store)@ == old(store)@
            },
            Err(CreateSentenceError::Conflict(ex)) => {
                &&& structure_fits(sentence@.structure, sentence@.text)
                &&& old(store)@.has_language(sentence@.iso639_3)
                &&& sentence@.id is Some ==> is_first_conflict(
                    old(store)@,
                    sentence@.id->0,
                    sentence@.text,
                    sentence@.iso639_3,
                    ex@,
                )
                &&& sentence@.id is Some ==> old(store)@.has_sentence_id(sentence@.id->0) || old(
                    store,
                )@.has_pair(sentence@.text, sentence@.iso639_3)
                &&& exists|i: int|
                    0 <= i < old(store)@.sentences.len() && ex@ == old(store)@.sentences[i]
                &&& ((ex@.text == sentence@.text && ex@.iso639_3 == sentence@.iso639_3)
                    || ex@.id is Some)
                &&& final(store)@ == old(store)@
            },
        },
{
    let Sentence { id, text, iso639_3, structure } = sentence;
    let used_id = match id {
        Some(given) => given,
        None => new_random_id(),
    };
    match create_sentence_with_id(store, used_id, text, iso639_3, structure) {
        Ok(()) => Ok(used_id),
        Err(e) => {
            proof {
                match &e {
                    CreateSentenceError::Conflict(ex) => {
                        assert(is_first_conflict(
                            old(store)@,
                            used_id,
                            sentence@.text,
                            sentence@.iso639_3,
                            ex@,
                        ));
                    },
                    _ => {},
                }
            }
            Err(e)
        },
    }
}

/// Law: after a creation appends a sentence under a fresh
/// identifier, reading that identifier back finds exactly the
/// appended sentence.
pub proof fn lemma_get_after_create(
    pre: crate::store::StoreView,
    rec: SentenceView,
    post: crate::store::StoreView,
)
    requires
        pre.wf(),
        rec.id is Some,
        !pre.has_sentence_id(rec.id->0),
        post == (crate::store::StoreView { languages: pre.languages, sentences: pre.sentences.push(rec) }),
    ensures
        post.spec_get(rec.id->0) == Some(rec),
{
    let id = rec.id->0;
    assert(post.sentences[post.sentences.len() - 1] == rec);
    assert(post.has_sentence_id(id));
    let i = choose|i: int|
        0 <= i < post.sentences.len() && post.sentences[i].id == Some(id);
    if i < post.sentences.len() - 1 {
        assert(pre.sentences[i] == post.sentences[i]);
        assert(pre.has_sentence_id(id));
    }
}

/// Law: a sentence created without a structure reads back without
/// one.
pub proof fn lemma_structure_absent_round_trip(
    pre: crate::store::StoreView,
    rec: SentenceView,
    post: crate::store::StoreView,
)
    requires
        pre.wf(),
        rec.id is Some,
        rec.structure is None,
        !pre.has_sentence_id(rec.id->0),
        post == (crate::store::StoreView { languages: pre.languages, sentences: pre.sentences.push(rec) }),
    ensures
        post.spec_get(rec.id->0) is Some,
        post.spec_get(rec.id->0)->0.structure is None,
{
    lemma_get_after_create(pre, rec, post);
}

/// Law: a sentence created with a structure reads back with exactly
/// that structure string.
pub proof fn lemma_structure_round_trip(
    pre: crate::store::StoreView,
    rec: SentenceView,
    post: crate::store::StoreView,
    markup: Seq<char>,
)
    requires
        pre.wf(),
        rec.id is Some,
        rec.structure == Some(markup),
        !pre.has_sentence_id(rec.id->0),
        post == (crate::store::StoreView { languages: pre.languages, sentences: pre.sentences.push(rec) }),
    ensures
        post.spec_get(rec.id->0) is Some,
        post.spec_get(rec.id->0)->0.structure == Some(markup),
{
    lemma_get_after_create(pre, rec, post);
}

} // verus!
