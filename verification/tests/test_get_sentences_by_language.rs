use sentence_service::{
    create_language, create_sentence, get_all_sentences_of_language, Sentence, Store,
};

#[test]
fn test_get_sentence_by_language_returns_200() {
    let mut store = Store::new();

    let first_iso639_3 = "eng";
    create_language(&mut store, String::from(first_iso639_3)).unwrap();

    let second_iso639_3 = "fra";
    create_language(&mut store, String::from(second_iso639_3)).unwrap();

    let first_text = "This is one sentence";
    create_sentence(
        &mut store,
        Sentence {
            id: None,
            text: String::from(first_text),
            iso639_3: String::from(first_iso639_3),
            structure: None,
        },
    )
    .unwrap();

    let second_text = "This is a second sentence";
    create_sentence(
        &mut store,
        Sentence {
            id: None,
            text: String::from(second_text),
            iso639_3: String::from(first_iso639_3),
            structure: None,
        },
    )
    .unwrap();

    let third_text = "Ceci est une phrase.";
    create_sentence(
        &mut store,
        Sentence {
            id: None,
            text: String::from(third_text),
            iso639_3: String::from(second_iso639_3),
            structure: None,
        },
    )
    .unwrap();

    let sentences = get_all_sentences_of_language(&store, first_iso639_3);

    assert_eq!(sentences.len(), 2,);
}
