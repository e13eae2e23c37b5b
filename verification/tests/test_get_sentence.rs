use sentence_service::{create_language, create_sentence, get_sentence, Sentence, Store};

#[test]
fn test_get_sentence_if_exists_returns_200() {
    let mut store = Store::new();

    let iso639_3 = "eng";
    create_language(&mut store, String::from(iso639_3)).unwrap();

    let text = "This is one sentence";
    let uuid = create_sentence(
        &mut store,
        Sentence {
            id: None,
            text: String::from(text),
            iso639_3: String::from(iso639_3),
            structure: None,
        },
    )
    .unwrap();

    let sentence = get_sentence(&store, uuid).unwrap();

    assert_eq!(sentence.text, text, "Unexpected sentence text.",);

    assert_eq!(sentence.iso639_3, iso639_3, "Unexpected sentence language.",);
}

#[test]
fn test_get_sentence_if_does_not_exist_returns_404() {
    let store = Store::new();

    let uuid_not_in_database = uuid::Uuid::new_v4().as_u128();

    let sentence = get_sentence(&store, uuid_not_in_database);
    assert!(sentence.is_none());
}
