use sentence_service::{
    create_language, create_sentence, get_all_sentences, get_all_sentences_with_last_id, Sentence,
    Store,
};

fn insert_sentence(store: &mut Store, text: &str, iso639_3: &str) -> u128 {
    create_sentence(
        store,
        Sentence {
            id: None,
            text: String::from(text),
            iso639_3: String::from(iso639_3),
            structure: None,
        },
    )
    .unwrap()
}

fn insert_sentence_with_uuid(store: &mut Store, uuid: u128, text: &str, iso639_3: &str) {
    create_sentence(
        store,
        Sentence {
            id: Some(uuid),
            text: String::from(text),
            iso639_3: String::from(iso639_3),
            structure: None,
        },
    )
    .unwrap();
}

#[test]
fn test_get_all_sentences_returns_200() {
    let mut store = Store::new();

    let first_iso639_3 = "eng";
    create_language(&mut store, String::from(first_iso639_3)).unwrap();

    let second_iso639_3 = "fra";
    create_language(&mut store, String::from(second_iso639_3)).unwrap();

    let first_text = "This is one sentence";
    insert_sentence(&mut store, first_text, first_iso639_3);

    let second_text = "This is a second sentence";
    insert_sentence(&mut store, second_text, second_iso639_3);

    let sentences = get_all_sentences(&store);
    assert_eq!(sentences.len(), 2);
}

#[test]
fn test_get_all_sentences_with_last_id_returns_200() {
    let mut store = Store::new();

    let first_iso639_3 = "eng";
    create_language(&mut store, String::from(first_iso639_3)).unwrap();

    let first_uuid = uuid::Uuid::parse_str("d5c4807e-0904-4a2a-b50b-9da6b3f83d10")
        .unwrap()
        .as_u128();
    insert_sentence_with_uuid(&mut store, first_uuid, "first sentence", first_iso639_3);
    insert_sentence_with_uuid(
        &mut store,
        uuid::Uuid::parse_str("d5c4807e-0904-4a2a-b50b-9da6b3f83d11")
            .unwrap()
            .as_u128(),
        "second sentence",
        first_iso639_3,
    );
    insert_sentence_with_uuid(
        &mut store,
        uuid::Uuid::parse_str("d5c4807e-0904-4a2a-b50b-9da6b3f83d12")
            .unwrap()
            .as_u128(),
        "third sentence",
        first_iso639_3,
    );
    insert_sentence_with_uuid(
        &mut store,
        uuid::Uuid::parse_str("d5c4807e-0904-4a2a-b50b-9da6b3f83d13")
            .unwrap()
            .as_u128(),
        "fourth sentence",
        first_iso639_3,
    );
    insert_sentence_with_uuid(
        &mut store,
        uuid::Uuid::parse_str("d5c4807e-0904-4a2a-b50b-9da6b3f83d14")
            .unwrap()
            .as_u128(),
        "fifth sentence",
        first_iso639_3,
    );

    let sixth_uuid = uuid::Uuid::parse_str("d5c4807e-0904-4a2a-b50b-9da6b3f83d15")
        .unwrap()
        .as_u128();
    insert_sentence_with_uuid(&mut store, sixth_uuid, "sixth sentence", first_iso639_3);
    insert_sentence_with_uuid(
        &mut store,
        uuid::Uuid::parse_str("d5c4807e-0904-4a2a-b50b-9da6b3f83d16")
            .unwrap()
            .as_u128(),
        "seventh sentence",
        first_iso639_3,
    );
    insert_sentence_with_uuid(
        &mut store,
        uuid::Uuid::parse_str("d5c4807e-0904-4a2a-b50b-9da6b3f83d17")
            .unwrap()
            .as_u128(),
        "eighth sentence",
        first_iso639_3,
    );
    insert_sentence_with_uuid(
        &mut store,
        uuid::Uuid::parse_str("d5c4807e-0904-4a2a-b50b-9da6b3f83d18")
            .unwrap()
            .as_u128(),
        "ninth sentence",
        first_iso639_3,
    );
    insert_sentence_with_uuid(
        &mut store,
        uuid::Uuid::parse_str("d5c4807e-0904-4a2a-b50b-9da6b3f83d19")
            .unwrap()
            .as_u128(),
        "tenth sentence",
        first_iso639_3,
    );

    let sentences = get_all_sentences_with_last_id(&store, first_uuid);
    assert_eq!(sentences.len(), 10);

    let sentences = get_all_sentences_with_last_id(&store, sixth_uuid);
    assert_eq!(sentences.len(), 5);
}
