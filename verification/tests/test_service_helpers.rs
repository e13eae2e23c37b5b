use sentence_service::{
    create_language, create_sentence, get_sentence, get_sentence_by_content,
    get_sentence_by_uuid_or_content_and_language, is_valid_iso639_3, language_exists, Sentence,
    Store, CORS, SENTENCES_PER_PAGE,
};

#[test]
fn test_is_valid_iso639_3_accepts_three_letters() {
    assert!(is_valid_iso639_3("eng"));
    assert!(is_valid_iso639_3("FRA"));
    assert!(!is_valid_iso639_3("fr"));
    assert!(!is_valid_iso639_3("engl"));
    assert!(!is_valid_iso639_3("e1g"));
    assert!(!is_valid_iso639_3(""));
}

#[test]
fn test_language_exists_only_after_creation() {
    let mut store = Store::new();
    assert!(!language_exists(&store, "eng"));
    create_language(&mut store, String::from("eng")).unwrap();
    assert!(language_exists(&store, "eng"));
    assert!(!language_exists(&store, "fra"));
}

#[test]
fn test_generated_identifiers_are_usable_and_distinct() {
    let mut store = Store::new();
    create_language(&mut store, String::from("eng")).unwrap();

    let first = create_sentence(
        &mut store,
        Sentence {
            id: None,
            text: String::from("One sentence."),
            iso639_3: String::from("eng"),
            structure: None,
        },
    )
    .unwrap();
    let second = create_sentence(
        &mut store,
        Sentence {
            id: None,
            text: String::from("Another sentence."),
            iso639_3: String::from("eng"),
            structure: None,
        },
    )
    .unwrap();

    assert_ne!(first, second);
    assert_eq!(get_sentence(&store, first).unwrap().text, "One sentence.");
    assert_eq!(get_sentence(&store, second).unwrap().text, "Another sentence.");
}

#[test]
fn test_get_sentence_by_content_finds_first_match() {
    let mut store = Store::new();
    create_language(&mut store, String::from("eng")).unwrap();
    create_language(&mut store, String::from("fra")).unwrap();

    let common_text = "A shared text.";
    let first = create_sentence(
        &mut store,
        Sentence {
            id: None,
            text: String::from(common_text),
            iso639_3: String::from("eng"),
            structure: None,
        },
    )
    .unwrap();
    create_sentence(
        &mut store,
        Sentence {
            id: None,
            text: String::from(common_text),
            iso639_3: String::from("fra"),
            structure: None,
        },
    )
    .unwrap();

    let found = get_sentence_by_content(&store, &String::from(common_text));
    assert_eq!(found.id, Some(first));
    assert_eq!(found.iso639_3, "eng");
}

#[test]
fn test_get_sentence_by_uuid_or_pair_prefers_store_order() {
    let mut store = Store::new();
    create_language(&mut store, String::from("eng")).unwrap();

    let first = create_sentence(
        &mut store,
        Sentence {
            id: None,
            text: String::from("The first text."),
            iso639_3: String::from("eng"),
            structure: None,
        },
    )
    .unwrap();
    create_sentence(
        &mut store,
        Sentence {
            id: None,
            text: String::from("The second text."),
            iso639_3: String::from("eng"),
            structure: None,
        },
    )
    .unwrap();

    // the identifier of the first matches, the pair of the second matches:
    // the first in store order wins
    let found = get_sentence_by_uuid_or_content_and_language(
        &store,
        first,
        &String::from("The second text."),
        &String::from("eng"),
    );
    assert_eq!(found.id, Some(first));
}

#[test]
fn test_default_page_size_is_one_hundred() {
    assert_eq!(SENTENCES_PER_PAGE, 100);
}

#[test]
fn test_cors_headers_on_json_or_preflight() {
    let headers = CORS::response_headers(true, false);
    assert_eq!(headers.len(), 4);
    assert_eq!(headers[0].0, "Access-Control-Allow-Origin");
    assert_eq!(headers[0].1, "*");
    assert_eq!(headers[1].0, "Access-Control-Allow-Methods");
    assert_eq!(headers[1].1, "POST, GET, OPTIONS, PUT");
    assert_eq!(headers[2].0, "Access-Control-Allow-Headers");
    assert_eq!(headers[2].1, "Content-Type");
    assert_eq!(headers[3].0, "Access-Control-Allow-Credentials");
    assert_eq!(headers[3].1, "true");

    assert_eq!(CORS::response_headers(false, true).len(), 4);
    assert_eq!(CORS::response_headers(false, false).len(), 0);
}

#[test]
fn test_cors_bare_preflight_only_without_route() {
    assert!(CORS::bare_preflight(true, false));
    assert!(!CORS::bare_preflight(true, true));
    assert!(!CORS::bare_preflight(false, false));
    assert!(!CORS::bare_preflight(false, true));
}
