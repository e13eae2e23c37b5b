use sentence_service::{create_language, language_exists, LanguageError, Store};

#[test]
fn test_post_language_returns_201() {
    let mut store = Store::new();

    let created_language = "eng";

    let result = create_language(&mut store, String::from(created_language));

    assert!(result.is_ok());

    assert!(language_exists(&store, created_language));
}

#[test]
fn test_post_language_that_already_exists_returns_409() {
    let mut store = Store::new();

    let created_language = "eng";
    create_language(&mut store, String::from(created_language)).unwrap();

    let result = create_language(&mut store, String::from(created_language));

    let error = result.unwrap_err();
    assert!(matches!(error, LanguageError::Conflict));
    assert_eq!(error.status(), 409);
}

#[test]
fn test_post_language_with_incorrect_iso639_3_length() {
    let mut store = Store::new();

    // two characters given, three expected
    let result = create_language(&mut store, String::from("fr"));

    let error = result.unwrap_err();
    assert!(matches!(error, LanguageError::Invalid));
    assert_eq!(error.status(), 500);
}
