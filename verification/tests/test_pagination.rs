use sentence_service::{create_language, create_sentence, list_sentences, Sentence, Store};

fn insert_numbered(store: &mut Store, id: u128, text: &str) {
    create_sentence(
        store,
        Sentence {
            id: Some(id),
            text: String::from(text),
            iso639_3: String::from("eng"),
            structure: None,
        },
    )
    .unwrap();
}

#[test]
fn test_pagination_overlap() {
    let mut store = Store::new();
    create_language(&mut store, String::from("eng")).unwrap();

    // fourteen sentences with strictly increasing identifiers
    for k in 1u128..=14u128 {
        insert_numbered(&mut store, k, &format!("sentence number {}", k));
    }

    // no cursor: the first ten
    let first_page = list_sentences(&store, None, 10);
    assert_eq!(first_page.len(), 10);
    for (pos, sentence) in first_page.iter().enumerate() {
        assert_eq!(sentence.id, Some(pos as u128 + 1));
    }

    // cursor at the tenth: five remaining, the tenth included again
    let tenth_id = first_page[9].id.unwrap();
    assert_eq!(tenth_id, 10);
    let second_page = list_sentences(&store, Some(tenth_id), 10);
    assert_eq!(second_page.len(), 5);
    for (pos, sentence) in second_page.iter().enumerate() {
        assert_eq!(sentence.id, Some(pos as u128 + 10));
    }
}

#[test]
fn test_pagination_cap_applies_without_cursor() {
    let mut store = Store::new();
    create_language(&mut store, String::from("eng")).unwrap();

    for k in 1u128..=5u128 {
        insert_numbered(&mut store, k, &format!("sentence number {}", k));
    }

    let page = list_sentences(&store, None, 3);
    assert_eq!(page.len(), 3);
    assert_eq!(page[0].id, Some(1));
    assert_eq!(page[2].id, Some(3));
}

#[test]
fn test_pagination_keeps_creation_order() {
    let mut store = Store::new();
    create_language(&mut store, String::from("eng")).unwrap();

    // identifiers out of order: the listing keeps creation order
    insert_numbered(&mut store, 7, "late identifier first");
    insert_numbered(&mut store, 3, "early identifier second");

    let page = list_sentences(&store, None, 10);
    assert_eq!(page.len(), 2);
    assert_eq!(page[0].id, Some(7));
    assert_eq!(page[1].id, Some(3));
}
