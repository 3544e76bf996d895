use abolishpdfs::model::{FontCatalog, FontSource};

fn font(name: &str) -> FontSource {
    FontSource {
        name: name.to_owned(),
        embedded: Some(true),
        data: Some(vec![1, 2, 3]),
        used_unicode: vec!['A'],
        mapping_proven: false,
        processed: None,
    }
}

#[test]
fn document_font_catalog_deduplicates_names() {
    let mut catalog = FontCatalog::new();
    let source = FontSource {
        name: "Example".to_owned(),
        embedded: Some(true),
        data: Some(vec![1, 2, 3]),
        used_unicode: vec!['A'],
        mapping_proven: false,
        processed: None,
    };
    let first = catalog.insert_or_get(source.clone());
    let second = catalog.insert_or_get(source);

    assert_eq!(first, second);
    assert_eq!(catalog.fonts.len(), 1);
}

#[test]
fn insert_hands_out_consecutive_ids() {
    let mut catalog = FontCatalog::default();
    assert_eq!(catalog.insert(font("A")), 0);
    assert_eq!(catalog.insert(font("A")), 1);
    assert_eq!(catalog.insert(font("B")), 2);
    assert_eq!(catalog.fonts.len(), 3);
}

#[test]
fn insert_or_get_returns_the_first_font_of_a_name() {
    let mut catalog = FontCatalog::new();
    catalog.insert(font("A"));
    catalog.insert(font("B"));
    catalog.insert(font("B"));
    assert_eq!(catalog.insert_or_get(font("B")), 1);
    assert_eq!(catalog.insert_or_get(font("C")), 3);
    assert_eq!(catalog.insert_or_get(font("C")), 3);
    assert_eq!(catalog.fonts.len(), 4);
    assert_eq!(catalog.fonts[&3].name, "C");
}
