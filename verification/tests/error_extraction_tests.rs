use bazelfe_core::error_extraction::{
    extract_errors, extract_suffix_errors, FileParseCache, Import, ParsedFile,
    ScalaClassImportRequest, SelectorType,
};

fn candidate(file: &str, class: &str) -> ScalaClassImportRequest {
    ScalaClassImportRequest {
        src_file_name: String::from(file),
        class_name: String::from(class),
        exact_only: false,
        src_fn: "extract_object_not_found",
        priority: 1,
    }
}

#[test]
fn to_class_import_request_qualifies_the_extractor() {
    let converted = candidate("src/A.scala", "com.example.Foo").to_class_import_request();
    assert_eq!(converted.class_name, String::from("com.example.Foo"));
    assert_eq!(converted.src_fn, String::from("scala::extract_object_not_found"));
    assert_eq!(converted.exact_only, false);
    assert_eq!(converted.priority, 1);
}

#[test]
fn extract_errors_without_cached_file_passes_through() {
    let mut cache = FileParseCache::new();
    let out = extract_errors(&vec![candidate("src/A.scala", "Foo")], &mut cache);
    assert_eq!(out.len(), 1);
    assert_eq!(out[0].class_name, String::from("Foo"));
    assert_eq!(out[0].src_fn, String::from("scala::extract_object_not_found"));
}

#[test]
fn extract_errors_adds_wildcard_variants() {
    let parsed = ParsedFile {
        imports: vec![
            Import {
                prefix_section: String::from("com.example.wild"),
                suffix: SelectorType::WildcardSelector,
            },
            Import {
                prefix_section: String::from("com.example.noise"),
                suffix: SelectorType::NoSelector,
            },
        ],
    };
    let mut cache = FileParseCache::init_from_par(String::from("src/A.scala"), parsed);
    let out = extract_errors(&vec![candidate("src/A.scala", "Foo")], &mut cache);
    assert_eq!(out.len(), 2);
    assert_eq!(out[0].class_name, String::from("com.example.wild.Foo"));
    assert_eq!(out[1].class_name, String::from("Foo"));
}

#[test]
fn load_file_answers_from_stored_entries() {
    let mut cache = FileParseCache::new();
    assert!(cache.load_file("src/A.scala").is_none());
    cache.store_file(
        String::from("src/A.scala"),
        ParsedFile { imports: Vec::new() },
    );
    let loaded = cache.load_file("src/A.scala");
    assert_eq!(loaded, Some(&ParsedFile { imports: Vec::new() }));
}

#[test]
fn suffix_extraction_is_empty() {
    assert!(extract_suffix_errors("whatever text").is_empty());
}
