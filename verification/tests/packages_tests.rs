use std::cmp::Ordering;
use verdaccio_control::{
    classify_entry, contains_name, filter_package_names_by_type, full_scoped_name,
    get_package_path, is_valid_package_dir, package_names_from_api, paginate, parse_author,
    parse_repository, read_package_info, sort_package_dirs, sort_versions_desc,
    summarize_deletions, version_compare, version_from_manifest, EntryKind, JsonValue,
    PackageType,
};

fn s(text: &str) -> String {
    text.to_string()
}

#[test]
fn version_numbers_decide_the_order() {
    assert_eq!(version_compare("1.2.3", "1.2.10"), Ordering::Less);
    assert_eq!(version_compare("1.2.10", "1.2.3"), Ordering::Greater);
    assert_eq!(version_compare("1.2.3", "1.2.3"), Ordering::Equal);
    assert_eq!(version_compare("2.0", "10.0"), Ordering::Less);
    assert_eq!(version_compare("1.2", "1.2.0"), Ordering::Less);
    assert_eq!(version_compare("1.0.0-rc.1", "1.0.0-rc.2"), Ordering::Less);
}

#[test]
fn oversized_digit_runs_are_ignored() {
    // the huge run cannot be a 32-bit number, so only `1` counts
    assert_eq!(version_compare("99999999999999999999.1", "1"), Ordering::Equal);
    assert_eq!(version_compare("4294967295", "4294967296"), Ordering::Greater);
}

#[test]
fn package_paths_follow_the_storage_layout() {
    assert_eq!(get_package_path("/s", "lodash"), "/s/lodash");
    assert_eq!(get_package_path("/s", "@scope/pkg"), "/s/@scope/pkg");
    assert_eq!(get_package_path("/s", "@noslash"), "/s/@noslash");
}

#[test]
fn entries_are_classified_by_their_first_character() {
    assert_eq!(classify_entry("@scope"), EntryKind::Scoped);
    assert_eq!(classify_entry(".cache"), EntryKind::Hidden);
    assert_eq!(classify_entry("lodash"), EntryKind::Plain);
    assert_eq!(classify_entry(""), EntryKind::Plain);
}

#[test]
fn package_dir_probe() {
    assert!(is_valid_package_dir(true, true));
    assert!(!is_valid_package_dir(true, false));
    assert!(!is_valid_package_dir(false, true));
    assert_eq!(full_scoped_name("@scope", "pkg"), "@scope/pkg");
}

#[test]
fn pagination_cuts_the_requested_page() {
    let names: Vec<String> = (0..25).map(|i| format!("pkg{:02}", i)).collect();
    let page = paginate(names, 2, 10);
    assert_eq!(page.total, 25);
    assert_eq!(page.page, 2);
    assert_eq!(page.page_size, 10);
    assert_eq!(page.total_pages, 3);
    assert_eq!(page.items.len(), 10);
    assert_eq!(page.items[0], "pkg10");
    assert_eq!(page.items[9], "pkg19");
}

#[test]
fn pagination_of_an_empty_listing() {
    let page = paginate(Vec::new(), 1, 10);
    assert_eq!(page.total, 0);
    assert_eq!(page.total_pages, 0);
    assert!(page.items.is_empty());
}

#[test]
fn the_last_page_may_be_short() {
    let names: Vec<String> = (0..25).map(|i| format!("pkg{:02}", i)).collect();
    let page = paginate(names, 3, 10);
    assert_eq!(page.items.len(), 5);
    assert_eq!(page.items[4], "pkg24");
}

#[test]
fn filtering_by_package_type() {
    let all = vec![s("a"), s("b"), s("c")];
    let private = vec![s("b")];
    assert_eq!(
        filter_package_names_by_type(all.clone(), PackageType::All, &private),
        all
    );
    assert_eq!(
        filter_package_names_by_type(all.clone(), PackageType::Private, &private),
        vec![s("b")]
    );
    assert_eq!(
        filter_package_names_by_type(all, PackageType::Cached, &private),
        vec![s("a"), s("c")]
    );
    assert!(contains_name(&private, "b"));
    assert!(!contains_name(&private, "a"));
}

#[test]
fn versions_sort_newest_first() {
    let sorted = sort_versions_desc(vec![s("1.0.0"), s("1.10.0"), s("1.2.0")]);
    assert_eq!(sorted, vec![s("1.10.0"), s("1.2.0"), s("1.0.0")]);
}

#[test]
fn directory_entries_sort_case_insensitively() {
    let sorted = sort_package_dirs(vec![
        (s("/s/Zeta"), s("Zeta")),
        (s("/s/alpha"), s("alpha")),
        (s("/s/Beta"), s("Beta")),
    ]);
    let names: Vec<String> = sorted.into_iter().map(|e| e.1).collect();
    // byte order would put the capitals first; the fold must not
    assert_eq!(names, vec![s("alpha"), s("Beta"), s("Zeta")]);
}

fn obj(fields: Vec<(&str, JsonValue)>) -> JsonValue {
    JsonValue::Object(fields.into_iter().map(|(k, v)| (k.to_string(), v)).collect())
}

#[test]
fn author_fields_take_both_shapes() {
    assert_eq!(
        parse_author(&JsonValue::Str(s("Jan Author"))),
        Some(s("Jan Author"))
    );
    assert_eq!(
        parse_author(&obj(vec![("name", JsonValue::Str(s("Jan")))])),
        Some(s("Jan"))
    );
    assert_eq!(parse_author(&obj(vec![("email", JsonValue::Str(s("x@y")))])), None);
    assert_eq!(parse_author(&JsonValue::Number), None);
}

#[test]
fn repository_fields_take_both_shapes() {
    assert_eq!(
        parse_repository(&JsonValue::Str(s("git://x"))),
        Some(s("git://x"))
    );
    assert_eq!(
        parse_repository(&obj(vec![("url", JsonValue::Str(s("git://y")))])),
        Some(s("git://y"))
    );
    assert_eq!(parse_repository(&JsonValue::Null), None);
}

#[test]
fn manifest_fields_are_assembled() {
    let latest_record = obj(vec![
        ("description", JsonValue::Str(s("from latest"))),
        ("author", obj(vec![("name", JsonValue::Str(s("Jan")))])),
        (
            "keywords",
            JsonValue::Array(vec![
                JsonValue::Str(s("registry")),
                JsonValue::Number,
                JsonValue::Str(s("npm")),
            ]),
        ),
        ("homepage", JsonValue::Str(s("https://example.test"))),
        ("repository", obj(vec![("url", JsonValue::Str(s("git://r")))])),
    ]);
    let manifest = obj(vec![
        ("dist-tags", obj(vec![("latest", JsonValue::Str(s("1.2.0")))])),
        (
            "versions",
            obj(vec![
                ("1.0.0", JsonValue::Number),
                ("1.2.0", latest_record),
                ("1.10.0", JsonValue::Number),
            ]),
        ),
        ("license", JsonValue::Str(s("MIT"))),
        (
            "time",
            obj(vec![
                ("created", JsonValue::Str(s("2020-01-01"))),
                ("modified", JsonValue::Str(s("2021-01-01"))),
            ]),
        ),
    ]);
    let info = read_package_info(&manifest, "demo");
    assert_eq!(info.name, "demo");
    assert_eq!(info.version, "1.2.0");
    assert_eq!(info.description, Some(s("from latest")));
    assert_eq!(info.author, Some(s("Jan")));
    // the license only stands at the top of the manifest
    assert_eq!(info.license, Some(s("MIT")));
    assert_eq!(info.versions, vec![s("1.10.0"), s("1.2.0"), s("1.0.0")]);
    assert_eq!(info.keywords, vec![s("registry"), s("npm")]);
    assert_eq!(info.homepage, Some(s("https://example.test")));
    assert_eq!(info.repository, Some(s("git://r")));
    assert_eq!(info.created, Some(s("2020-01-01")));
    assert_eq!(info.modified, Some(s("2021-01-01")));
}

#[test]
fn a_bare_manifest_gets_placeholders() {
    let info = read_package_info(&obj(vec![]), "bare");
    assert_eq!(info.version, "0.0.0");
    assert!(info.versions.is_empty());
    assert!(info.description.is_none());
    assert!(info.author.is_none());
    assert!(info.keywords.is_empty());
}

#[test]
fn the_manifest_version_or_a_placeholder() {
    assert_eq!(
        version_from_manifest(&obj(vec![("version", JsonValue::Str(s("6.0.5")))])),
        "6.0.5"
    );
    assert_eq!(version_from_manifest(&obj(vec![])), "unknown");
}

#[test]
fn deletion_summaries() {
    let all_ok = vec![(s("a"), None), (s("b"), None)];
    assert_eq!(summarize_deletions(&all_ok), Ok(2));
    let mixed = vec![(s("a"), None), (s("b"), Some(s("busy")))];
    assert_eq!(summarize_deletions(&mixed), Ok(1));
    let all_fail = vec![(s("a"), Some(s("busy"))), (s("b"), Some(s("gone")))];
    assert_eq!(
        summarize_deletions(&all_fail),
        Err(s("Failed to delete: a: busy, b: gone"))
    );
    assert_eq!(summarize_deletions(&Vec::new()), Ok(0));
}

#[test]
fn api_listings_yield_their_names() {
    let items = vec![
        obj(vec![("name", JsonValue::Str(s("a")))]),
        obj(vec![("name", JsonValue::Str(s("b")))]),
    ];
    assert_eq!(package_names_from_api(&items), Ok(vec![s("a"), s("b")]));
    let broken = vec![obj(vec![("label", JsonValue::Str(s("a")))])];
    assert_eq!(
        package_names_from_api(&broken),
        Err(s("Failed to parse response"))
    );
}
