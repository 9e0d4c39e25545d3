use destructivator::aggregate::{aggregate, destructive_changes, ChangeRecord, ChangeStatus};
use destructivator::classify::classify;
use destructivator::forcedotcom::{ToPackage, ToXML};
use ignore::gitignore::{Gitignore, GitignoreBuilder};

fn record(path: &str, status: ChangeStatus) -> ChangeRecord {
    ChangeRecord { path: path.to_string(), status }
}

fn mapping(pairs: &[(&str, &str)]) -> Vec<(String, String)> {
    pairs.iter().map(|(k, v)| (k.to_string(), v.to_string())).collect()
}

fn filter_of(lines: &[&str]) -> Gitignore {
    let mut builder = GitignoreBuilder::new("");
    for line in lines {
        builder.add_line(None, line).unwrap();
    }
    builder.build().unwrap()
}

#[test]
fn it_strips_a_single_extension() {
    let classified = classify("classes/HelloWorld.cls").unwrap();
    assert_eq!(classified.0, "classes");
    assert_eq!(classified.1, "HelloWorld");
}

#[test]
fn it_strips_compound_extensions() {
    let classified = classify("triggers/orderBeforeInsert.trigger-meta.xml").unwrap();
    assert_eq!(classified.0, "triggers");
    assert_eq!(classified.1, "orderBeforeInsert");
}

#[test]
fn it_keeps_a_dotless_final_segment_whole() {
    let classified = classify("docs/LICENSE").unwrap();
    assert_eq!(classified.0, "docs");
    assert_eq!(classified.1, "LICENSE");
}

#[test]
fn it_lowercases_the_folder_key() {
    let classified = classify("Classes/HelloWorld.cls").unwrap();
    assert_eq!(classified.0, "classes");
}

#[test]
fn it_refuses_a_path_without_a_parent() {
    assert!(classify("README.md").is_none());
}

#[test]
fn it_refuses_an_empty_folder_key() {
    assert!(classify("/HelloWorld.cls").is_none());
}

#[test]
fn it_accepts_an_extension_only_segment_as_empty() {
    let classified = classify("classes/.cls").unwrap();
    assert_eq!(classified.1, "");
}

#[test]
fn it_builds_the_manifest_of_one_added_class() {
    let records = vec![record("classes/HelloWorld.cls", ChangeStatus::Added)];
    let map = mapping(&[("classes", "ApexClass")]);
    let package = aggregate(&records, &map, &Gitignore::empty(), None);
    let expected = r#"<?xml version="1.0" encoding="UTF-8"?>
<Package xmlns="http://soap.sforce.com/2006/04/metadata">
    <types>
        <members>HelloWorld</members>
        <name>ApexClass</name>
    </types>
    <version>39.0</version>
</Package>
"#;
    assert_eq!(package.to_xml(), expected);
}

#[test]
fn it_takes_a_supplied_version() {
    let records = vec![record("classes/HelloWorld.cls", ChangeStatus::Added)];
    let map = mapping(&[("classes", "ApexClass")]);
    let package = aggregate(&records, &map, &Gitignore::empty(), Some("30.0"));
    assert!(package.to_xml().contains("<version>30.0</version>"));
    assert!(!package.to_xml().contains("39.0"));
}

#[test]
fn it_drops_a_path_without_a_parent() {
    let records = vec![record("README.md", ChangeStatus::Added)];
    let map = mapping(&[("classes", "ApexClass")]);
    let package = aggregate(&records, &map, &Gitignore::empty(), None);
    assert!(!package.to_xml().contains("<types>"));
    assert_eq!(package.types.len(), 0);
}

#[test]
fn it_drops_an_unmapped_folder_key() {
    let records = vec![record("pages/Home.page", ChangeStatus::Added)];
    let map = mapping(&[("classes", "ApexClass")]);
    let package = aggregate(&records, &map, &Gitignore::empty(), None);
    assert_eq!(package.types.len(), 0);
}

#[test]
fn it_drops_an_empty_component_id() {
    let records = vec![record("classes/.cls", ChangeStatus::Added)];
    let map = mapping(&[("classes", "ApexClass")]);
    let package = aggregate(&records, &map, &Gitignore::empty(), None);
    assert_eq!(package.types.len(), 0);
}

#[test]
fn it_drops_records_that_are_not_added() {
    let records = vec![
        record("classes/Gone.cls", ChangeStatus::Deleted),
        record("classes/Changed.cls", ChangeStatus::Modified),
        record("classes/Moved.cls", ChangeStatus::Renamed),
        record("classes/Kept.cls", ChangeStatus::Added),
    ];
    let map = mapping(&[("classes", "ApexClass")]);
    let package = aggregate(&records, &map, &Gitignore::empty(), None);
    let xml = package.to_xml();
    assert!(xml.contains("<members>Kept</members>"));
    assert!(!xml.contains("Gone"));
    assert!(!xml.contains("Changed"));
    assert!(!xml.contains("Moved"));
}

#[test]
fn it_respects_the_path_filter() {
    let records = vec![
        record("classes/Ignored.cls", ChangeStatus::Added),
        record("classes/Kept.cls", ChangeStatus::Added),
    ];
    let map = mapping(&[("classes", "ApexClass")]);
    let filter = filter_of(&["classes/Ignored.cls"]);
    let package = aggregate(&records, &map, &filter, None);
    let xml = package.to_xml();
    assert!(xml.contains("<members>Kept</members>"));
    assert!(!xml.contains("Ignored"));
}

#[test]
fn it_respects_a_directory_level_pattern() {
    let records = vec![
        record("staticresources/logo.resource", ChangeStatus::Added),
        record("classes/Kept.cls", ChangeStatus::Added),
    ];
    let map = mapping(&[("classes", "ApexClass"), ("staticresources", "StaticResource")]);
    let filter = filter_of(&["staticresources/"]);
    let package = aggregate(&records, &map, &filter, None);
    let xml = package.to_xml();
    assert!(xml.contains("<members>Kept</members>"));
    assert!(!xml.contains("logo"));
}

#[test]
fn it_groups_two_records_of_one_type() {
    let records = vec![
        record("classes/First.cls", ChangeStatus::Added),
        record("classes/Second.cls", ChangeStatus::Added),
    ];
    let map = mapping(&[("classes", "ApexClass")]);
    let package = aggregate(&records, &map, &Gitignore::empty(), None);
    assert_eq!(package.types.len(), 1);
    assert_eq!(package.types[0].members.len(), 2);
    let xml = package.to_xml();
    let expected_block = "    <types>\n        <members>First</members>\n        <members>Second</members>\n        <name>ApexClass</name>\n    </types>";
    assert!(xml.contains(expected_block));
}

#[test]
fn it_keeps_groups_in_first_seen_order() {
    let records = vec![
        record("triggers/orderBeforeInsert.trigger", ChangeStatus::Added),
        record("classes/HelloWorld.cls", ChangeStatus::Added),
        record("triggers/accountAfterUpdate.trigger", ChangeStatus::Added),
    ];
    let map = mapping(&[("classes", "ApexClass"), ("triggers", "ApexTrigger")]);
    let package = aggregate(&records, &map, &Gitignore::empty(), None);
    assert_eq!(package.types.len(), 2);
    assert_eq!(package.types[0].name, "ApexTrigger");
    assert_eq!(package.types[1].name, "ApexClass");
    assert_eq!(package.types[0].members.len(), 2);
}

#[test]
fn it_keeps_duplicate_members() {
    let records = vec![
        record("classes/HelloWorld.cls", ChangeStatus::Added),
        record("classes/HelloWorld.cls", ChangeStatus::Added),
    ];
    let map = mapping(&[("classes", "ApexClass")]);
    let package = aggregate(&records, &map, &Gitignore::empty(), None);
    assert_eq!(package.types.len(), 1);
    assert_eq!(package.types[0].members.len(), 2);
}

#[test]
fn it_renders_identically_on_identical_input() {
    let records = vec![
        record("classes/HelloWorld.cls", ChangeStatus::Added),
        record("triggers/orderBeforeInsert.trigger", ChangeStatus::Added),
    ];
    let map = mapping(&[("classes", "ApexClass"), ("triggers", "ApexTrigger")]);
    let first = aggregate(&records, &map, &Gitignore::empty(), None).to_xml();
    let second = aggregate(&records, &map, &Gitignore::empty(), None).to_xml();
    assert_eq!(first, second);
}

#[test]
fn it_converts_records_to_a_package_without_a_filter() {
    let records = vec![record("classes/HelloWorld.cls", ChangeStatus::Added)];
    let map = mapping(&[("classes", "ApexClass")]);
    let package = records.to_package(&map);
    let xml = package.to_xml();
    assert!(xml.contains("<name>ApexClass</name>"));
    assert!(xml.contains("<members>HelloWorld</members>"));
    assert!(xml.contains("<version>39.0</version>"));
}

#[test]
fn it_renders_the_whole_pipeline_in_one_call() {
    let records = vec![
        record("classes/HelloWorld.cls", ChangeStatus::Added),
        record("classes/Ignored.cls", ChangeStatus::Added),
        record("classes/Gone.cls", ChangeStatus::Deleted),
        record("README.md", ChangeStatus::Added),
    ];
    let map = mapping(&[("classes", "ApexClass")]);
    let filter = filter_of(&["classes/Ignored.cls"]);
    let xml = destructive_changes(&records, &map, &filter, Some("45.0"));
    let expected = r#"<?xml version="1.0" encoding="UTF-8"?>
<Package xmlns="http://soap.sforce.com/2006/04/metadata">
    <types>
        <members>HelloWorld</members>
        <name>ApexClass</name>
    </types>
    <version>45.0</version>
</Package>
"#;
    assert_eq!(xml, expected);
}

#[test]
fn it_resolves_a_duplicated_mapping_key_to_the_first_entry() {
    let records = vec![record("classes/HelloWorld.cls", ChangeStatus::Added)];
    let map = mapping(&[("classes", "ApexClass"), ("classes", "Shadowed")]);
    let package = aggregate(&records, &map, &Gitignore::empty(), None);
    assert_eq!(package.types[0].name, "ApexClass");
}
