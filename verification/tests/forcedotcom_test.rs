use destructivator::forcedotcom::{Members, Package, ToXML, Types};

fn package_xml_w_def_api_version<'a>() -> &'a str {
    r#"<?xml version="1.0" encoding="UTF-8"?>
<Package xmlns="http://soap.sforce.com/2006/04/metadata">
    <types>
        <members>HelloWorld</members>
        <name>ApexClass</name>
    </types>
    <version>39.0</version>
</Package>
"#
}

fn package_xml_wo_def_api_version<'a>() -> &'a str {
    r#"<?xml version="1.0" encoding="UTF-8"?>
<Package xmlns="http://soap.sforce.com/2006/04/metadata">
    <types>
        <members>HelloWorld</members>
        <name>ApexPage</name>
    </types>
    <version>30.0</version>
</Package>
"#
}

#[test]
fn it_knows_its_package_xml_w_def_api_version() {
    let (members, mut package, mut types) = (
        Members::from("HelloWorld".to_string()),
        Package::new(None),
        Types::new("ApexClass"),
    );

    types.members.push(members);
    package.types.push(types);

    assert_eq!(package.to_xml(), package_xml_w_def_api_version());
}

#[test]
fn it_knows_its_package_xml_wo_def_api_version() {
    let (members, mut package, mut types) = (
        Members::from("HelloWorld".to_string()),
        Package::new(Some("30.0")),
        Types::new("ApexPage"),
    );

    types.members.push(members);
    package.types.push(types);

    assert_eq!(package.to_xml(), package_xml_wo_def_api_version());
}

#[test]
fn it_renders_a_package_with_no_types() {
    let package = Package::new(None);
    let expected = "<?xml version=\"1.0\" encoding=\"UTF-8\"?>\n<Package xmlns=\"http://soap.sforce.com/2006/04/metadata\">\n\n    <version>39.0</version>\n</Package>\n";
    assert_eq!(package.to_xml(), expected);
}

#[test]
fn it_renders_members_in_order() {
    let mut types = Types::new("ApexClass");
    types.members.push(Members::from("Alpha".to_string()));
    types.members.push(Members::from("Beta".to_string()));
    assert_eq!(
        types.to_xml(),
        "    <types>\n        <members>Alpha</members>\n        <members>Beta</members>\n        <name>ApexClass</name>\n    </types>"
    );
}
