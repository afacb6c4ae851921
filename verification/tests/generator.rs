use iso3166_2::generator::{
    derive_identifier, generate_subdivision_file, identifiers_are_unique, normalize_dataset,
    prefix_is_known, scope_to_countries, CountryRecord, GenerateError, GeneratedVariant,
    SubdivisionRecord,
};
use iso3166_2::Code;

fn record(code: &str, name: &str, ty: &str, parent: Option<&str>) -> SubdivisionRecord {
    SubdivisionRecord {
        code: code.to_string(),
        name: name.to_string(),
        ty: ty.to_string(),
        parent: parent.map(|p| p.to_string()),
    }
}

fn country(alpha_2: &str, alpha_3: &str, name: &str, numeric: u16) -> CountryRecord {
    CountryRecord {
        alpha_2: alpha_2.to_string(),
        alpha_3: alpha_3.to_string(),
        name: name.to_string(),
        numeric,
    }
}

#[test]
fn identifier_replaces_every_dash() {
    assert_eq!(derive_identifier("US-NY"), "US_NY");
    assert_eq!(derive_identifier("GB-ABC"), "GB_ABC");
    assert_eq!(derive_identifier("A-B-C"), "A_B_C");
    assert_eq!(derive_identifier("NODASH"), "NODASH");
    assert_eq!(derive_identifier(""), "");
}

#[test]
fn normalization_keeps_every_field() {
    let records = vec![record(
        "FR-75",
        "Paris",
        "Metropolitan department",
        Some("FR-IDF"),
    )];
    let variants = normalize_dataset(&records);
    assert_eq!(variants.len(), 1);
    let v: &GeneratedVariant = &variants[0];
    assert_eq!(v.code_identifier, "FR_75");
    assert_eq!(v.code, "FR-75");
    assert_eq!(v.name, "Paris");
    assert_eq!(v.ty, "Metropolitan department");
    assert_eq!(v.parent.as_deref(), Some("FR-IDF"));
}

#[test]
fn three_record_dataset_generates_exactly_three_members() {
    let records = vec![
        record("US-NY", "New York", "State", None),
        record("FR-75", "Paris", "Metropolitan department", Some("FR-IDF")),
        record(
            "GB-ABC",
            "Armagh City, Banbridge and Craigavon",
            "District",
            None,
        ),
    ];
    let unit = generate_subdivision_file(&records).expect("distinct codes generate cleanly");

    let expected = "pub enum Code {\n    US_NY,\n    FR_75,\n    GB_ABC,\n}\n\npub const SUBDIVISIONS: &[(Code, &str, &str, &str, Option<&str>)] = &[\n    (Code::US_NY, \"US-NY\", \"New York\", \"State\", None),\n    (Code::FR_75, \"FR-75\", \"Paris\", \"Metropolitan department\", Some(\"FR-IDF\")),\n    (Code::GB_ABC, \"GB-ABC\", \"Armagh City, Banbridge and Craigavon\", \"District\", None),\n];\n";
    assert_eq!(unit, expected);

    // The three codes are members of the runtime table as well.
    assert_eq!(Code::from_str("US-NY"), Ok(Code::US_NY));
    assert_eq!(Code::US_NY.to_string(), "US-NY");
}

#[test]
fn empty_dataset_generates_empty_table() {
    let unit = generate_subdivision_file(&Vec::new()).expect("nothing collides in an empty dataset");
    let expected = "pub enum Code {\n}\n\npub const SUBDIVISIONS: &[(Code, &str, &str, &str, Option<&str>)] = &[\n];\n";
    assert_eq!(unit, expected);
}

#[test]
fn colliding_identifiers_fail_generation() {
    // "AA-B" and "AA_B" both derive the identifier "AA_B".
    let records = vec![
        record("AA-B", "First", "Region", None),
        record("AA_B", "Second", "Region", None),
    ];
    let variants = normalize_dataset(&records);
    assert!(!identifiers_are_unique(&variants));
    assert_eq!(
        generate_subdivision_file(&records),
        Err(GenerateError::DuplicateIdentifier)
    );
}

#[test]
fn duplicate_codes_fail_generation() {
    let records = vec![
        record("US-NY", "New York", "State", None),
        record("US-NY", "New York again", "State", None),
    ];
    assert_eq!(
        generate_subdivision_file(&records),
        Err(GenerateError::DuplicateIdentifier)
    );
}

#[test]
fn runtime_table_agrees_with_generator() {
    // Regenerating from the very entries the runtime table carries must
    // succeed and emit each member under its derived identifier.
    let records: Vec<SubdivisionRecord> = Code::all_codes()
        .iter()
        .map(|c| SubdivisionRecord {
            code: c.to_string(),
            name: c.name().to_string(),
            ty: c.ty().to_string(),
            parent: c.parent_code().map(|p| p.to_string()),
        })
        .collect();
    let unit = generate_subdivision_file(&records).expect("the baked dataset has distinct codes");
    for c in Code::all_codes() {
        let identifier = derive_identifier(&c.to_string());
        assert!(unit.contains(&format!("    {},\n", identifier)));
        assert!(unit.contains(&format!(
            "(Code::{}, \"{}\", \"{}\", \"{}\",",
            identifier,
            c.to_string(),
            c.name(),
            c.ty()
        )));
    }
}

#[test]
fn scoping_keeps_only_known_country_prefixes() {
    let countries = vec![
        country("US", "USA", "United States", 840),
        country("FR", "FRA", "France", 250),
    ];
    let records = vec![
        record("US-NY", "New York", "State", None),
        record("GB-ABC", "Armagh City, Banbridge and Craigavon", "District", None),
        record("FR-75", "Paris", "Metropolitan department", Some("FR-IDF")),
        record("X", "Too short to carry a prefix", "None", None),
    ];

    assert!(prefix_is_known(&countries, "US-NY"));
    assert!(!prefix_is_known(&countries, "GB-ABC"));

    let kept = scope_to_countries(&countries, &records);
    let codes: Vec<&str> = kept.iter().map(|r| r.code.as_str()).collect();
    assert_eq!(codes, ["US-NY", "FR-75"]);
}
