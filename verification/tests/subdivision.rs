use iso3166_2::{Code, Subdivision, SubdivisionCodeParseError};

#[test]
fn convert_from_and_to_string() {
    let tests = [
        ("US-NY", Ok(Code::US_NY)),
        ("FR-75", Ok(Code::FR_75)),
        ("GB-ABC", Ok(Code::GB_ABC)),
        // Invalid inputs
        ("FR_75", Err(SubdivisionCodeParseError::InvalidCode)), // Underscore instead of dash
        ("fr-75", Err(SubdivisionCodeParseError::InvalidCode)), // Lowercase
        ("invalid", Err(SubdivisionCodeParseError::InvalidCode)),
    ];

    for (raw, expected) in &tests {
        let actual = Code::from_str(raw);
        assert_eq!(expected, &actual);

        // re-convert
        if let Ok(actual) = actual {
            let str = actual.to_string();
            assert_eq!(str, raw.to_string());
        }
    }
}

#[test]
fn serialize_subdivision() {
    let arizona: Subdivision = Subdivision::new(Code::US_AZ);

    let california: Subdivision = Subdivision::new(Code::US_CA);

    let colorado: Subdivision = Subdivision::new(Code::US_CO);

    let connecticut: Subdivision = Subdivision::new(Code::US_CT);

    let tests = [
        (arizona, "US-AZ"),
        (california, "US-CA"),
        (colorado, "US-CO"),
        (connecticut, "US-CT"),
    ];

    for (subdivision, expected) in &tests {
        let actual =
            serde_json::to_value(subdivision.to_string()).expect("should serialize the subdivision");

        assert_eq!(serde_json::Value::String(expected.to_string()), actual);

        // re-convert
        let wire: String = serde_json::from_value(actual).expect("should deserialize the subdivision");
        let converted =
            Subdivision::from_str(&wire).expect("should deserialize the subdivision");

        assert_eq!(subdivision, &converted);
    }
}

#[test]
fn round_trip_every_member() {
    for code in Code::all_codes() {
        let rendered = code.to_string();
        assert!(!rendered.is_empty());
        assert_eq!(Code::from_str(&rendered), Ok(code));
    }
}

#[test]
fn canonical_codes_are_unique() {
    let all = Code::all_codes();
    assert_eq!(all.len(), 8);
    for (i, a) in all.iter().enumerate() {
        for b in all.iter().skip(i + 1) {
            assert_ne!(a.to_string(), b.to_string());
        }
    }
}

#[test]
fn parse_is_exact() {
    let rejected = [
        "", "US", "US-", "US-N", "US-NYC", " US-NY", "US-NY ", "us-ny", "Us-NY", "US_NY",
        "USNY", "FR-IDF-75",
    ];
    for raw in &rejected {
        assert_eq!(
            Code::from_str(raw),
            Err(SubdivisionCodeParseError::InvalidCode)
        );
    }
}

#[test]
fn accessors_return_dataset_values() {
    let arizona = Subdivision::from_str("US-AZ").expect("US-AZ is in the table");
    assert_eq!(arizona.code(), Code::US_AZ);
    assert_eq!(arizona.name(), "Arizona");
    assert_eq!(arizona.ty(), "State");

    let paris = Subdivision::from_str("FR-75").expect("FR-75 is in the table");
    assert_eq!(paris.name(), "Paris");
    assert_eq!(paris.ty(), "Metropolitan department");
}

#[test]
fn parent_is_referenced_by_code() {
    assert_eq!(Code::FR_75.parent_code(), Some("FR-IDF"));
    assert_eq!(Code::FR_IDF.parent_code(), None);
    assert_eq!(Code::US_NY.parent_code(), None);
    // The parent reference resolves within the same closed set.
    assert_eq!(Code::from_str("FR-IDF"), Ok(Code::FR_IDF));
}

#[test]
fn ordering_follows_declaration_order() {
    let all = Code::all_codes();
    for (i, code) in all.iter().enumerate() {
        assert_eq!(code.ordinal(), i);
    }
    for pair in all.windows(2) {
        assert!(pair[0] < pair[1]);
    }
}

#[test]
fn error_message_describes_invalid_code() {
    let err = Code::from_str("invalid").unwrap_err();
    assert_eq!(err, SubdivisionCodeParseError::InvalidCode);
    assert_eq!(err.message(), "invalid iso subdivison code string");
}
