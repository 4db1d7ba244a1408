use qa_store::errors::DBError;
use qa_store::identifier::{is_canonical, Identifier};

#[test]
fn parses_grouped_text() {
    let id = Identifier::parse("67e55044-10b1-426f-9247-bb680e5fe0c8").unwrap();
    assert_eq!(id.as_u128(), 0x67e55044_10b1_426f_9247_bb680e5fe0c8u128);
}

#[test]
fn parses_text_in_one_run() {
    let id = Identifier::parse("67e5504410b1426f9247bb680e5fe0c8").unwrap();
    assert_eq!(id.as_u128(), 0x67e55044_10b1_426f_9247_bb680e5fe0c8u128);
}

#[test]
fn parses_upper_case_digits() {
    let id = Identifier::parse("F9168C5E-CEB2-4faa-B6BF-329BF39FA1E4").unwrap();
    assert_eq!(id.as_u128(), 0xf9168c5e_ceb2_4faa_b6bf_329bf39fa1e4u128);
}

#[test]
fn parses_the_smallest_and_the_largest_value() {
    assert_eq!(Identifier::parse("00000000-0000-0000-0000-000000000000").unwrap().as_u128(), 0);
    assert_eq!(
        Identifier::parse("ffffffffffffffffffffffffffffffff").unwrap().as_u128(),
        u128::MAX
    );
}

#[test]
fn most_significant_digit_comes_first() {
    let id = Identifier::parse("10000000-0000-0000-0000-000000000002").unwrap();
    assert_eq!(id.as_u128(), (1u128 << 124) + 2);
}

#[test]
fn refuses_empty_text() {
    assert_eq!(Identifier::parse(""), Err(DBError::InvalidUUID(String::new())));
}

#[test]
fn refuses_wrong_length() {
    for raw in [
        "67e55044-10b1-426f-9247-bb680e5fe0c",
        "67e55044-10b1-426f-9247-bb680e5fe0c88",
        "67e5504410b1426f9247bb680e5fe0c",
        "67e5504410b1426f9247bb680e5fe0c88",
        "1",
    ] {
        assert_eq!(Identifier::parse(raw), Err(DBError::InvalidUUID(raw.to_string())));
    }
}

#[test]
fn refuses_invalid_characters() {
    for raw in [
        "67e55044-10b1-426f-9247-bb680e5fe0cg",
        "67e5504410b1426f9247bb680e5fe0cz",
        "67e55044-10b1-426f-9247-bb680e5fe0 8",
        "67e5504410b1426f9247bb680e5fe0c\u{e9}",
    ] {
        assert_eq!(Identifier::parse(raw), Err(DBError::InvalidUUID(raw.to_string())));
    }
}

#[test]
fn refuses_wrong_grouping() {
    for raw in [
        "67e5504-410b1-426f-9247-bb680e5fe0c8",
        "67e55044-10b1426f-9247-bb680e5fe0c8-",
        "67e55044010b1-426f-9247-bb680e5fe0c8",
        "67e55044-10b1-426f-9247-bb680e5f-0c8",
        "------------------------------------",
    ] {
        assert_eq!(Identifier::parse(raw), Err(DBError::InvalidUUID(raw.to_string())));
    }
}

#[test]
fn refuses_wrapped_forms() {
    for raw in [
        "urn:uuid:67e55044-10b1-426f-9247-bb680e5fe0c8",
        "{67e55044-10b1-426f-9247-bb680e5fe0c8}",
        " 67e55044-10b1-426f-9247-bb680e5fe0c8",
    ] {
        assert_eq!(Identifier::parse(raw), Err(DBError::InvalidUUID(raw.to_string())));
    }
}

#[test]
fn canonical_form_is_recognised() {
    assert!(is_canonical("67e55044-10b1-426f-9247-bb680e5fe0c8"));
    assert!(is_canonical("67E5504410B1426F9247BB680E5FE0C8"));
    assert!(!is_canonical("67e55044-10b1-426f-9247bb680e5fe0c8"));
    assert!(!is_canonical("not an identifier"));
    assert!(!is_canonical(""));
}

#[test]
fn renders_grouped_lower_case() {
    let id = Identifier::from_u128(0xF9168C5E_CEB2_4FAA_B6BF_329BF39FA1E4u128);
    assert_eq!(id.render(), "f9168c5e-ceb2-4faa-b6bf-329bf39fa1e4");
    assert_eq!(Identifier::from_u128(0).render(), "00000000-0000-0000-0000-000000000000");
    assert_eq!(Identifier::from_u128(1).render(), "00000000-0000-0000-0000-000000000001");
    assert_eq!(
        Identifier::from_u128(u128::MAX).render(),
        "ffffffff-ffff-ffff-ffff-ffffffffffff"
    );
}

#[test]
fn parse_after_render_gives_the_identifier() {
    for value in [
        0u128,
        1,
        15,
        16,
        255,
        0x67e55044_10b1_426f_9247_bb680e5fe0c8,
        1u128 << 64,
        (1u128 << 127) + 12345,
        u128::MAX - 1,
        u128::MAX,
    ] {
        let id = Identifier::from_u128(value);
        assert_eq!(Identifier::parse(&id.render()), Ok(id));
    }
}

#[test]
fn render_after_parse_gives_the_grouped_text() {
    let id = Identifier::parse("67E5504410B1426F9247BB680E5FE0C8").unwrap();
    assert_eq!(id.render(), "67e55044-10b1-426f-9247-bb680e5fe0c8");
}
