//! Designations: packed, unpacked, and as alerts carry them.

use boom_ztf::utils::designation::{find_char, unpack_year};
use boom_ztf::utils::mpcorb::{
    is_record_shaped, normalize_ztf_ssnamenr, packed_value, unpack_designation,
};
use boom_ztf::utils::text::{
    chars, decimal_text, signed_decimal_text, trim, whitespace,
};

const COLUMN_HEADER: &str = "Des'n     H     G   Epoch     M        Peri.      Node       Incl.       e            n           a        Reference #Obs #Opp    Arc    rms  Perts   Computer";
const RULE: &str = "------------------------------------------------------------------------------------------------------------------------";

#[test]
fn test_unpacks_numbered_designations() {
    assert_eq!(unpack_designation("00001").as_deref(), Some("1"));
    assert_eq!(unpack_designation("09816").as_deref(), Some("9816"));
    assert_eq!(unpack_designation("A0000").as_deref(), Some("100000"));
    // 565784 = 56 * 10000 + 5784, and 56 packs to 'u'.
    assert_eq!(unpack_designation("u5784").as_deref(), Some("565784"));
}

// Documented MPC examples.
#[test]
fn test_unpacks_provisional_designations() {
    assert_eq!(unpack_designation("J95X00A").as_deref(), Some("1995 XA"));
    assert_eq!(unpack_designation("J95X01L").as_deref(), Some("1995 XL1"));
    assert_eq!(unpack_designation("K14Wq4F").as_deref(), Some("2014 WF524"));
}

// ZTF reports ssnamenr unpacked, so these must match without further work.
#[test]
fn test_designations_match_the_ztf_convention() {
    for (packed, ztf) in [("09816", "9816"), ("21949", "21949"), ("u5784", "565784")] {
        assert_eq!(unpack_designation(packed).as_deref(), Some(ztf));
    }
}

#[test]
fn test_normalizes_bare_numbers() {
    assert_eq!(normalize_ztf_ssnamenr("9816").as_deref(), Some("9816"));
    assert_eq!(normalize_ztf_ssnamenr("  305164 ").as_deref(), Some("305164"));
}

#[test]
fn test_normalizes_the_early_parenthesised_form() {
    assert_eq!(normalize_ztf_ssnamenr("(100)Hekate").as_deref(), Some("100"));
    assert_eq!(normalize_ztf_ssnamenr("(57996)2002RV107").as_deref(), Some("57996"));
    assert_eq!(normalize_ztf_ssnamenr("(190564)2000SU128").as_deref(), Some("190564"));
}

#[test]
fn test_normalizes_provisional_designations() {
    assert_eq!(normalize_ztf_ssnamenr("2015TW415").as_deref(), Some("2015 TW415"));
    assert_eq!(normalize_ztf_ssnamenr("2014YB").as_deref(), Some("2014 YB"));
    assert_eq!(normalize_ztf_ssnamenr("1998QF28").as_deref(), Some("1998 QF28"));
}

// Round-trip against the packed side: whatever IPAC reports must land on the
// key that the catalogue has.
#[test]
fn test_normalized_ssnamenr_matches_unpacked_mpcorb_keys() {
    for (packed, ssnamenr) in [
        ("09816", "9816"),
        ("K14Wq4F", "2014WF524"),
        ("J95X00A", "1995XA"),
        ("J95X01L", "1995XL1"),
    ] {
        assert_eq!(
            normalize_ztf_ssnamenr(ssnamenr),
            unpack_designation(packed),
            "ssnamenr {} did not resolve to the key for {}",
            ssnamenr,
            packed
        );
    }
}

#[test]
fn test_rejects_what_it_cannot_resolve() {
    assert_eq!(normalize_ztf_ssnamenr(""), None);
    assert_eq!(normalize_ztf_ssnamenr("()"), None);
}

/// Comets key on the designation as IPAC writes it, which is what the comet
/// ingest stores.
#[test]
fn test_comet_designations_pass_through() {
    for d in ["C/2026O1", "73P-C", "124P", "1P", "P/2005T5"] {
        assert_eq!(normalize_ztf_ssnamenr(d).as_deref(), Some(d));
    }
}

// Roughly 4,000 objects from the Palomar-Leiden surveys use their own packed
// form, which is neither numbered nor provisional.
#[test]
fn test_unpacks_survey_designations() {
    assert_eq!(unpack_designation("PLS4847").as_deref(), Some("4847 P-L"));
    assert_eq!(unpack_designation("PLS6331").as_deref(), Some("6331 P-L"));
    assert_eq!(unpack_designation("T1S0123").as_deref(), Some("123 T-1"));
    assert_eq!(unpack_designation("T2S2040").as_deref(), Some("2040 T-2"));
    assert_eq!(unpack_designation("T3S3141").as_deref(), Some("3141 T-3"));
}

// The three worked examples of the MPC.
#[test]
fn test_unpacks_extended_provisional_designations() {
    assert_eq!(unpack_designation("_QC0000").as_deref(), Some("2026 CA620"));
    assert_eq!(unpack_designation("_QC0aEM").as_deref(), Some("2026 CZ6190"));
    assert_eq!(unpack_designation("_QCzzzz").as_deref(), Some("2026 CL591673"));
}

// Both are long enough to look like records, and both precede every refresh.
#[test]
fn test_the_column_header_and_rule_are_not_record_shaped() {
    assert!(!is_record_shaped(COLUMN_HEADER));
    assert!(!is_record_shaped(RULE));
    assert!(COLUMN_HEADER.len() >= 103 && RULE.len() >= 103);
}

#[test]
fn very_high_numbers_unpack() {
    assert_eq!(unpack_designation("~0000").as_deref(), Some("620000"));
    assert_eq!(unpack_designation("~000z").as_deref(), Some("620061"));
    assert_eq!(unpack_designation("~zzzz").as_deref(), Some("15396335"));
    assert_eq!(unpack_designation("~0-00"), None);
}

#[test]
fn what_is_not_packed_does_not_unpack() {
    for s in ["", "1", "123456", "?1234", "A12x4", "L95X00A", "J9xX00A", "PLS0000", "PLS12x4"] {
        assert_eq!(unpack_designation(s), None, "{}", s);
    }
    assert_eq!(unpack_designation("00000").as_deref(), Some(""));
    assert_eq!(unpack_designation("  00001 ").as_deref(), Some("1"));
}

#[test]
fn packed_values_cover_sixty_two_characters() {
    assert_eq!(packed_value('0'), Some(0));
    assert_eq!(packed_value('9'), Some(9));
    assert_eq!(packed_value('A'), Some(10));
    assert_eq!(packed_value('Z'), Some(35));
    assert_eq!(packed_value('a'), Some(36));
    assert_eq!(packed_value('z'), Some(61));
    assert_eq!(packed_value('_'), None);
}

#[test]
fn a_provisional_designation_may_end_in_a_comet_letter() {
    for (name, key) in [
        ("2014YC", "2014 YC"),
        ("2014YD", "2014 YD"),
        ("2014YP", "2014 YP"),
        ("2014YX", "2014 YX"),
    ] {
        assert_eq!(normalize_ztf_ssnamenr(name).as_deref(), Some(key));
    }
}

#[test]
fn unresolvable_names_have_no_key() {
    for s in ["Hekate", "(12", "(1x)Ceres", "2014yb", "2014YB1x", "20 14YB"] {
        assert_eq!(normalize_ztf_ssnamenr(s), None, "{}", s);
    }
}

#[test]
fn years_and_places_are_found() {
    let c = chars("K26C1");
    assert_eq!(unpack_year(&c), Some(2026));
    assert_eq!(unpack_year(&chars("L26C1")), None);
    assert_eq!(find_char(&c, 'C', 0), 3);
    assert_eq!(find_char(&c, 'x', 0), 5);
}

#[test]
fn white_space_is_that_of_the_standard_library() {
    let mut n: u32 = 0;
    while n <= 0x10ffff {
        if let Some(c) = char::from_u32(n) {
            assert_eq!(whitespace(c), c.is_whitespace(), "{:x}", n);
        }
        n += 1;
    }
    assert_eq!(trim("\u{2003} a b\t\n"), "a b");
    assert_eq!(trim(" \u{a0} "), "");
}

#[test]
fn numbers_are_written_in_decimal() {
    for n in [0u64, 7, 10, 99, 12345, u64::MAX] {
        assert_eq!(decimal_text(n), format!("{}", n));
    }
    for n in [0i64, -1, 42, i64::MIN, i64::MAX] {
        assert_eq!(signed_decimal_text(n), format!("{}", n));
    }
}
