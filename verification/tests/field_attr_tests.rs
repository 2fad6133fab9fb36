use bitgen::error::BitsError;
use bitgen::parse::field_info::{BitFieldAttr, BitFieldPerm};
use bitgen::parse::tokens::{BitRange, FieldToken};

fn ident(s: &str) -> FieldToken {
    FieldToken::Ident(s.to_string())
}

fn range(start: u64, end: u64) -> FieldToken {
    FieldToken::Range(BitRange {
        start,
        end,
        closed: false,
    })
}

#[test]
fn perm_defaults_to_read() {
    let toks = vec![range(0, 3)];
    let a = BitFieldAttr::parse(&toks).unwrap();
    assert_eq!(a.perm, BitFieldPerm::R);
    assert!(!a.need_try);
    assert_eq!(a.expr_range.start, 0);
    assert_eq!(a.expr_range.end, 3);
    assert!(!a.expr_range.closed);
}

#[test]
fn default_trait_is_read() {
    assert_eq!(BitFieldPerm::default(), BitFieldPerm::R);
}

#[test]
fn parses_each_permission() {
    for (name, perm) in [
        ("R", BitFieldPerm::R),
        ("W", BitFieldPerm::W),
        ("RW", BitFieldPerm::RW),
    ] {
        let toks = vec![ident(name), range(2, 5)];
        let a = BitFieldAttr::parse(&toks).unwrap();
        assert_eq!(a.perm, perm);
    }
}

#[test]
fn parses_try_marker() {
    let toks = vec![ident("R"), range(0, 3), ident("Try")];
    let a = BitFieldAttr::parse(&toks).unwrap();
    assert!(a.need_try);
    assert_eq!(a.perm, BitFieldPerm::R);
}

#[test]
fn closed_range_is_kept() {
    let toks = vec![FieldToken::Range(BitRange {
        start: 4,
        end: 7,
        closed: true,
    })];
    let a = BitFieldAttr::parse(&toks).unwrap();
    assert!(a.expr_range.closed);
}

#[test]
fn two_perm_tokens_rejected() {
    let toks = vec![ident("R"), ident("W"), range(0, 3)];
    let e = BitFieldAttr::parse(&toks).unwrap_err();
    assert_eq!(e, BitsError::MultiplePermTokens);
    assert!(e.message().contains("single perm token"));
}

#[test]
fn two_range_tokens_rejected() {
    let toks = vec![range(0, 3), range(4, 5)];
    let e = BitFieldAttr::parse(&toks).unwrap_err();
    assert_eq!(e, BitsError::MultipleRangeTokens);
    assert!(e.message().contains("single range token"));
}

#[test]
fn empty_attribute_rejected() {
    let toks: Vec<FieldToken> = vec![];
    let e = BitFieldAttr::parse(&toks).unwrap_err();
    assert_eq!(e, BitsError::EmptyFieldAttr);
    assert!(e.message().contains("cannot be empty"));
}

#[test]
fn missing_range_rejected() {
    let toks = vec![ident("RW")];
    let e = BitFieldAttr::parse(&toks).unwrap_err();
    assert_eq!(e, BitsError::MissingRange);
    assert_eq!(e.message(), "A range token must be presented");
}

#[test]
fn unknown_identifier_rejected_by_name() {
    let toks = vec![ident("RO"), range(0, 3)];
    let e = BitFieldAttr::parse(&toks).unwrap_err();
    assert_eq!(e, BitsError::UnknownFieldArg("RO".to_string()));
    assert_eq!(
        e.message(),
        "Unknown arg: \"RO\" in attribute \"field\""
    );
}

#[test]
fn unparsable_token_rejected() {
    let toks = vec![FieldToken::Other, range(0, 3)];
    let e = BitFieldAttr::parse(&toks).unwrap_err();
    assert_eq!(e, BitsError::UnparsableFieldToken);
    assert_eq!(e.message(), "Cannot parse as field attr");
}

#[test]
fn duplicate_check_precedes_token_scan() {
    // Two permissions and an unknown identifier: the duplication wins.
    let toks = vec![ident("bogus"), ident("R"), ident("W")];
    let e = BitFieldAttr::parse(&toks).unwrap_err();
    assert_eq!(e, BitsError::MultiplePermTokens);
}
