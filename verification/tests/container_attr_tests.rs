use bitgen::error::BitsError;
use bitgen::parse::bits_attr::BitStructAttr;
use bitgen::parse::container_attr::BitContainerAttr;
use bitgen::parse::tokens::{ContainerToken, ExportArg, Vis, Width};

fn ident(s: &str) -> ContainerToken {
    ContainerToken::Ident(s.to_string())
}

#[test]
fn width_alone_keeps_default_visibility() {
    let toks = vec![ident("u32")];
    let a = BitStructAttr::parse(&toks).unwrap();
    assert_eq!(a.base_ty, Width::U32);
    assert_eq!(a.export, Vis::Inherited);
}

#[test]
fn every_width_is_recognized() {
    for (name, w) in [
        ("u8", Width::U8),
        ("u16", Width::U16),
        ("u32", Width::U32),
        ("u64", Width::U64),
        ("u128", Width::U128),
    ] {
        let toks = vec![ident(name)];
        let a = BitStructAttr::parse(&toks).unwrap();
        assert_eq!(a.base_ty, w);
    }
}

#[test]
fn bare_export_means_fully_public() {
    let toks = vec![ident("u32"), ident("export")];
    let a = BitStructAttr::parse(&toks).unwrap();
    assert_eq!(a.base_ty, Width::U32);
    assert_eq!(a.export, Vis::Public);
}

#[test]
fn scoped_export_names_the_scope() {
    let toks = vec![
        ident("u32"),
        ContainerToken::WithArgs(
            "export".to_string(),
            vec![ExportArg::Path("mymod".to_string())],
        ),
    ];
    let a = BitStructAttr::parse(&toks).unwrap();
    assert_eq!(a.export, Vis::Scoped("mymod".to_string()));
}

#[test]
fn two_width_tokens_rejected_as_duplicate() {
    let toks = vec![ident("u8"), ident("u16")];
    let e = BitStructAttr::parse(&toks).unwrap_err();
    assert_eq!(e, BitsError::DuplicatedContainerType);
    assert_eq!(e.message(), "Duplicated container type");
}

#[test]
fn missing_width_rejected() {
    let toks = vec![ident("export")];
    let e = BitStructAttr::parse(&toks).unwrap_err();
    assert_eq!(e, BitsError::MissingContainerType);
    assert_eq!(e.message(), "Container(base) type must be specified");
}

#[test]
fn unknown_container_token_rejected() {
    let toks = vec![ident("u32"), ident("exported")];
    let e = BitStructAttr::parse(&toks).unwrap_err();
    assert_eq!(e, BitsError::UnknownContainerAttr);
}

#[test]
fn export_with_two_arguments_rejected() {
    let toks = vec![
        ident("u32"),
        ContainerToken::WithArgs(
            "export".to_string(),
            vec![
                ExportArg::Path("a".to_string()),
                ExportArg::Path("b".to_string()),
            ],
        ),
    ];
    let e = BitStructAttr::parse(&toks).unwrap_err();
    assert_eq!(e, BitsError::TooManyExportArgs);
    assert_eq!(e.message(), "Only one path can be in export");
}

#[test]
fn export_argument_must_be_a_path() {
    let toks = vec![
        ident("u32"),
        ContainerToken::WithArgs("export".to_string(), vec![ExportArg::NotPath]),
    ];
    let e = BitStructAttr::parse(&toks).unwrap_err();
    assert_eq!(e, BitsError::ExportArgNotPath);
    assert_eq!(e.message(), "export's argument must be a path");
}

#[test]
fn flag_form_parses_both_flags() {
    let toks = vec![ident("u8"), ident("allow_overlap"), ident("export")];
    let a = BitContainerAttr::parse(&toks).unwrap();
    assert_eq!(a.base_ty, Width::U8);
    assert!(a.allow_overlap);
    assert!(a.export);
}

#[test]
fn flag_form_defaults_are_off() {
    let toks = vec![ident("u64")];
    let a = BitContainerAttr::parse(&toks).unwrap();
    assert_eq!(a.base_ty, Width::U64);
    assert!(!a.allow_overlap);
    assert!(!a.export);
}

#[test]
fn flag_form_rejects_duplicate_width() {
    let toks = vec![ident("u8"), ident("u8")];
    let e = BitContainerAttr::parse(&toks).unwrap_err();
    assert_eq!(e, BitsError::DuplicatedContainerType);
}

#[test]
fn flag_form_rejects_parameterized_tokens() {
    let toks = vec![
        ident("u8"),
        ContainerToken::WithArgs(
            "export".to_string(),
            vec![ExportArg::Path("m".to_string())],
        ),
    ];
    let e = BitContainerAttr::parse(&toks).unwrap_err();
    assert_eq!(e, BitsError::UnknownContainerAttr);
}

#[test]
fn flag_form_rejects_unknown_flag() {
    let toks = vec![ident("u8"), ident("overlap")];
    let e = BitContainerAttr::parse(&toks).unwrap_err();
    assert_eq!(e, BitsError::UnknownContainerAttr);
}
