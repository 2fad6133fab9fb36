use bitgen::bits;
use bitgen::error::BitsError;
use bitgen::parse::tokens::{
    BitRange, ContainerToken, ExportArg, FieldToken, ItemKind, RawAttr, RawField, RawItem, Vis,
};

fn cident(s: &str) -> ContainerToken {
    ContainerToken::Ident(s.to_string())
}

fn range(start: u64, end: u64) -> FieldToken {
    FieldToken::Range(BitRange {
        start,
        end,
        closed: false,
    })
}

fn field(name: &str, ty: &str, tokens: Vec<FieldToken>) -> RawField {
    RawField {
        name: Some(name.to_string()),
        target_ty: ty.to_string(),
        vis: Vis::Inherited,
        attrs: vec![RawAttr::Field(tokens)],
    }
}

fn item(name: &str, fields: Vec<RawField>) -> RawItem {
    RawItem {
        kind: ItemKind::Struct,
        has_generics: false,
        vis: Vis::Public,
        name: name.to_string(),
        attrs: vec![],
        fields,
    }
}

#[test]
fn renders_read_only_field_exactly() {
    let attr = vec![cident("u32")];
    let it = item("A", vec![field("f1", "u8", vec![range(0, 3)])]);
    let out = bits(&attr, it).unwrap();
    let expected = [
        "pub struct A(u32);\n",
        "impl ::bits::Bitalized for A {\n    type BaseType = u32;\n}\n",
        "struct f1;\n",
        "impl ::bits::Field for f1 {\n    type CacheType = u8;\n}\n",
        "impl ::bits::ReadField<f1> for A {\n",
        "    fn read(&self, field: f1) -> u8 {\n",
        "        ::bits::Bits(self.0).read(0..3)\n",
        "    }\n}\n",
    ]
    .concat();
    assert_eq!(out, expected);
}

#[test]
fn read_write_field_emits_both_accessors() {
    let attr = vec![cident("u16")];
    let it = item(
        "B",
        vec![field(
            "ctl",
            "u8",
            vec![FieldToken::Ident("RW".to_string()), range(2, 6)],
        )],
    );
    let out = bits(&attr, it).unwrap();
    assert!(out.contains("impl ::bits::ReadField<ctl> for B"));
    assert!(out.contains("impl ::bits::WriteField<ctl> for B"));
    assert!(!out.contains("TryReadField"));
}

#[test]
fn write_only_field_emits_only_write_accessor() {
    let attr = vec![cident("u16")];
    let it = item(
        "B",
        vec![field(
            "ctl",
            "u8",
            vec![FieldToken::Ident("W".to_string()), range(2, 6)],
        )],
    );
    let out = bits(&attr, it).unwrap();
    assert!(!out.contains("ReadField"));
    assert!(out.contains("impl ::bits::WriteField<ctl> for B"));
}

#[test]
fn fallible_field_replaces_plain_read() {
    let attr = vec![cident("u32")];
    let it = item(
        "C",
        vec![field(
            "mode",
            "Mode",
            vec![
                FieldToken::Ident("RW".to_string()),
                range(0, 2),
                FieldToken::Ident("Try".to_string()),
            ],
        )],
    );
    let out = bits(&attr, it).unwrap();
    assert!(out.contains("impl ::bits::TryReadField<mode> for C"));
    assert!(out.contains("type Error = <Mode as TryFrom<Self::BaseType>>::Error;"));
    assert!(!out.contains("impl ::bits::ReadField<mode> for C"));
    assert!(out.contains("impl ::bits::WriteField<mode> for C"));
}

#[test]
fn emission_preserves_declaration_order() {
    let attr = vec![cident("u32")];
    let it = item(
        "D",
        vec![
            field("a", "u8", vec![range(0, 3)]),
            field("b", "u8", vec![range(4, 7)]),
            field("c", "u8", vec![range(8, 11)]),
        ],
    );
    let out = bits(&attr, it).unwrap();
    let pa = out.find("struct a;").unwrap();
    let pb = out.find("struct b;").unwrap();
    let pc = out.find("struct c;").unwrap();
    assert!(pa < pb && pb < pc);
}

#[test]
fn rerunning_gives_byte_identical_output() {
    let attr = vec![cident("u64"), cident("export")];
    let mk = || {
        item(
            "E",
            vec![
                field("x", "u8", vec![FieldToken::Ident("RW".to_string()), range(0, 7)]),
                field(
                    "y",
                    "u16",
                    vec![
                        range(8, 23),
                        FieldToken::Ident("Try".to_string()),
                    ],
                ),
            ],
        )
    };
    let first = bits(&attr, mk()).unwrap();
    let second = bits(&attr, mk()).unwrap();
    assert_eq!(first.as_bytes(), second.as_bytes());
}

#[test]
fn bare_export_renders_public_backing_value() {
    let attr = vec![cident("u32"), cident("export")];
    let it = item("F", vec![field("a", "u8", vec![range(0, 3)])]);
    let out = bits(&attr, it).unwrap();
    assert!(out.starts_with("pub struct F(pub u32);\n"));
}

#[test]
fn no_export_keeps_default_visibility() {
    let attr = vec![cident("u32")];
    let it = item("F", vec![field("a", "u8", vec![range(0, 3)])]);
    let out = bits(&attr, it).unwrap();
    assert!(out.starts_with("pub struct F(u32);\n"));
}

#[test]
fn scoped_export_names_the_scope_in_output() {
    let attr = vec![
        cident("u32"),
        ContainerToken::WithArgs(
            "export".to_string(),
            vec![ExportArg::Path("mymod".to_string())],
        ),
    ];
    let it = item("F", vec![field("a", "u8", vec![range(0, 3)])]);
    let out = bits(&attr, it).unwrap();
    assert!(out.starts_with("pub struct F(pub(in mymod) u32);\n"));
}

#[test]
fn closed_range_renders_inclusive_syntax() {
    let attr = vec![cident("u8")];
    let mut f = field("a", "u8", vec![]);
    f.attrs = vec![RawAttr::Field(vec![FieldToken::Range(BitRange {
        start: 0,
        end: 7,
        closed: true,
    })])];
    let it = item("G", vec![f]);
    let out = bits(&attr, it).unwrap();
    assert!(out.contains(".read(0..=7)"));
}

#[test]
fn multi_digit_range_bounds_render_in_decimal() {
    let attr = vec![cident("u128")];
    let it = item("H", vec![field("a", "u64", vec![range(64, 127)])]);
    let out = bits(&attr, it).unwrap();
    assert!(out.contains(".read(64..127)"));
}

#[test]
fn documentation_is_reattached() {
    let attr = vec![cident("u8")];
    let mut f = field("a", "u8", vec![range(0, 3)]);
    f.attrs.insert(0, RawAttr::Doc(" field doc".to_string()));
    let mut it = item("I", vec![f]);
    it.attrs.push(RawAttr::Doc(" container doc".to_string()));
    let out = bits(&attr, it).unwrap();
    assert!(out.starts_with("/// container doc\npub struct I(u8);\n"));
    assert!(out.contains("/// field doc\nstruct a;\n"));
}

#[test]
fn container_diagnostic_wins_over_item_diagnostic() {
    let attr = vec![cident("u8"), cident("u16")];
    let mut it = item("J", vec![field("a", "u8", vec![range(0, 3)])]);
    it.has_generics = true;
    let e = bits(&attr, it).unwrap_err();
    assert_eq!(e, BitsError::DuplicatedContainerType);
}

#[test]
fn item_diagnostic_replaces_output() {
    let attr = vec![cident("u8")];
    let mut it = item("K", vec![field("a", "u8", vec![range(0, 3)])]);
    it.has_generics = true;
    let e = bits(&attr, it).unwrap_err();
    assert_eq!(e, BitsError::GenericNotAllowed);
}
