use bitgen::error::BitsError;
use bitgen::parse::field_info::{BitFieldPerm, BitStructFieldInfo};
use bitgen::parse::tokens::{BitRange, FieldToken, ItemKind, RawAttr, RawField, RawItem, Vis};
use bitgen::parse::BitStructItem;

fn field_attr(tokens: Vec<FieldToken>) -> RawAttr {
    RawAttr::Field(tokens)
}

fn plain_field(name: &str, ty: &str, tokens: Vec<FieldToken>) -> RawField {
    RawField {
        name: Some(name.to_string()),
        target_ty: ty.to_string(),
        vis: Vis::Inherited,
        attrs: vec![field_attr(tokens)],
    }
}

fn range(start: u64, end: u64) -> FieldToken {
    FieldToken::Range(BitRange {
        start,
        end,
        closed: false,
    })
}

fn item_with(fields: Vec<RawField>) -> RawItem {
    RawItem {
        kind: ItemKind::Struct,
        has_generics: false,
        vis: Vis::Public,
        name: "A".to_string(),
        attrs: vec![],
        fields,
    }
}

#[test]
fn collects_fields_in_declaration_order() {
    let item = item_with(vec![
        plain_field("a", "u8", vec![range(0, 3)]),
        plain_field("b", "u8", vec![FieldToken::Ident("W".to_string()), range(4, 5)]),
        plain_field("c", "u8", vec![FieldToken::Ident("RW".to_string()), range(6, 7)]),
    ]);
    let bi = BitStructItem::parse(item).unwrap();
    assert_eq!(bi.name, "A");
    assert_eq!(bi.vis, Vis::Public);
    let names: Vec<&str> = bi.fields.iter().map(|f| f.name.as_str()).collect();
    assert_eq!(names, vec!["a", "b", "c"]);
    assert_eq!(bi.fields[0].attr.perm, BitFieldPerm::R);
    assert_eq!(bi.fields[1].attr.perm, BitFieldPerm::W);
    assert_eq!(bi.fields[2].attr.perm, BitFieldPerm::RW);
}

#[test]
fn carries_documentation_through() {
    let mut f = plain_field("a", "u8", vec![range(0, 3)]);
    f.attrs.insert(0, RawAttr::Doc(" the a field".to_string()));
    let mut item = item_with(vec![f]);
    item.attrs.push(RawAttr::Doc(" a container".to_string()));
    let bi = BitStructItem::parse(item).unwrap();
    assert_eq!(bi.doc, vec![" a container".to_string()]);
    assert_eq!(bi.fields[0].doc, vec![" the a field".to_string()]);
}

#[test]
fn generics_rejected() {
    let mut item = item_with(vec![plain_field("a", "u8", vec![range(0, 3)])]);
    item.has_generics = true;
    let e = BitStructItem::parse(item).unwrap_err();
    assert_eq!(e, BitsError::GenericNotAllowed);
    assert_eq!(e.message(), "Generic is not allowed");
}

#[test]
fn non_struct_rejected() {
    let mut item = item_with(vec![plain_field("a", "u8", vec![range(0, 3)])]);
    item.kind = ItemKind::Enum;
    let e = BitStructItem::parse(item).unwrap_err();
    assert_eq!(e, BitsError::OnlyStructAllowed);
    assert_eq!(e.message(), "Only struct is allowed");
}

#[test]
fn empty_field_list_rejected() {
    let item = item_with(vec![]);
    let e = BitStructItem::parse(item).unwrap_err();
    assert_eq!(e, BitsError::EmptyFields);
    assert!(e.message().contains("Empty field"));
}

#[test]
fn unnamed_field_rejected() {
    let mut f = plain_field("a", "u8", vec![range(0, 3)]);
    f.name = None;
    let item = item_with(vec![f]);
    let e = BitStructItem::parse(item).unwrap_err();
    assert_eq!(e, BitsError::UnnamedField);
    assert_eq!(e.message(), "The field must be named");
}

#[test]
fn two_field_attributes_rejected() {
    let mut f = plain_field("a", "u8", vec![range(0, 3)]);
    f.attrs.push(field_attr(vec![range(4, 5)]));
    let item = item_with(vec![f]);
    let e = BitStructItem::parse(item).unwrap_err();
    assert_eq!(e, BitsError::MultipleFieldAttrs);
    assert_eq!(e.message(), "Only one \"field\" attr is allowed");
}

#[test]
fn missing_field_attribute_rejected() {
    let f = RawField {
        name: Some("a".to_string()),
        target_ty: "u8".to_string(),
        vis: Vis::Inherited,
        attrs: vec![],
    };
    let e = BitStructItem::parse(item_with(vec![f])).unwrap_err();
    assert_eq!(e, BitsError::MissingFieldAttr);
    assert_eq!(e.message(), "Attribute \"field\" must be presented");
}

#[test]
fn foreign_attribute_rejected() {
    let mut f = plain_field("a", "u8", vec![range(0, 3)]);
    f.attrs.push(RawAttr::Other("serde".to_string()));
    let e = BitStructItem::parse(item_with(vec![f])).unwrap_err();
    assert_eq!(e, BitsError::DisallowedAttr);
    assert_eq!(e.message(), "Only \"field\" attr or doc is allowed");
}

#[test]
fn field_attr_error_propagates_verbatim() {
    let f = plain_field(
        "a",
        "u8",
        vec![
            FieldToken::Ident("R".to_string()),
            FieldToken::Ident("W".to_string()),
            range(0, 3),
        ],
    );
    let e = BitStructItem::parse(item_with(vec![f])).unwrap_err();
    assert_eq!(e, BitsError::MultiplePermTokens);
}

#[test]
fn first_failing_field_wins() {
    let good = plain_field("a", "u8", vec![range(0, 3)]);
    let bad1 = plain_field("b", "u8", vec![]);
    let bad2 = plain_field("c", "u8", vec![range(0, 3), range(4, 5)]);
    let e = BitStructItem::parse(item_with(vec![good, bad1, bad2])).unwrap_err();
    assert_eq!(e, BitsError::EmptyFieldAttr);
}

#[test]
fn descriptor_carries_type_and_visibility() {
    let mut f = plain_field("a", "MyEnum", vec![range(0, 3)]);
    f.vis = Vis::Scoped("crate".to_string());
    let bi = BitStructItem::parse(item_with(vec![f])).unwrap();
    let info: &BitStructFieldInfo = &bi.fields[0];
    assert_eq!(info.target_ty, "MyEnum");
    assert_eq!(info.vis, Vis::Scoped("crate".to_string()));
}
