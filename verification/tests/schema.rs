use storage_items::{
    default_key, QueryKind, StorageDeclaration, StorageFunctionMetadata,
    StorageFunctionModifier, StorageFunctionType, StorageMetadata,
};

fn plain(name: &str, kind: QueryKind, ty: &str, docs: &[&str]) -> StorageDeclaration {
    StorageDeclaration {
        name: name.to_string(),
        kind,
        ty: StorageFunctionType::Plain(ty.to_string()),
        documentation: docs.iter().map(|line| line.to_string()).collect(),
    }
}

fn mapped(name: &str, kind: QueryKind, key: &str, value: &str) -> StorageDeclaration {
    StorageDeclaration {
        name: name.to_string(),
        kind,
        ty: StorageFunctionType::Mapped { key: key.to_string(), value: value.to_string() },
        documentation: Vec::new(),
    }
}

fn declarations() -> Vec<StorageDeclaration> {
    vec![
        plain("U32", QueryKind::Optional, "Option<u32>", &[" Hello, this is doc!"]),
        plain("PUBU32", QueryKind::Optional, "Option<u32>", &[]),
        plain("U32MYDEF", QueryKind::Optional, "Option<u32>", &[]),
        plain("PUBU32MYDEF", QueryKind::Optional, "Option<u32>", &[]),
        plain("GETU32", QueryKind::Defaulted, "T::Origin", &[]),
        plain("PUBGETU32", QueryKind::Defaulted, "u32", &[]),
        plain("GETU32NOCONFIG", QueryKind::Defaulted, "u32", &[]),
        plain("PUBGETU32NOCONFIG", QueryKind::Defaulted, "u32", &[]),
        plain("GETU32MYDEF", QueryKind::Defaulted, "u32", &[]),
        plain("PUBGETU32MYDEF", QueryKind::Defaulted, "u32", &[]),
        plain("GETU32NOCONFIGMYDEF", QueryKind::Defaulted, "u32", &[]),
        plain("PUBGETU32NOCONFIGMYDEF", QueryKind::Defaulted, "u32", &[]),
        plain("PUBGETU32NOCONFIGMYDEFOPT", QueryKind::Optional, "Option<u32>", &[]),
        mapped("MAPU32", QueryKind::Optional, "u32", "Option<String>"),
        mapped("PUBMAPU32", QueryKind::Optional, "u32", "Option<String>"),
        mapped("MAPU32MYDEF", QueryKind::Optional, "u32", "Option<String>"),
        mapped("PUBMAPU32MYDEF", QueryKind::Optional, "u32", "Option<String>"),
        mapped("GETMAPU32", QueryKind::Defaulted, "u32", "String"),
        mapped("PUBGETMAPU32", QueryKind::Defaulted, "u32", "String"),
        mapped("GETMAPU32MYDEF", QueryKind::Defaulted, "u32", "String"),
        mapped("PUBGETMAPU32MYDEF", QueryKind::Defaulted, "u32", "String"),
    ]
}

fn plain_entry(
    name: &str,
    modifier: StorageFunctionModifier,
    ty: &str,
    docs: &[&str],
) -> StorageFunctionMetadata {
    StorageFunctionMetadata {
        name: name.to_string(),
        modifier,
        ty: StorageFunctionType::Plain(ty.to_string()),
        documentation: docs.iter().map(|line| line.to_string()).collect(),
    }
}

fn mapped_entry(
    name: &str,
    modifier: StorageFunctionModifier,
    key: &str,
    value: &str,
) -> StorageFunctionMetadata {
    StorageFunctionMetadata {
        name: name.to_string(),
        modifier,
        ty: StorageFunctionType::Mapped { key: key.to_string(), value: value.to_string() },
        documentation: Vec::new(),
    }
}

fn expected_metadata() -> StorageMetadata {
    let optional = StorageFunctionModifier::Optional;
    let default = StorageFunctionModifier::Default;
    StorageMetadata {
        prefix: "TestStorage".to_string(),
        functions: vec![
            plain_entry("U32", optional, "Option<u32>", &[" Hello, this is doc!"]),
            plain_entry("PUBU32", optional, "Option<u32>", &[]),
            plain_entry("U32MYDEF", optional, "Option<u32>", &[]),
            plain_entry("PUBU32MYDEF", optional, "Option<u32>", &[]),
            plain_entry("GETU32", default, "T::Origin", &[]),
            plain_entry("PUBGETU32", default, "u32", &[]),
            plain_entry("GETU32NOCONFIG", default, "u32", &[]),
            plain_entry("PUBGETU32NOCONFIG", default, "u32", &[]),
            plain_entry("GETU32MYDEF", default, "u32", &[]),
            plain_entry("PUBGETU32MYDEF", default, "u32", &[]),
            plain_entry("GETU32NOCONFIGMYDEF", default, "u32", &[]),
            plain_entry("PUBGETU32NOCONFIGMYDEF", default, "u32", &[]),
            plain_entry("PUBGETU32NOCONFIGMYDEFOPT", optional, "Option<u32>", &[]),
            mapped_entry("MAPU32", optional, "u32", "Option<String>"),
            mapped_entry("PUBMAPU32", optional, "u32", "Option<String>"),
            mapped_entry("MAPU32MYDEF", optional, "u32", "Option<String>"),
            mapped_entry("PUBMAPU32MYDEF", optional, "u32", "Option<String>"),
            mapped_entry("GETMAPU32", default, "u32", "String"),
            mapped_entry("PUBGETMAPU32", default, "u32", "String"),
            mapped_entry("GETMAPU32MYDEF", default, "u32", "String"),
            mapped_entry("PUBGETMAPU32MYDEF", default, "u32", "String"),
        ],
    }
}

#[test]
fn store_metadata() {
    let metadata = storage_items::store_metadata("TestStorage", &declarations());
    assert_eq!(expected_metadata(), metadata);
}

#[test]
fn store_metadata_of_no_items() {
    let metadata = storage_items::store_metadata("Empty", &[]);
    assert_eq!(metadata.prefix, "Empty");
    assert!(metadata.functions.is_empty());
}

#[test]
fn store_metadata_keeps_order_and_count() {
    let declared = declarations();
    let metadata = storage_items::store_metadata("TestStorage", &declared);
    assert_eq!(metadata.functions.len(), declared.len());
    for (declaration, function) in declared.iter().zip(metadata.functions.iter()) {
        assert_eq!(declaration.name, function.name);
        assert_eq!(declaration.ty, function.ty);
        assert_eq!(declaration.documentation, function.documentation);
        assert_eq!(declaration.describe(), *function);
    }
}

#[test]
fn modifier_mirrors_the_kind() {
    assert_eq!(QueryKind::Optional.modifier(), StorageFunctionModifier::Optional);
    assert_eq!(QueryKind::Defaulted.modifier(), StorageFunctionModifier::Default);
    assert_eq!(QueryKind::Required.modifier(), StorageFunctionModifier::Default);
    let required = plain("Now", QueryKind::Required, "u64", &[" The time.", " In seconds."]);
    assert_eq!(
        required.describe(),
        plain_entry("Now", StorageFunctionModifier::Default, "u64", &[" The time.", " In seconds."])
    );
}

#[test]
fn shape_duplicate_is_equal() {
    let shape = StorageFunctionType::Mapped { key: "u32".to_string(), value: "u64".to_string() };
    assert_eq!(shape.duplicate(), shape);
    let shape = StorageFunctionType::Plain("u32".to_string());
    assert_eq!(shape.duplicate(), shape);
}

#[test]
fn default_key_joins_namespace_and_name() {
    assert_eq!(default_key("TestStorage", "U32"), b"TestStorage U32".to_vec());
    assert_eq!(default_key("", ""), b" ".to_vec());
    assert_eq!(default_key("a", ""), b"a ".to_vec());
    assert_eq!(default_key("é", "ü"), "é ü".as_bytes().to_vec());
    let declared = plain("PUBU32", QueryKind::Optional, "Option<u32>", &[]);
    assert_eq!(declared.key("TestStorage"), b"TestStorage PUBU32".to_vec());
}
