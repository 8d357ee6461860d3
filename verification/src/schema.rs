//! The description of a schema: what items it declares, and where their
//! keys come from.

use vstd::prelude::*;
use vstd::slice::slice_to_vec;
use vstd::string::StringSliceAdditionalSpecFns;
use vstd::utf8::{encode_utf8, encode_utf8_decode_utf8};

verus! {

/// How reads of an item answer an unset key.
#[derive(Clone, Copy, Debug, PartialEq, Eq)]
pub enum QueryKind {
    /// Reads give an absence indicator.
    Optional,
    /// Reads give a declared default.
    Defaulted,
    /// Reads are made only of keys that are set.
    Required,
}

/// Whether callers of an item see absence.
#[derive(Clone, Copy, Debug, PartialEq, Eq)]
pub enum StorageFunctionModifier {
    /// Callers see an optional value.
    Optional,
    /// Callers see the bare value, a default standing in for absence.
    Default,
}

/// The shape of an item, by the names of its types.
#[derive(Debug, PartialEq, Eq)]
pub enum StorageFunctionType {
    /// A single value of the named type.
    Plain(String),
    /// A map between the named types.
    Mapped { key: String, value: String },
}

/// One item as its schema declares it.
#[derive(Debug, PartialEq, Eq)]
pub struct StorageDeclaration {
    pub name: String,
    pub kind: QueryKind,
    pub ty: StorageFunctionType,
    pub documentation: Vec<String>,
}

/// The description of one declared item.
#[derive(Debug, PartialEq, Eq)]
pub struct StorageFunctionMetadata {
    pub name: String,
    pub modifier: StorageFunctionModifier,
    pub ty: StorageFunctionType,
    pub documentation: Vec<String>,
}

/// The description of a schema: its namespace, and one entry for each item
/// it declares, in the order of declaration.
#[derive(Debug, PartialEq, Eq)]
pub struct StorageMetadata {
    pub prefix: String,
    pub functions: Vec<StorageFunctionMetadata>,
}

/// The shape of an item as text.
pub enum ShapeView {
    Plain(Seq<char>),
    Mapped { key: Seq<char>, value: Seq<char> },
}

/// A declaration as text.
pub struct DeclarationView {
    pub name: Seq<char>,
    pub kind: QueryKind,
    pub ty: ShapeView,
    pub documentation: Seq<Seq<char>>,
}

/// The description of an item as text.
pub struct FunctionView {
    pub name: Seq<char>,
    pub modifier: StorageFunctionModifier,
    pub ty: ShapeView,
    pub documentation: Seq<Seq<char>>,
}

/// The description of a schema as text.
pub struct MetadataView {
    pub prefix: Seq<char>,
    pub functions: Seq<FunctionView>,
}

/// The text of each line.
pub open spec fn lines_view(lines: Seq<String>) -> Seq<Seq<char>> {
    Seq::new(lines.len(), |at: int| lines[at]@)
}

impl View for StorageFunctionType {
    type V = ShapeView;

    open spec fn view(&self) -> ShapeView {
        match self {
            StorageFunctionType::Plain(name) => ShapeView::Plain(name@),
            StorageFunctionType::Mapped { key, value } => ShapeView::Mapped { key: key@, value: value@ },
        }
    }
}

impl View for StorageDeclaration {
    type V = DeclarationView;

    open spec fn view(&self) -> DeclarationView {
        DeclarationView {
            name: self.name@,
            kind: self.kind,
            ty: self.ty@,
            documentation: lines_view(self.documentation@),
        }
    }
}

impl View for StorageFunctionMetadata {
    type V = FunctionView;

    open spec fn view(&self) -> FunctionView {
        FunctionView {
            name: self.name@,
            modifier: self.modifier,
            ty: self.ty@,
            documentation: lines_view(self.documentation@),
        }
    }
}

impl View for StorageMetadata {
    type V = MetadataView;

    open spec fn view(&self) -> MetadataView {
        MetadataView {
            prefix: self.prefix@,
            functions: Seq::new(self.functions@.len(), |at: int| self.functions@[at]@),
        }
    }
}

/// The modifier that stands for a kind of query: only an optional item
/// shows absence to its callers.
pub open spec fn modifier_of(kind: QueryKind) -> StorageFunctionModifier {
    match kind {
        QueryKind::Optional => StorageFunctionModifier::Optional,
        QueryKind::Defaulted => StorageFunctionModifier::Default,
        QueryKind::Required => StorageFunctionModifier::Default,
    }
}

/// The description of a declared item: its name, shape and documentation
/// as declared, and the modifier of its kind.
pub open spec fn described(declaration: DeclarationView) -> FunctionView {
    FunctionView {
        name: declaration.name,
        modifier: modifier_of(declaration.kind),
        ty: declaration.ty,
        documentation: declaration.documentation,
    }
}

/// The key that an item gets where its schema names none: the bytes of the
/// namespace, a space, and the bytes of the item's name.
pub open spec fn default_key_spec(namespace: Seq<char>, name: Seq<char>) -> Seq<u8> {
    encode_utf8(namespace) + seq![0x20u8] + encode_utf8(name)
}

impl QueryKind {
    /// The modifier that stands for this kind in a description.
    pub fn modifier(&self) -> (modifier: StorageFunctionModifier)
        ensures
            modifier == modifier_of(*self),
    {
        match self {
            QueryKind::Optional => StorageFunctionModifier::Optional,
            QueryKind::Defaulted => StorageFunctionModifier::Default,
            QueryKind::Required => StorageFunctionModifier::Default,
        }
    }
}

impl StorageFunctionType {
    /// A copy with the same text.
    pub fn duplicate(&self) -> (copy: Self)
        ensures
            copy@ == self@,
    {
        match self {
            StorageFunctionType::Plain(name) => StorageFunctionType::Plain(name.clone()),
            StorageFunctionType::Mapped { key, value } => StorageFunctionType::Mapped {
                key: key.clone(),
                value: value.clone(),
            },
        }
    }
}

/// A copy of `lines` with the same text.
fn copy_lines(lines: &Vec<String>) -> (copy: Vec<String>)
    ensures
        lines_view(copy@) == lines_view(lines@),
{
    let mut copy: Vec<String> = Vec::new();
    let mut at: usize = 0;
    while at < lines.len()
        invariant
            at <= lines@.len(),
            copy@.len() == at,
            forall|i: int| 0 <= i < at ==> copy@[i]@ == lines@[i]@,
        decreases lines@.len() - at,
    {
        copy.push(lines[at].clone());
        at = at + 1;
    }
    assert(lines_view(copy@) =~= lines_view(lines@));
    copy
}

impl StorageDeclaration {
    /// The description of this item.
    pub fn describe(&self) -> (function: StorageFunctionMetadata)
        ensures
            function@ == described(self@),
    {
        StorageFunctionMetadata {
            name: self.name.clone(),
            modifier: self.kind.modifier(),
            ty: self.ty.duplicate(),
            documentation: copy_lines(&self.documentation),
        }
    }

    /// The key of this item in the schema `namespace`, where the schema
    /// names none.
    pub fn key(&self, namespace: &str) -> (key: Vec<u8>)
        ensures
            key@ == default_key_spec(namespace@, self.name@),
    {
        default_key(namespace, self.name.as_str())
    }
}

/// The key of the item `name` in the schema `namespace`, where the schema
/// names none.
pub fn default_key(namespace: &str, name: &str) -> (key: Vec<u8>)
    ensures
        key@ == default_key_spec(namespace@, name@),
{
    let mut key = slice_to_vec(namespace.as_bytes());
    key.push(0x20);
    let tail = name.as_bytes();
    let mut at: usize = 0;
    while at < tail.len()
        invariant
            at <= tail@.len(),
            tail@ == name.spec_bytes(),
            key@ == namespace.spec_bytes() + seq![0x20u8] + tail@.subrange(0, at as int),
        decreases tail@.len() - at,
    {
        key.push(tail[at]);
        assert(tail@.subrange(0, at + 1) =~= tail@.subrange(0, at as int).push(tail@[at as int]));
        at = at + 1;
    }
    assert(tail@.subrange(0, at as int) =~= tail@);
    key
}

/// Within one namespace, items with distinct names get distinct keys.
pub proof fn lemma_default_key_injective(namespace: Seq<char>, name: Seq<char>, other: Seq<char>)
    requires
        name != other,
    ensures
        default_key_spec(namespace, name) != default_key_spec(namespace, other),
{
    let head = encode_utf8(namespace) + seq![0x20u8];
    let a = default_key_spec(namespace, name);
    let b = default_key_spec(namespace, other);
    if a == b {
        assert(a.subrange(head.len() as int, a.len() as int) =~= encode_utf8(name));
        assert(b.subrange(head.len() as int, b.len() as int) =~= encode_utf8(other));
        encode_utf8_decode_utf8(name);
        encode_utf8_decode_utf8(other);
    }
}

/// The description of the schema `namespace` with the items
/// `declarations`: one entry for each declaration, in order.
pub fn store_metadata(namespace: &str, declarations: &[StorageDeclaration]) -> (metadata:
    StorageMetadata)
    ensures
        metadata@.prefix == namespace@,
        metadata@.functions.len() == declarations@.len(),
        forall|at: int|
            0 <= at < declarations@.len() ==> metadata@.functions[at] == described(
                #[trigger] declarations@[at]@,
            ),
{
    let mut functions: Vec<StorageFunctionMetadata> = Vec::new();
    let mut at: usize = 0;
    while at < declarations.len()
        invariant
            at <= declarations@.len(),
            functions@.len() == at,
            forall|i: int| 0 <= i < at ==> functions@[i]@ == described(#[trigger] declarations@[i]@),
        decreases declarations@.len() - at,
    {
        functions.push(declarations[at].describe());
        at = at + 1;
    }
    StorageMetadata { prefix: namespace.to_owned(), functions }
}

} // verus!
