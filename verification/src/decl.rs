//! Declarations as a host hands them over: a record or a tagged union, with
//! the annotations of the type, of its variants and of its fields.

use crate::attr::{RawEntry, RawEntryView};
use crate::text::opt_chars;
use vstd::prelude::*;

verus! {

/// One field of a record or of a variant.
#[derive(Debug)]
pub struct Field {
    /// The name under which the routine binds the field's value.
    pub name: String,
    /// The declared type, as it is written.
    pub ty: String,
    /// The annotations on the field.
    pub attrs: Vec<RawEntry>,
}

/// A field, as characters.
pub struct FieldView {
    pub name: Seq<char>,
    pub ty: Seq<char>,
    pub attrs: Seq<RawEntryView>,
}

impl DeepView for Field {
    type V = FieldView;

    open spec fn deep_view(&self) -> FieldView {
        FieldView { name: self.name@, ty: self.ty@, attrs: self.attrs.deep_view() }
    }
}

/// The fields of a record or of a variant, in the order of declaration.
#[derive(Debug)]
pub struct Fields {
    /// Whether the fields are given by position rather than by name.
    pub unnamed: bool,
    pub items: Vec<Field>,
}

/// Fields, as characters.
pub struct FieldsView {
    pub unnamed: bool,
    pub items: Seq<FieldView>,
}

impl DeepView for Fields {
    type V = FieldsView;

    open spec fn deep_view(&self) -> FieldsView {
        FieldsView { unnamed: self.unnamed, items: self.items.deep_view() }
    }
}

/// What a declaration says of a variant's discriminant.
#[derive(Clone, Copy, Debug, PartialEq, Eq, Structural)]
pub enum Discriminant {
    /// Nothing: it is one more than that of the variant before, and zero
    /// for the first.
    Implicit,
    /// A number.
    Literal(i128),
    /// An expression that only the host can evaluate.
    Opaque,
}

/// One variant of a tagged union.
#[derive(Debug)]
pub struct Variant {
    pub ident: String,
    /// The annotations on the variant.
    pub attrs: Vec<RawEntry>,
    pub fields: Fields,
    pub discriminant: Discriminant,
}

/// A variant, as characters.
pub struct VariantView {
    pub ident: Seq<char>,
    pub attrs: Seq<RawEntryView>,
    pub fields: FieldsView,
    pub discriminant: Discriminant,
}

impl DeepView for Variant {
    type V = VariantView;

    open spec fn deep_view(&self) -> VariantView {
        VariantView {
            ident: self.ident@,
            attrs: self.attrs.deep_view(),
            fields: self.fields.deep_view(),
            discriminant: self.discriminant,
        }
    }
}

/// One item inside the brackets of a list attribute.
#[derive(Debug)]
pub enum NestedMeta {
    /// A single word, such as the `u8` of `repr(u8)`.
    Word(String),
    /// Any other structured item: a longer path, a list, a name with a value.
    Meta,
    /// A literal.
    Lit,
}

/// A nested item, as characters.
pub enum NestedMetaView {
    Word(Seq<char>),
    Meta,
    Lit,
}

impl DeepView for NestedMeta {
    type V = NestedMetaView;

    open spec fn deep_view(&self) -> NestedMetaView {
        match self {
            NestedMeta::Word(w) => NestedMetaView::Word(w@),
            NestedMeta::Meta => NestedMetaView::Meta,
            NestedMeta::Lit => NestedMetaView::Lit,
        }
    }
}

/// The structured form of an attribute.
#[derive(Debug)]
pub enum Meta {
    /// A bare path, such as `test`.
    Path,
    /// A name with a value, such as `doc = "..."`.
    NameValue,
    /// A list, such as `repr(u8)`: the word before the brackets, where it is
    /// a single word, and the items inside them.
    List { ident: Option<String>, nested: Vec<NestedMeta> },
}

/// A structured attribute, as characters.
pub enum MetaView {
    Path,
    NameValue,
    List { ident: Option<Seq<char>>, nested: Seq<NestedMetaView> },
}

impl DeepView for Meta {
    type V = MetaView;

    open spec fn deep_view(&self) -> MetaView {
        match self {
            Meta::Path => MetaView::Path,
            Meta::NameValue => MetaView::NameValue,
            Meta::List { ident, nested } => MetaView::List {
                ident: opt_chars(*ident),
                nested: nested.deep_view(),
            },
        }
    }
}

/// One attribute of a type, of whatever tool.
#[derive(Debug)]
pub struct Attribute {
    /// Its structured form, where it has one.
    pub meta: Option<Meta>,
}

/// An attribute, as characters.
pub struct AttributeView {
    pub meta: Option<MetaView>,
}

impl DeepView for Attribute {
    type V = AttributeView;

    open spec fn deep_view(&self) -> AttributeView {
        AttributeView {
            meta: match self.meta {
                Some(m) => Some(m.deep_view()),
                None => None,
            },
        }
    }
}

/// What a declaration declares.
#[derive(Debug)]
pub enum Data {
    /// A record, with its fields.
    Struct(Fields),
    /// A tagged union, with its variants in the order of declaration.
    Enum(Vec<Variant>),
}

/// The body of a declaration, as characters.
pub enum DataView {
    Struct(FieldsView),
    Enum(Seq<VariantView>),
}

impl DeepView for Data {
    type V = DataView;

    open spec fn deep_view(&self) -> DataView {
        match self {
            Data::Struct(f) => DataView::Struct(f.deep_view()),
            Data::Enum(v) => DataView::Enum(v.deep_view()),
        }
    }
}

/// A declaration that a routine is asked for.
#[derive(Debug)]
pub struct DeriveInput {
    pub ident: String,
    /// All the attributes of the type, in their order.
    pub attrs: Vec<Attribute>,
    /// The annotations on the type that are meant for synthesis.
    pub nom_attrs: Vec<RawEntry>,
    pub data: Data,
}

/// A declaration, as characters.
pub struct DeriveInputView {
    pub ident: Seq<char>,
    pub attrs: Seq<AttributeView>,
    pub nom_attrs: Seq<RawEntryView>,
    pub data: DataView,
}

impl DeepView for DeriveInput {
    type V = DeriveInputView;

    open spec fn deep_view(&self) -> DeriveInputView {
        DeriveInputView {
            ident: self.ident@,
            attrs: self.attrs.deep_view(),
            nom_attrs: self.nom_attrs.deep_view(),
            data: self.data.deep_view(),
        }
    }
}

} // verus!
