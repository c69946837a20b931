//! Tagged unions: the routine that a selector drives, and the routine that
//! reads the discriminant of a union without fields.

use crate::attr::{
    find_first, get_selector, lemma_find_first_some, parse_nom_attribute, spec_find_first,
    spec_parse_attrs, MetaAttr, MetaAttrType, MetaAttrView,
};
use crate::config::{Config, ConfigView};
use crate::decl::{
    Attribute, AttributeView, Data, DataView, DeriveInput, DeriveInputView, Discriminant, Meta,
    MetaView, NestedMeta, NestedMetaView, Variant, VariantView,
};
use crate::error::SynthesisError;
use crate::number::{spec_from_name, ByteOrder, IntKind};
use crate::structs::{
    byte_order, parse_fields, spec_byte_order, spec_parse_fields, StructParserTree,
    StructParserTreeView,
};
use crate::text::{opt_chars, same_text};
use vstd::prelude::*;

verus! {

/// One variant of a union that a selector drives.
#[derive(Debug)]
pub struct VariantParserTree {
    /// The place of the variant in the declaration.
    pub index: usize,
    pub ident: String,
    /// The pattern that the selector is matched against; `_` matches all.
    pub selector: String,
    /// The steps that read the variant's fields.
    pub struct_def: StructParserTree,
}

/// A variant, as characters.
pub struct VariantParserTreeView {
    pub index: usize,
    pub ident: Seq<char>,
    pub selector: Seq<char>,
    pub struct_def: StructParserTreeView,
}

impl DeepView for VariantParserTree {
    type V = VariantParserTreeView;

    open spec fn deep_view(&self) -> VariantParserTreeView {
        VariantParserTreeView {
            index: self.index,
            ident: self.ident@,
            selector: self.selector@,
            struct_def: self.struct_def.deep_view(),
        }
    }
}

/// Whether a result of the library is the given result over characters.
pub open spec fn variant_result(
    r: Result<VariantParserTree, SynthesisError>,
    expected: Result<VariantParserTreeView, SynthesisError>,
) -> bool {
    match r {
        Ok(tree) => expected == Ok::<VariantParserTreeView, SynthesisError>(tree.deep_view()),
        Err(e) => expected == Err::<VariantParserTreeView, SynthesisError>(e),
    }
}

/// What one variant becomes: its annotations must have a typed form and
/// name a selector pattern, and its fields must resolve.
pub open spec fn spec_parse_variant(
    variant: VariantView,
    index: int,
    container: Seq<MetaAttrView>,
    big_endian: bool,
) -> Result<VariantParserTreeView, SynthesisError> {
    match spec_parse_attrs(variant.attrs) {
        Err(e) => Err(e),
        Ok(attrs) => match spec_find_first(attrs, MetaAttrType::Selector) {
            None => Err(SynthesisError::MissingVariantSelector { variant: index as usize }),
            Some(selector) => match spec_parse_fields(variant.fields, container, big_endian) {
                Err(e) => Err(e),
                Ok(struct_def) => Ok(
                    VariantParserTreeView {
                        index: index as usize,
                        ident: variant.ident,
                        selector,
                        struct_def,
                    },
                ),
            },
        },
    }
}

/// Reads one variant of a union that a selector drives: its selector
/// pattern, and the steps of its fields.
pub fn parse_variant(variant: &Variant, index: usize, container: &[MetaAttr], config: &Config) -> (r:
    Result<VariantParserTree, SynthesisError>)
    ensures
        variant_result(
            r,
            spec_parse_variant(
                variant.deep_view(),
                index as int,
                container.deep_view(),
                config.big_endian,
            ),
        ),
{
    let meta_list = match parse_nom_attribute(&variant.attrs) {
        Ok(list) => list,
        Err(e) => {
            return Err(e);
        },
    };
    proof {
        lemma_find_first_some(meta_list.deep_view(), MetaAttrType::Selector);
    }
    let selector = match get_selector(meta_list.as_slice()) {
        Some(selector) => selector,
        None => {
            return Err(SynthesisError::MissingVariantSelector { variant: index });
        },
    };
    let struct_def = match parse_fields(&variant.fields, container, config) {
        Ok(def) => def,
        Err(e) => {
            return Err(e);
        },
    };
    Ok(VariantParserTree { index, ident: variant.ident.clone(), selector, struct_def })
}

/// What one attribute says of the representation: nothing, a word, or
/// something that is no word. Only a list under the word `repr` says
/// anything, and only its first item is looked at.
pub open spec fn spec_repr_of(attr: AttributeView) -> Option<Result<Seq<char>, SynthesisError>> {
    match attr.meta {
        Some(MetaView::List { ident: Some(word), nested }) => if word == "repr"@ && nested.len()
            > 0 {
            match nested[0] {
                NestedMetaView::Word(w) => Some(Ok(w)),
                _ => Some(Err(SynthesisError::MalformedRepr)),
            }
        } else {
            None
        },
        _ => None,
    }
}

/// The representation that a type declares: what its first attribute that
/// says anything of it says.
pub open spec fn spec_get_repr(attrs: Seq<AttributeView>) -> Result<
    Option<Seq<char>>,
    SynthesisError,
>
    decreases attrs.len(),
{
    if attrs.len() == 0 {
        Ok(None)
    } else {
        match spec_repr_of(attrs[0]) {
            Some(Ok(w)) => Ok(Some(w)),
            Some(Err(e)) => Err(e),
            None => spec_get_repr(attrs.skip(1)),
        }
    }
}

/// What one attribute says of the representation.
fn repr_of(attr: &Attribute) -> (r: Option<Result<String, SynthesisError>>)
    ensures
        match r {
            Some(Ok(w)) => spec_repr_of(attr.deep_view()) == Some(
                Ok::<Seq<char>, SynthesisError>(w@),
            ),
            Some(Err(e)) => spec_repr_of(attr.deep_view()) == Some(
                Err::<Seq<char>, SynthesisError>(e),
            ),
            None => spec_repr_of(attr.deep_view()).is_none(),
        },
{
    match &attr.meta {
        Some(Meta::List { ident: Some(word), nested }) => {
            if same_text(word.as_str(), "repr") && nested.len() > 0 {
                assert(attr.deep_view().meta->0->List_nested[0] == nested[0].deep_view());
                match &nested[0] {
                    NestedMeta::Word(w) => Some(Ok(w.clone())),
                    _ => Some(Err(SynthesisError::MalformedRepr)),
                }
            } else {
                None
            }
        },
        _ => None,
    }
}

/// The representation that a type declares with `repr`: the first item of
/// the first `repr` list that has one. That item must be a single word.
pub fn get_repr(attrs: &[Attribute]) -> (r: Result<Option<String>, SynthesisError>)
    ensures
        match r {
            Ok(w) => spec_get_repr(attrs.deep_view()) == Ok::<Option<Seq<char>>, SynthesisError>(
                opt_chars(w),
            ),
            Err(e) => spec_get_repr(attrs.deep_view()) == Err::<Option<Seq<char>>, SynthesisError>(
                e,
            ),
        },
{
    let mut i: usize = 0;
    assert(attrs.deep_view().skip(0) =~= attrs.deep_view());
    while i < attrs.len()
        invariant
            i <= attrs.len(),
            spec_get_repr(attrs.deep_view()) == spec_get_repr(attrs.deep_view().skip(i as int)),
        decreases attrs.len() - i,
    {
        let ghost rest = attrs.deep_view().skip(i as int);
        assert(rest[0] == attrs[i as int].deep_view());
        assert(rest.skip(1) =~= attrs.deep_view().skip(i + 1));
        match repr_of(&attrs[i]) {
            Some(Ok(w)) => {
                return Ok(Some(w));
            },
            Some(Err(e)) => {
                return Err(e);
            },
            None => {},
        }
        i = i + 1;
    }
    Ok(None)
}

/// Whether no variant has a field.
pub open spec fn spec_all_fieldless(variants: Seq<VariantView>) -> bool {
    forall|i: int| 0 <= i < variants.len() ==> (#[trigger] variants[i]).fields.items.len() == 0
}

/// Whether the declaration is of a union no variant of which has a field.
pub open spec fn spec_is_fieldless_enum(ast: DeriveInputView) -> bool {
    match ast.data {
        DataView::Enum(variants) => spec_all_fieldless(variants),
        _ => false,
    }
}

/// Whether the declaration is of a union no variant of which has a field.
pub fn is_input_fieldless_enum(ast: &DeriveInput) -> (r: bool)
    ensures
        r == spec_is_fieldless_enum(ast.deep_view()),
{
    match &ast.data {
        Data::Enum(variants) => {
            let mut i: usize = 0;
            while i < variants.len()
                invariant
                    i <= variants.len(),
                    ast.deep_view().data == DataView::Enum(variants.deep_view()),
                    forall|j: int|
                        0 <= j < i ==> (#[trigger] variants.deep_view()[j]).fields.items.len() == 0,
                decreases variants.len() - i,
            {
                if variants[i].fields.items.len() != 0 {
                    assert(variants.deep_view()[i as int].fields.items.len() != 0);
                    assert(!spec_all_fieldless(variants.deep_view()));
                    return false;
                }
                i = i + 1;
            }
            true
        },
        _ => false,
    }
}

/// The discriminant of the variant at place `k`, as the declaration gives
/// it: the number that is written; else one more than that of the variant
/// before, and zero for the first. It is unknown where it rests on an
/// expression that only the host can evaluate, or leaves the range of
/// numbers that can be held.
pub open spec fn spec_raw_discriminant(variants: Seq<VariantView>, k: int) -> Option<int>
    decreases k,
{
    if k < 0 {
        None
    } else {
        match variants[k].discriminant {
            Discriminant::Literal(d) => Some(d as int),
            Discriminant::Opaque => None,
            Discriminant::Implicit => if k == 0 {
                Some(0)
            } else {
                match spec_raw_discriminant(variants, k - 1) {
                    Some(p) => if p < i128::MAX {
                        Some(p + 1)
                    } else {
                        None
                    },
                    None => None,
                }
            },
        }
    }
}

/// One variant of a union without fields.
#[derive(Debug)]
pub struct FieldlessVariant {
    pub ident: String,
    /// The discriminant, cast to the representation; `None` where only the
    /// host knows it.
    pub discriminant: Option<i128>,
}

/// A variant without fields, as characters.
pub struct FieldlessVariantView {
    pub ident: Seq<char>,
    pub discriminant: Option<int>,
}

impl DeepView for FieldlessVariant {
    type V = FieldlessVariantView;

    open spec fn deep_view(&self) -> FieldlessVariantView {
        FieldlessVariantView {
            ident: self.ident@,
            discriminant: match self.discriminant {
                Some(d) => Some(d as int),
                None => None,
            },
        }
    }
}

/// The routine of a union without fields: it reads one integer of the
/// declared representation and returns the first variant whose discriminant
/// equals it.
#[derive(Debug)]
pub struct FieldlessRoutine {
    pub name: String,
    pub input_name: String,
    pub orig_input_name: String,
    pub pre_exec: Option<String>,
    pub repr: IntKind,
    pub order: ByteOrder,
    pub variants: Vec<FieldlessVariant>,
    pub debug_derive: bool,
}

/// The routine of a union without fields, as characters.
pub struct FieldlessRoutineView {
    pub name: Seq<char>,
    pub input_name: Seq<char>,
    pub orig_input_name: Seq<char>,
    pub pre_exec: Option<Seq<char>>,
    pub repr: IntKind,
    pub order: ByteOrder,
    pub variants: Seq<FieldlessVariantView>,
    pub debug_derive: bool,
}

impl DeepView for FieldlessRoutine {
    type V = FieldlessRoutineView;

    open spec fn deep_view(&self) -> FieldlessRoutineView {
        FieldlessRoutineView {
            name: self.name@,
            input_name: self.input_name@,
            orig_input_name: self.orig_input_name@,
            pre_exec: opt_chars(self.pre_exec),
            repr: self.repr,
            order: self.order,
            variants: self.variants.deep_view(),
            debug_derive: self.debug_derive,
        }
    }
}

/// The variant at place `k` of a union without fields, with its
/// discriminant cast to the representation.
pub open spec fn spec_fieldless_variant(variants: Seq<VariantView>, k: int, repr: IntKind) -> FieldlessVariantView {
    FieldlessVariantView {
        ident: variants[k].ident,
        discriminant: match spec_raw_discriminant(variants, k) {
            Some(d) => Some(repr.cast(d)),
            None => None,
        },
    }
}

/// The routine of a union without fields. The representation must name an
/// integer type, and the declaration must be of a union without fields. The
/// byte order is what the type's annotations say, else the configured
/// default.
pub open spec fn spec_impl_nom_fieldless_enums(
    ast: DeriveInputView,
    repr: Seq<char>,
    meta_list: Seq<MetaAttrView>,
    config: ConfigView,
) -> Result<FieldlessRoutineView, SynthesisError> {
    match spec_from_name(repr) {
        None => Err(SynthesisError::UnsupportedRepr),
        Some(kind) => match ast.data {
            DataView::Enum(variants) => if spec_all_fieldless(variants) {
                Ok(
                    FieldlessRoutineView {
                        name: ast.ident,
                        input_name: config.input_name,
                        orig_input_name: "orig_"@ + config.input_name,
                        pre_exec: spec_find_first(meta_list, MetaAttrType::PreExec),
                        repr: kind,
                        order: spec_byte_order(meta_list, Seq::empty(), config.big_endian),
                        variants: Seq::new(
                            variants.len(),
                            |k: int| spec_fieldless_variant(variants, k, kind),
                        ),
                        debug_derive: config.debug_derive,
                    },
                )
            } else {
                Err(SynthesisError::UnexpectedShape)
            },
            _ => Err(SynthesisError::UnexpectedShape),
        },
    }
}

/// Whether a result of the library is the given result over characters.
pub open spec fn fieldless_result(
    r: Result<FieldlessRoutine, SynthesisError>,
    expected: Result<FieldlessRoutineView, SynthesisError>,
) -> bool {
    match r {
        Ok(routine) => expected == Ok::<FieldlessRoutineView, SynthesisError>(routine.deep_view()),
        Err(e) => expected == Err::<FieldlessRoutineView, SynthesisError>(e),
    }
}

/// Synthesizes the routine of a union without fields, given the name of its
/// representation and the annotations of the type.
pub fn impl_nom_fieldless_enums(
    ast: &DeriveInput,
    repr: String,
    meta_list: &[MetaAttr],
    config: &Config,
) -> (r: Result<FieldlessRoutine, SynthesisError>)
    ensures
        fieldless_result(
            r,
            spec_impl_nom_fieldless_enums(
                ast.deep_view(),
                repr@,
                meta_list.deep_view(),
                config.deep_view(),
            ),
        ),
{
    let kind = match IntKind::from_name(repr.as_str()) {
        Some(kind) => kind,
        None => {
            return Err(SynthesisError::UnsupportedRepr);
        },
    };
    if !is_input_fieldless_enum(ast) {
        return Err(SynthesisError::UnexpectedShape);
    }
    let pre_exec = find_first(meta_list, MetaAttrType::PreExec);
    let empty: Vec<MetaAttr> = Vec::new();
    assert(empty.deep_view() =~= Seq::<MetaAttrView>::empty());
    let order = byte_order(meta_list, empty.as_slice(), config.big_endian);
    match &ast.data {
        Data::Enum(data) => {
            let ghost all = data.deep_view();
            let mut variants: Vec<FieldlessVariant> = Vec::new();
            let mut previous: Option<i128> = None;
            let mut k: usize = 0;
            while k < data.len()
                invariant
                    k <= data.len(),
                    all == data.deep_view(),
                    variants.len() == k,
                    forall|j: int|
                        0 <= j < k ==> #[trigger] variants.deep_view()[j] == spec_fieldless_variant(
                            all,
                            j,
                            kind,
                        ),
                    k > 0 ==> (match previous {
                        Some(p) => spec_raw_discriminant(all, k - 1) == Some(p as int),
                        None => spec_raw_discriminant(all, k - 1).is_none(),
                    }),
                decreases data.len() - k,
            {
                let raw: Option<i128> = match data[k].discriminant {
                    Discriminant::Literal(d) => Some(d),
                    Discriminant::Opaque => None,
                    Discriminant::Implicit => {
                        if k == 0 {
                            Some(0)
                        } else {
                            match previous {
                                Some(p) => {
                                    if p < i128::MAX {
                                        Some(p + 1)
                                    } else {
                                        None
                                    }
                                },
                                None => None,
                            }
                        }
                    },
                };
                proof {
                    assert(all[k as int] == data[k as int].deep_view());
                    assert(match raw {
                        Some(d) => spec_raw_discriminant(all, k as int) == Some(d as int),
                        None => spec_raw_discriminant(all, k as int).is_none(),
                    });
                }
                let discriminant = match raw {
                    Some(d) => Some(kind.cast_value(d)),
                    None => None,
                };
                let ghost before = variants.deep_view();
                let variant = FieldlessVariant { ident: data[k].ident.clone(), discriminant };
                assert(variant.deep_view() == spec_fieldless_variant(all, k as int, kind));
                variants.push(variant);
                assert(variants.deep_view() =~= before.push(
                    spec_fieldless_variant(all, k as int, kind),
                ));
                previous = raw;
                k = k + 1;
            }
            let routine = FieldlessRoutine {
                name: ast.ident.clone(),
                input_name: config.input_name.clone(),
                orig_input_name: config.orig_input_name(),
                pre_exec,
                repr: kind,
                order,
                variants,
                debug_derive: config.debug_derive,
            };
            assert(routine.deep_view().variants =~= Seq::new(
                all.len(),
                |k: int| spec_fieldless_variant(all, k, kind),
            ));
            Ok(routine)
        },
        _ => Err(SynthesisError::UnexpectedShape),
    }
}

/// Whether a variant is the default: the one whose pattern is `_`.
pub open spec fn spec_is_default(def: VariantParserTreeView) -> bool {
    def.selector == "_"@
}

/// Whether one of the variants is a default.
pub open spec fn spec_has_default(defs: Seq<VariantParserTreeView>) -> bool {
    exists|k: int| 0 <= k < defs.len() && spec_is_default(#[trigger] defs[k])
}

/// Those of the first `n` variants that are defaults, or those that are
/// not, in their order.
pub open spec fn spec_select(defs: Seq<VariantParserTreeView>, n: int, default: bool) -> Seq<
    VariantParserTreeView,
>
    decreases n,
{
    if n <= 0 {
        Seq::empty()
    } else {
        let rest = spec_select(defs, n - 1, default);
        if spec_is_default(defs[n - 1]) == default {
            rest.push(defs[n - 1])
        } else {
            rest
        }
    }
}

/// The variants in the order in which their patterns are tried: those that
/// are no default, in the order of declaration, and after them the
/// defaults.
pub open spec fn spec_order_arms(defs: Seq<VariantParserTreeView>) -> Seq<VariantParserTreeView> {
    spec_select(defs, defs.len() as int, false) + spec_select(defs, defs.len() as int, true)
}

/// Some default is among the first `n` variants exactly if the selection of
/// defaults among them is not empty.
pub proof fn lemma_select_default(defs: Seq<VariantParserTreeView>, n: int)
    requires
        0 <= n <= defs.len(),
    ensures
        (spec_select(defs, n, true).len() > 0) == (exists|k: int|
            0 <= k < n && spec_is_default(#[trigger] defs[k])),
    decreases n,
{
    if n > 0 {
        lemma_select_default(defs, n - 1);
        if spec_is_default(defs[n - 1]) {
        } else {
            if exists|k: int| 0 <= k < n && spec_is_default(#[trigger] defs[k]) {
                let k = choose|k: int| 0 <= k < n && spec_is_default(#[trigger] defs[k]);
                assert(k < n - 1);
            }
        }
    }
}

/// Puts the variants in the order in which their patterns are tried, and
/// says whether a default is among them. A union is meant to have one
/// default at most; where it has more, they all go to the end, and the
/// first of them catches what no pattern matches.
pub fn order_arms(defs: Vec<VariantParserTree>) -> (r: (Vec<VariantParserTree>, bool))
    ensures
        r.0.deep_view() == spec_order_arms(defs.deep_view()),
        r.1 == spec_has_default(defs.deep_view()),
{
    let ghost all = defs.deep_view();
    let total = defs.len();
    let mut rest = defs;
    let mut plain: Vec<VariantParserTree> = Vec::new();
    let mut defaults: Vec<VariantParserTree> = Vec::new();
    let mut k: usize = 0;
    assert(plain.deep_view() =~= spec_select(all, 0, false));
    assert(defaults.deep_view() =~= spec_select(all, 0, true));
    assert(rest.deep_view() =~= all.skip(0));
    while k < total
        invariant
            k <= total == all.len(),
            rest.deep_view() == all.skip(k as int),
            plain.deep_view() == spec_select(all, k as int, false),
            defaults.deep_view() == spec_select(all, k as int, true),
        decreases total - k,
    {
        let ghost rest_before = rest.deep_view();
        let ghost items_before = rest@;
        let ghost plain_before = plain.deep_view();
        let ghost defaults_before = defaults.deep_view();
        assert(rest.len() == rest_before.len());
        let def = rest.remove(0);
        assert(def.deep_view() == all[k as int]) by {
            assert(rest_before[0] == def.deep_view());
        }
        assert forall|i: int| 0 <= i < rest.len() implies #[trigger] rest.deep_view()[i] == all[k
            + 1 + i] by {
            assert(rest@[i] == items_before[i + 1]);
            assert(rest_before[i + 1] == items_before[i + 1].deep_view());
            assert(all.skip(k as int)[i + 1] == all[k + 1 + i]);
        }
        assert(rest.deep_view() =~= all.skip(k + 1));
        if same_text(def.selector.as_str(), "_") {
            defaults.push(def);
            assert(defaults.deep_view() =~= defaults_before.push(all[k as int]));
        } else {
            plain.push(def);
            assert(plain.deep_view() =~= plain_before.push(all[k as int]));
        }
        k = k + 1;
    }
    proof {
        lemma_select_default(all, total as int);
    }
    let has_default = defaults.len() > 0;
    let ghost plain_all = plain.deep_view();
    let ghost defaults_all = defaults.deep_view();
    plain.append(&mut defaults);
    assert(plain.deep_view() =~= plain_all + defaults_all);
    (plain, has_default)
}

/// The place of the first verdict, from `from` on, that is `false`.
pub open spec fn spec_first_false(verdicts: Seq<bool>, from: int) -> Option<int>
    decreases verdicts.len() - from,
{
    if from < 0 || from >= verdicts.len() {
        None
    } else if !verdicts[from] {
        Some(from)
    } else {
        spec_first_false(verdicts, from + 1)
    }
}

/// What the verdicts on the selector type and on the patterns of the
/// variants, in the order of declaration, come to: the type is held to
/// account first, then the first pattern that is no sequence of tokens.
pub open spec fn spec_check_selectors(selector_ok: bool, patterns_ok: Seq<bool>) -> Result<
    (),
    SynthesisError,
> {
    if !selector_ok {
        Err(SynthesisError::InvalidSelectorType)
    } else {
        match spec_first_false(patterns_ok, 0) {
            Some(k) => Err(SynthesisError::InvalidSelector { variant: k as usize }),
            None => Ok(()),
        }
    }
}

/// Decides, from the verdicts on the selector type and on each variant's
/// pattern, whether synthesis goes on, and with which error it ends.
pub fn check_selectors(selector_ok: bool, patterns_ok: &[bool]) -> (r: Result<(), SynthesisError>)
    ensures
        r == spec_check_selectors(selector_ok, patterns_ok@),
{
    if !selector_ok {
        return Err(SynthesisError::InvalidSelectorType);
    }
    let mut k: usize = 0;
    while k < patterns_ok.len()
        invariant
            selector_ok,
            k <= patterns_ok.len(),
            spec_first_false(patterns_ok@, 0) == spec_first_false(patterns_ok@, k as int),
        decreases patterns_ok.len() - k,
    {
        if !patterns_ok[k] {
            assert(spec_first_false(patterns_ok@, k as int) == Some(k as int));
            return Err(SynthesisError::InvalidSelector { variant: k });
        }
        k = k + 1;
    }
    Ok(())
}

/// The first `n` variants, each as `spec_parse_variant` gives it, or the
/// first failure.
pub open spec fn spec_parse_variants(
    variants: Seq<VariantView>,
    n: int,
    container: Seq<MetaAttrView>,
    big_endian: bool,
) -> Result<Seq<VariantParserTreeView>, SynthesisError>
    decreases n,
{
    if n <= 0 {
        Ok(Seq::empty())
    } else {
        match spec_parse_variants(variants, n - 1, container, big_endian) {
            Err(e) => Err(e),
            Ok(defs) => match spec_parse_variant(variants[n - 1], n - 1, container, big_endian) {
                Err(e) => Err(e),
                Ok(def) => Ok(defs.push(def)),
            },
        }
    }
}

/// Once the first `n` variants fail, so do the first `m`, for any `m` from
/// `n` on, and with the same error.
pub proof fn lemma_variants_fail(
    variants: Seq<VariantView>,
    n: int,
    m: int,
    container: Seq<MetaAttrView>,
    big_endian: bool,
)
    requires
        n <= m,
        spec_parse_variants(variants, n, container, big_endian).is_err(),
    ensures
        spec_parse_variants(variants, m, container, big_endian) == spec_parse_variants(
            variants,
            n,
            container,
            big_endian,
        ),
    decreases m - n,
{
    if n < m {
        lemma_variants_fail(variants, n, m - 1, container, big_endian);
    }
}

/// The routine of a union that a selector drives. The selector is handed to
/// it; its arms are tried in their order, and each reads the fields of its
/// variant from the input. Where no arm is a default, a selector that no
/// pattern matches is a `Switch` failure.
#[derive(Debug)]
pub struct SelectorRoutine {
    pub name: String,
    pub input_name: String,
    pub orig_input_name: String,
    pub pre_exec: Option<String>,
    pub selector_type: String,
    pub arms: Vec<VariantParserTree>,
    pub default_case_handled: bool,
    pub debug_derive: bool,
}

/// The routine of a union that a selector drives, as characters.
pub struct SelectorRoutineView {
    pub name: Seq<char>,
    pub input_name: Seq<char>,
    pub orig_input_name: Seq<char>,
    pub pre_exec: Option<Seq<char>>,
    pub selector_type: Seq<char>,
    pub arms: Seq<VariantParserTreeView>,
    pub default_case_handled: bool,
    pub debug_derive: bool,
}

impl DeepView for SelectorRoutine {
    type V = SelectorRoutineView;

    open spec fn deep_view(&self) -> SelectorRoutineView {
        SelectorRoutineView {
            name: self.name@,
            input_name: self.input_name@,
            orig_input_name: self.orig_input_name@,
            pre_exec: opt_chars(self.pre_exec),
            selector_type: self.selector_type@,
            arms: self.arms.deep_view(),
            default_case_handled: self.default_case_handled,
            debug_derive: self.debug_derive,
        }
    }
}

/// The routine of a tagged union.
#[derive(Debug)]
pub enum EnumRoutine {
    Selector(SelectorRoutine),
    Fieldless(FieldlessRoutine),
}

/// The routine of a tagged union, as characters.
pub enum EnumRoutineView {
    Selector(SelectorRoutineView),
    Fieldless(FieldlessRoutineView),
}

impl DeepView for EnumRoutine {
    type V = EnumRoutineView;

    open spec fn deep_view(&self) -> EnumRoutineView {
        match self {
            EnumRoutine::Selector(r) => EnumRoutineView::Selector(r.deep_view()),
            EnumRoutine::Fieldless(r) => EnumRoutineView::Fieldless(r.deep_view()),
        }
    }
}

/// The routine of a union that a selector drives, put together from the
/// selector type, the variants in the order of declaration and the type's
/// annotations.
pub open spec fn spec_selector_routine(
    ast: DeriveInputView,
    config: ConfigView,
    meta_list: Seq<MetaAttrView>,
    selector: Seq<char>,
    defs: Seq<VariantParserTreeView>,
) -> SelectorRoutineView {
    SelectorRoutineView {
        name: ast.ident,
        input_name: config.input_name,
        orig_input_name: "orig_"@ + config.input_name,
        pre_exec: spec_find_first(meta_list, MetaAttrType::PreExec),
        selector_type: selector,
        arms: spec_order_arms(defs),
        default_case_handled: spec_has_default(defs),
        debug_derive: config.debug_derive,
    }
}

/// The routine of a tagged union.
///
/// The annotations of the type must have a typed form. Where they name a
/// selector type, the declaration must be of a union, each variant must be
/// read, and the selector type and each pattern must be a sequence of
/// tokens; the arms are then put in their order. Where they name none, the
/// union must be without fields and declare its representation, and the
/// routine reads the discriminant; a union with a field has no routine.
pub open spec fn spec_impl_nom_enums(ast: DeriveInputView, config: ConfigView) -> Result<
    EnumRoutineView,
    SynthesisError,
> {
    match spec_parse_attrs(ast.nom_attrs) {
        Err(e) => Err(e),
        Ok(meta_list) => match spec_find_first(meta_list, MetaAttrType::Selector) {
            None => if spec_is_fieldless_enum(ast) {
                match spec_get_repr(ast.attrs) {
                    Err(e) => Err(e),
                    Ok(None) => Err(SynthesisError::MissingRepr),
                    Ok(Some(repr)) => match spec_impl_nom_fieldless_enums(
                        ast,
                        repr,
                        meta_list,
                        config,
                    ) {
                        Err(e) => Err(e),
                        Ok(routine) => Ok(EnumRoutineView::Fieldless(routine)),
                    },
                }
            } else {
                Err(SynthesisError::MissingSelector)
            },
            Some(selector) => match ast.data {
                DataView::Enum(variants) => match spec_parse_variants(
                    variants,
                    variants.len() as int,
                    meta_list,
                    config.big_endian,
                ) {
                    Err(e) => Err(e),
                    Ok(defs) => match spec_check_selectors(
                        crate::tokens::lexes(selector),
                        Seq::new(defs.len(), |k: int| crate::tokens::lexes(defs[k].selector)),
                    ) {
                        Err(e) => Err(e),
                        Ok(_) => Ok(
                            EnumRoutineView::Selector(
                                spec_selector_routine(ast, config, meta_list, selector, defs),
                            ),
                        ),
                    },
                },
                _ => Err(SynthesisError::UnexpectedShape),
            },
        },
    }
}

/// Whether a result of the library is the given result over characters.
pub open spec fn enum_result(
    r: Result<EnumRoutine, SynthesisError>,
    expected: Result<EnumRoutineView, SynthesisError>,
) -> bool {
    match r {
        Ok(routine) => expected == Ok::<EnumRoutineView, SynthesisError>(routine.deep_view()),
        Err(e) => expected == Err::<EnumRoutineView, SynthesisError>(e),
    }
}

/// Synthesizes the routine of a tagged union.
#[verifier::loop_isolation(false)]
pub fn impl_nom_enums(ast: &DeriveInput, config: &Config) -> (r: Result<
    EnumRoutine,
    SynthesisError,
>)
    ensures
        enum_result(r, spec_impl_nom_enums(ast.deep_view(), config.deep_view())),
{
    let meta_list = match parse_nom_attribute(&ast.nom_attrs) {
        Ok(list) => list,
        Err(e) => {
            return Err(e);
        },
    };
    proof {
        lemma_find_first_some(meta_list.deep_view(), MetaAttrType::Selector);
    }
    let selector = match get_selector(meta_list.as_slice()) {
        Some(selector) => selector,
        None => {
            if is_input_fieldless_enum(ast) {
                let repr = match get_repr(ast.attrs.as_slice()) {
                    Ok(Some(repr)) => repr,
                    Ok(None) => {
                        return Err(SynthesisError::MissingRepr);
                    },
                    Err(e) => {
                        return Err(e);
                    },
                };
                return match impl_nom_fieldless_enums(ast, repr, meta_list.as_slice(), config) {
                    Ok(routine) => Ok(EnumRoutine::Fieldless(routine)),
                    Err(e) => Err(e),
                };
            } else {
                return Err(SynthesisError::MissingSelector);
            }
        },
    };
    let variants = match &ast.data {
        Data::Enum(variants) => variants,
        _ => {
            return Err(SynthesisError::UnexpectedShape);
        },
    };
    let ghost all = variants.deep_view();
    let ghost container = meta_list.deep_view();
    let mut defs: Vec<VariantParserTree> = Vec::new();
    let mut k: usize = 0;
    assert(defs.deep_view() =~= Seq::<VariantParserTreeView>::empty());
    while k < variants.len()
        invariant
            k <= variants.len(),
            all == variants.deep_view(),
            container == meta_list.deep_view(),
            spec_parse_variants(all, k as int, container, config.big_endian) == Ok::<
                Seq<VariantParserTreeView>,
                SynthesisError,
            >(defs.deep_view()),
        decreases variants.len() - k,
    {
        let ghost before = defs.deep_view();
        match parse_variant(&variants[k], k, meta_list.as_slice(), config) {
            Ok(def) => {
                defs.push(def);
                assert(defs.deep_view() =~= before.push(def.deep_view()));
            },
            Err(e) => {
                proof {
                    lemma_variants_fail(
                        all,
                        k + 1,
                        all.len() as int,
                        container,
                        config.big_endian,
                    );
                }
                return Err(e);
            },
        }
        k = k + 1;
    }
    let selector_ok = crate::tokens::is_token_stream(selector.as_str());
    let mut patterns_ok: Vec<bool> = Vec::new();
    let mut j: usize = 0;
    while j < defs.len()
        invariant
            j <= defs.len(),
            patterns_ok.len() == j,
            forall|i: int|
                0 <= i < j ==> #[trigger] patterns_ok[i] == crate::tokens::lexes(
                    defs.deep_view()[i].selector,
                ),
        decreases defs.len() - j,
    {
        let ok = crate::tokens::is_token_stream(defs[j].selector.as_str());
        patterns_ok.push(ok);
        j = j + 1;
    }
    assert(patterns_ok@ =~= Seq::new(
        defs.deep_view().len(),
        |k: int| crate::tokens::lexes(defs.deep_view()[k].selector),
    ));
    match check_selectors(selector_ok, patterns_ok.as_slice()) {
        Ok(_) => {},
        Err(e) => {
            return Err(e);
        },
    }
    let pre_exec = find_first(meta_list.as_slice(), MetaAttrType::PreExec);
    let ghost declared = defs.deep_view();
    let (arms, default_case_handled) = order_arms(defs);
    let routine = SelectorRoutine {
        name: ast.ident.clone(),
        input_name: config.input_name.clone(),
        orig_input_name: config.orig_input_name(),
        pre_exec,
        selector_type: selector,
        arms,
        default_case_handled,
        debug_derive: config.debug_derive,
    };
    assert(routine.deep_view() == spec_selector_routine(
        ast.deep_view(),
        config.deep_view(),
        container,
        selector@,
        declared,
    ));
    Ok(EnumRoutine::Selector(routine))
}

} // verus!
