//! Records: the decoder of each field, resolved from the field's type and
//! annotations, and the fields of a record in the order in which they are
//! read.

use crate::attr::{
    find_first, has_kind, parse_nom_attribute, spec_find_first, spec_has_kind,
    spec_parse_attrs, MetaAttr, MetaAttrType, MetaAttrView,
};
use crate::config::{Config, ConfigView};
use crate::decl::{Data, DataView, DeriveInput, DeriveInputView, Field, FieldView, Fields, FieldsView};
use crate::error::SynthesisError;
use crate::expr::{
    is_name_start, parse_comparison, parse_term, scan, spec_comparison, spec_lone_term,
    spec_scan, CharClass, Term, TermView,
};
use crate::number::{spec_from_name, ByteOrder, IntKind};
use crate::parsertree::{
    Check, CheckView, Framing, FramingView, Operand, ParserTree, ParserTreeView, Predicate,
    Primitive, PrimitiveView,
};
use crate::text::{opt_chars, same_text};
use vstd::prelude::*;
use vstd::string::StrSliceExecFns;

verus! {

/// One step of a record: the name that the value is bound to, and the
/// decoder that reads it.
#[derive(Debug)]
pub struct StructParser {
    pub name: String,
    pub parser: ParserTree,
}

/// A step, as characters.
pub struct StructParserView {
    pub name: Seq<char>,
    pub parser: ParserTreeView,
}

impl DeepView for StructParser {
    type V = StructParserView;

    open spec fn deep_view(&self) -> StructParserView {
        StructParserView { name: self.name@, parser: self.parser.deep_view() }
    }
}

/// The steps of a record, in the order in which they are read.
#[derive(Debug)]
pub struct StructParserTree {
    /// Whether the value is put together by position rather than by name.
    pub unnamed: bool,
    pub parsers: Vec<StructParser>,
}

/// The steps of a record, as characters.
pub struct StructParserTreeView {
    pub unnamed: bool,
    pub parsers: Seq<StructParserView>,
}

impl DeepView for StructParserTree {
    type V = StructParserTreeView;

    open spec fn deep_view(&self) -> StructParserTreeView {
        StructParserTreeView { unnamed: self.unnamed, parsers: self.parsers.deep_view() }
    }
}

/// The byte order of a field: what the field's own annotations say, else
/// what those of the enclosing type say, else the configured default. Where
/// one list names both orders, big-endian is taken.
pub open spec fn spec_byte_order(
    own: Seq<MetaAttrView>,
    container: Seq<MetaAttrView>,
    big_endian: bool,
) -> ByteOrder {
    if spec_has_kind(own, MetaAttrType::BigEndian) {
        ByteOrder::Big
    } else if spec_has_kind(own, MetaAttrType::LittleEndian) {
        ByteOrder::Little
    } else if spec_has_kind(container, MetaAttrType::BigEndian) {
        ByteOrder::Big
    } else if spec_has_kind(container, MetaAttrType::LittleEndian) {
        ByteOrder::Little
    } else if big_endian {
        ByteOrder::Big
    } else {
        ByteOrder::Little
    }
}

/// The byte order of a field.
pub fn byte_order(own: &[MetaAttr], container: &[MetaAttr], big_endian: bool) -> (r: ByteOrder)
    ensures
        r == spec_byte_order(own.deep_view(), container.deep_view(), big_endian),
{
    if has_kind(own, MetaAttrType::BigEndian) {
        ByteOrder::Big
    } else if has_kind(own, MetaAttrType::LittleEndian) {
        ByteOrder::Little
    } else if has_kind(container, MetaAttrType::BigEndian) {
        ByteOrder::Big
    } else if has_kind(container, MetaAttrType::LittleEndian) {
        ByteOrder::Little
    } else if big_endian {
        ByteOrder::Big
    } else {
        ByteOrder::Little
    }
}

/// The names of the host's scalar types that have no decoder here.
pub open spec fn spec_is_bare_scalar(ty: Seq<char>) -> bool {
    ty == "u128"@ || ty == "i128"@ || ty == "usize"@ || ty == "isize"@ || ty == "f32"@ || ty
        == "f64"@ || ty == "bool"@ || ty == "char"@ || ty == "str"@
}

/// Whether a declared type names a type with a routine of its own: a path
/// of names, and not one of the host's scalars.
pub open spec fn spec_is_user_type(ty: Seq<char>) -> bool {
    &&& ty.len() > 0
    &&& is_name_start(ty[0])
    &&& spec_scan(ty, 0, CharClass::Path) == ty.len()
    &&& !spec_is_bare_scalar(ty)
}

/// Whether a declared type names a type with a routine of its own.
pub fn is_user_type(ty: &str) -> (r: bool)
    ensures
        r == spec_is_user_type(ty@),
{
    let len = ty.unicode_len();
    if len == 0 {
        return false;
    }
    if !CharClass::Name.admits(ty.get_char(0)) || CharClass::Digit.admits(ty.get_char(0)) {
        return false;
    }
    if scan(ty, len, 0, CharClass::Path) != len {
        return false;
    }
    !(same_text(ty, "u128") || same_text(ty, "i128") || same_text(ty, "usize") || same_text(
        ty,
        "isize",
    ) || same_text(ty, "f32") || same_text(ty, "f64") || same_text(ty, "bool") || same_text(
        ty,
        "char",
    ) || same_text(ty, "str"))
}

/// The primitive of a field: the decoder that a `Parse` annotation names,
/// else the integer decoder of the declared type, else the routine of the
/// declared type. A type that is neither has none.
pub open spec fn spec_primitive(
    ty: Seq<char>,
    attrs: Seq<MetaAttrView>,
    order: ByteOrder,
) -> Option<PrimitiveView> {
    match spec_find_first(attrs, MetaAttrType::Parse) {
        Some(text) => Some(PrimitiveView::Raw(text)),
        None => match spec_from_name(ty) {
            Some(kind) => Some(PrimitiveView::Int { kind, order }),
            None => if spec_is_user_type(ty) {
                Some(PrimitiveView::Nested(ty))
            } else {
                None
            },
        },
    }
}

/// The place of the nearest earlier step that binds `name`.
pub open spec fn spec_lookup(scope: Seq<StructParserView>, name: Seq<char>) -> Option<int>
    decreases scope.len(),
{
    if scope.len() == 0 {
        None
    } else if scope.last().name == name {
        Some(scope.len() - 1)
    } else {
        spec_lookup(scope.drop_last(), name)
    }
}

/// The place of the nearest earlier step that binds `name`.
pub fn lookup(scope: &Vec<StructParser>, name: &str) -> (r: Option<usize>)
    ensures
        match r {
            Some(j) => spec_lookup(scope.deep_view(), name@) == Some(j as int) && j < scope.len(),
            None => spec_lookup(scope.deep_view(), name@).is_none(),
        },
{
    let mut i = scope.len();
    assert(scope.deep_view().take(i as int) =~= scope.deep_view());
    while i > 0
        invariant
            i <= scope.len(),
            spec_lookup(scope.deep_view(), name@) == spec_lookup(
                scope.deep_view().take(i as int),
                name@,
            ),
        decreases i,
    {
        let ghost prefix = scope.deep_view().take(i as int);
        assert(prefix.last() == scope.deep_view()[i - 1]);
        assert(prefix.drop_last() =~= scope.deep_view().take(i - 1));
        if same_text(scope[i - 1].name.as_str(), name) {
            return Some(i - 1);
        }
        i = i - 1;
    }
    None
}

/// The operand that a term stands for. A number stands for itself. Where
/// `own` is given, the word `value` and the name `own` stand for the value
/// that was just decoded. Any other name stands for the nearest earlier step
/// of that name, if that step always holds exactly one integer.
pub open spec fn spec_operand(
    term: TermView,
    scope: Seq<StructParserView>,
    own: Option<Seq<char>>,
) -> Option<Operand> {
    match term {
        TermView::Number(n) => Some(Operand::Literal(n as i128)),
        TermView::Name(name) => if own.is_some() && (name == "value"@ || name == own.unwrap()) {
            Some(Operand::Current)
        } else {
            match spec_lookup(scope, name) {
                Some(j) => if scope[j].parser.scalar_kind().is_some() {
                    Some(Operand::Field(j as usize))
                } else {
                    None
                },
                None => None,
            }
        },
    }
}

/// What an optional name holds, as characters.
pub open spec fn opt_str_chars(name: Option<&str>) -> Option<Seq<char>> {
    match name {
        Some(s) => Some(s@),
        None => None,
    }
}

/// The operand that a term stands for.
pub fn resolve_operand(term: &Term, scope: &Vec<StructParser>, own: Option<&str>) -> (r: Option<
    Operand,
>)
    ensures
        r == spec_operand(term.deep_view(), scope.deep_view(), opt_str_chars(own)),
{
    match term {
        Term::Number(n) => Some(Operand::Literal(*n)),
        Term::Name(name) => {
            if let Some(own_name) = own {
                if same_text(name.as_str(), "value") || same_text(name.as_str(), own_name) {
                    return Some(Operand::Current);
                }
            }
            match lookup(scope, name.as_str()) {
                Some(j) => {
                    if scope[j].parser.scalar_kind().is_some() {
                        Some(Operand::Field(j))
                    } else {
                        None
                    }
                },
                None => None,
            }
        },
    }
}

/// The comparison that a predicate's text spells, with its terms resolved.
/// Text that spells none, or names what cannot be resolved, has none.
pub open spec fn spec_predicate(
    text: Seq<char>,
    scope: Seq<StructParserView>,
    own: Option<Seq<char>>,
) -> Option<Predicate> {
    match spec_comparison(text) {
        Some(c) => match (spec_operand(c.lhs, scope, own), spec_operand(c.rhs, scope, own)) {
            (Some(lhs), Some(rhs)) => Some(Predicate { lhs, relation: c.relation, rhs }),
            _ => None,
        },
        None => None,
    }
}

/// The comparison that a predicate's text spells, with its terms resolved.
pub fn resolve_predicate(text: &str, scope: &Vec<StructParser>, own: Option<&str>) -> (r: Option<
    Predicate,
>)
    ensures
        r == spec_predicate(text@, scope.deep_view(), opt_str_chars(own)),
{
    match parse_comparison(text) {
        Some(c) => {
            let lhs = resolve_operand(&c.lhs, scope, own);
            let rhs = resolve_operand(&c.rhs, scope, own);
            match (lhs, rhs) {
                (Some(lhs), Some(rhs)) => Some(Predicate { lhs, relation: c.relation, rhs }),
                _ => None,
            }
        },
        None => None,
    }
}

/// The operand that the text of a `Count` spells: a number that is not
/// negative, or the name of an earlier step that always holds exactly one
/// unsigned integer.
pub open spec fn spec_count_source(text: Seq<char>, scope: Seq<StructParserView>) -> Option<
    Operand,
> {
    match spec_lone_term(text) {
        Some(TermView::Number(n)) => if n >= 0 {
            Some(Operand::Literal(n as i128))
        } else {
            None
        },
        Some(TermView::Name(name)) => match spec_lookup(scope, name) {
            Some(j) => match scope[j].parser.scalar_kind() {
                Some(kind) => if !kind.spec_signed() {
                    Some(Operand::Field(j as usize))
                } else {
                    None
                },
                None => None,
            },
            None => None,
        },
        None => None,
    }
}

/// The operand that the text of a `Count` spells.
pub fn count_source(text: &str, scope: &Vec<StructParser>) -> (r: Option<Operand>)
    ensures
        r == spec_count_source(text@, scope.deep_view()),
{
    match parse_term(text) {
        Some(Term::Number(n)) => {
            if n >= 0 {
                Some(Operand::Literal(n))
            } else {
                None
            }
        },
        Some(Term::Name(name)) => match lookup(scope, name.as_str()) {
            Some(j) => match scope[j].parser.scalar_kind() {
                Some(kind) => {
                    if !kind.signed() {
                        Some(Operand::Field(j))
                    } else {
                        None
                    }
                },
                None => None,
            },
            None => None,
        },
        None => None,
    }
}

/// The decoder that the text of a `LengthCount` names: the name of an
/// unsigned integer type, read in the field's byte order, or that name
/// after `be_` or `le_`, read in the order that the prefix says.
pub open spec fn spec_prefix_decoder(text: Seq<char>, order: ByteOrder) -> Option<
    (IntKind, ByteOrder),
> {
    let (name, chosen) = if text.len() >= 3 && text.subrange(0, 3) == "be_"@ {
        (text.subrange(3, text.len() as int), ByteOrder::Big)
    } else if text.len() >= 3 && text.subrange(0, 3) == "le_"@ {
        (text.subrange(3, text.len() as int), ByteOrder::Little)
    } else {
        (text, order)
    };
    match spec_from_name(name) {
        Some(kind) => if !kind.spec_signed() {
            Some((kind, chosen))
        } else {
            None
        },
        None => None,
    }
}

/// The decoder that the text of a `LengthCount` names.
pub fn prefix_decoder(text: &str, order: ByteOrder) -> (r: Option<(IntKind, ByteOrder)>)
    ensures
        r == spec_prefix_decoder(text@, order),
{
    let len = text.unicode_len();
    let mut name = text;
    let mut chosen = order;
    if len >= 3 {
        let head = text.substring_char(0, 3);
        if same_text(head, "be_") {
            name = text.substring_char(3, len);
            chosen = ByteOrder::Big;
        } else if same_text(head, "le_") {
            name = text.substring_char(3, len);
            chosen = ByteOrder::Little;
        }
    }
    match IntKind::from_name(name) {
        Some(kind) => {
            if !kind.signed() {
                Some((kind, chosen))
            } else {
                None
            }
        },
        None => None,
    }
}

/// The framing of a field: that of its first `Count` annotation, else that
/// of its first `LengthCount` annotation, else a single value.
pub open spec fn spec_framing(
    attrs: Seq<MetaAttrView>,
    scope: Seq<StructParserView>,
    order: ByteOrder,
) -> FramingView {
    match spec_find_first(attrs, MetaAttrType::Count) {
        Some(text) => FramingView::Count { text, source: spec_count_source(text, scope) },
        None => match spec_find_first(attrs, MetaAttrType::LengthCount) {
            Some(text) => FramingView::LengthCount {
                text,
                prefix: spec_prefix_decoder(text, order),
            },
            None => FramingView::Single,
        },
    }
}

/// The check that the first annotation of `kind` asks for.
pub open spec fn spec_check(
    attrs: Seq<MetaAttrView>,
    kind: MetaAttrType,
    scope: Seq<StructParserView>,
    own: Option<Seq<char>>,
) -> Option<CheckView> {
    match spec_find_first(attrs, kind) {
        Some(text) => Some(CheckView { text, predicate: spec_predicate(text, scope, own) }),
        None => None,
    }
}

/// The check that the first annotation of `kind` asks for.
fn resolve_check(
    attrs: &[MetaAttr],
    kind: MetaAttrType,
    scope: &Vec<StructParser>,
    own: Option<&str>,
) -> (r: Option<Check>)
    ensures
        crate::parsertree::opt_check(r) == spec_check(
            attrs.deep_view(),
            kind,
            scope.deep_view(),
            opt_str_chars(own),
        ),
{
    match find_first(attrs, kind) {
        Some(text) => {
            let predicate = resolve_predicate(text.as_str(), scope, own);
            Some(Check { text, predicate })
        },
        None => None,
    }
}

/// The decoder of the field at place `index`, given the steps before it,
/// the annotations of the enclosing type and the default byte order. The
/// primitive is wrapped in the field's verification, then in its framing,
/// then in its condition.
pub open spec fn spec_resolve_field(
    field: FieldView,
    index: int,
    scope: Seq<StructParserView>,
    container: Seq<MetaAttrView>,
    big_endian: bool,
) -> Result<ParserTreeView, SynthesisError> {
    match spec_parse_attrs(field.attrs) {
        Err(e) => Err(e),
        Ok(attrs) => {
            let order = spec_byte_order(attrs, container, big_endian);
            match spec_primitive(field.ty, attrs, order) {
                None => Err(SynthesisError::UnsupportedType { field: index as usize }),
                Some(base) => Ok(
                    ParserTreeView {
                        base,
                        verify: spec_check(attrs, MetaAttrType::Verify, scope, Some(field.name)),
                        framing: spec_framing(attrs, scope, order),
                        cond: spec_check(attrs, MetaAttrType::Cond, scope, None),
                    },
                ),
            }
        },
    }
}

/// Whether a result of the library is the given result over characters.
pub open spec fn tree_result(
    r: Result<ParserTree, SynthesisError>,
    expected: Result<ParserTreeView, SynthesisError>,
) -> bool {
    match r {
        Ok(tree) => expected == Ok::<ParserTreeView, SynthesisError>(tree.deep_view()),
        Err(e) => expected == Err::<ParserTreeView, SynthesisError>(e),
    }
}

/// Resolves the decoder of the field at place `index`.
pub fn resolve_field(
    field: &Field,
    index: usize,
    scope: &Vec<StructParser>,
    container: &[MetaAttr],
    config: &Config,
) -> (r: Result<ParserTree, SynthesisError>)
    ensures
        tree_result(
            r,
            spec_resolve_field(
                field.deep_view(),
                index as int,
                scope.deep_view(),
                container.deep_view(),
                config.big_endian,
            ),
        ),
{
    let attrs = match parse_nom_attribute(&field.attrs) {
        Ok(attrs) => attrs,
        Err(e) => {
            return Err(e);
        },
    };
    let order = byte_order(attrs.as_slice(), container, config.big_endian);
    let base = match find_first(attrs.as_slice(), MetaAttrType::Parse) {
        Some(text) => Primitive::Raw(text),
        None => match IntKind::from_name(field.ty.as_str()) {
            Some(kind) => Primitive::Int { kind, order },
            None => {
                if is_user_type(field.ty.as_str()) {
                    Primitive::Nested(field.ty.clone())
                } else {
                    return Err(SynthesisError::UnsupportedType { field: index });
                }
            },
        },
    };
    let verify = resolve_check(
        attrs.as_slice(),
        MetaAttrType::Verify,
        scope,
        Some(field.name.as_str()),
    );
    let framing = match find_first(attrs.as_slice(), MetaAttrType::Count) {
        Some(text) => {
            let source = count_source(text.as_str(), scope);
            Framing::Count { text, source }
        },
        None => match find_first(attrs.as_slice(), MetaAttrType::LengthCount) {
            Some(text) => {
                let prefix = prefix_decoder(text.as_str(), order);
                Framing::LengthCount { text, prefix }
            },
            None => Framing::Single,
        },
    };
    let cond = resolve_check(attrs.as_slice(), MetaAttrType::Cond, scope, None);
    Ok(ParserTree { base, verify, framing, cond })
}

/// The steps of the first `n` fields, each resolved with the steps before
/// it in scope, or the first failure.
pub open spec fn spec_parse_steps(
    items: Seq<FieldView>,
    n: int,
    container: Seq<MetaAttrView>,
    big_endian: bool,
) -> Result<Seq<StructParserView>, SynthesisError>
    decreases n,
{
    if n <= 0 {
        Ok(Seq::empty())
    } else {
        match spec_parse_steps(items, n - 1, container, big_endian) {
            Err(e) => Err(e),
            Ok(scope) => match spec_resolve_field(
                items[n - 1],
                n - 1,
                scope,
                container,
                big_endian,
            ) {
                Err(e) => Err(e),
                Ok(parser) => Ok(scope.push(StructParserView { name: items[n - 1].name, parser })),
            },
        }
    }
}

/// The steps of a record: one for each field, in the order of declaration.
pub open spec fn spec_parse_fields(
    fields: FieldsView,
    container: Seq<MetaAttrView>,
    big_endian: bool,
) -> Result<StructParserTreeView, SynthesisError> {
    match spec_parse_steps(fields.items, fields.items.len() as int, container, big_endian) {
        Err(e) => Err(e),
        Ok(parsers) => Ok(StructParserTreeView { unnamed: fields.unnamed, parsers }),
    }
}

/// Whether a result of the library is the given result over characters.
pub open spec fn steps_result(
    r: Result<StructParserTree, SynthesisError>,
    expected: Result<StructParserTreeView, SynthesisError>,
) -> bool {
    match r {
        Ok(tree) => expected == Ok::<StructParserTreeView, SynthesisError>(tree.deep_view()),
        Err(e) => expected == Err::<StructParserTreeView, SynthesisError>(e),
    }
}

/// Resolves the fields of a record into its steps, in the order of
/// declaration. The first field that cannot be resolved ends it.
pub fn parse_fields(fields: &Fields, container: &[MetaAttr], config: &Config) -> (r: Result<
    StructParserTree,
    SynthesisError,
>)
    ensures
        steps_result(
            r,
            spec_parse_fields(fields.deep_view(), container.deep_view(), config.big_endian),
        ),
{
    let mut parsers: Vec<StructParser> = Vec::new();
    let mut i: usize = 0;
    let ghost items = fields.items.deep_view();
    assert(parsers.deep_view() =~= Seq::<StructParserView>::empty());
    while i < fields.items.len()
        invariant
            i <= fields.items.len(),
            items == fields.items.deep_view(),
            spec_parse_steps(items, i as int, container.deep_view(), config.big_endian) == Ok::<
                Seq<StructParserView>,
                SynthesisError,
            >(parsers.deep_view()),
        decreases fields.items.len() - i,
    {
        let ghost scope = parsers.deep_view();
        let field = &fields.items[i];
        match resolve_field(field, i, &parsers, container, config) {
            Ok(parser) => {
                parsers.push(StructParser { name: field.name.clone(), parser });
                assert(parsers.deep_view() =~= scope.push(
                    StructParserView { name: items[i as int].name, parser: parser.deep_view() },
                ));
            },
            Err(e) => {
                proof {
                    lemma_steps_fail(
                        items,
                        i + 1,
                        items.len() as int,
                        container.deep_view(),
                        config.big_endian,
                    );
                }
                return Err(e);
            },
        }
        i = i + 1;
    }
    Ok(StructParserTree { unnamed: fields.unnamed, parsers })
}

/// Once the first `n` fields fail, so do the first `m`, for any `m` from
/// `n` on, and with the same error.
pub proof fn lemma_steps_fail(
    items: Seq<FieldView>,
    n: int,
    m: int,
    container: Seq<MetaAttrView>,
    big_endian: bool,
)
    requires
        n <= m,
        spec_parse_steps(items, n, container, big_endian).is_err(),
    ensures
        spec_parse_steps(items, m, container, big_endian) == spec_parse_steps(
            items,
            n,
            container,
            big_endian,
        ),
    decreases m - n,
{
    if n < m {
        lemma_steps_fail(items, n, m - 1, container, big_endian);
    }
}

/// The hooks of a record: the argument of its first `PreExec` annotation,
/// which runs before the first field, and of its first `PostExec`
/// annotation, which runs after the last.
pub fn get_pre_post_exec(meta_list: &[MetaAttr]) -> (r: (Option<String>, Option<String>))
    ensures
        opt_chars(r.0) == spec_find_first(meta_list.deep_view(), MetaAttrType::PreExec),
        opt_chars(r.1) == spec_find_first(meta_list.deep_view(), MetaAttrType::PostExec),
{
    let pre = find_first(meta_list, MetaAttrType::PreExec);
    let post = find_first(meta_list, MetaAttrType::PostExec);
    (pre, post)
}

/// The routine of a record: it runs the first hook, reads the fields in
/// the order of declaration, each from what the one before left, runs the
/// second hook and puts the value together.
#[derive(Debug)]
pub struct RecordRoutine {
    pub name: String,
    pub input_name: String,
    pub orig_input_name: String,
    pub pre_exec: Option<String>,
    pub post_exec: Option<String>,
    pub struct_def: StructParserTree,
    pub debug_derive: bool,
}

/// The routine of a record, as characters.
pub struct RecordRoutineView {
    pub name: Seq<char>,
    pub input_name: Seq<char>,
    pub orig_input_name: Seq<char>,
    pub pre_exec: Option<Seq<char>>,
    pub post_exec: Option<Seq<char>>,
    pub struct_def: StructParserTreeView,
    pub debug_derive: bool,
}

impl DeepView for RecordRoutine {
    type V = RecordRoutineView;

    open spec fn deep_view(&self) -> RecordRoutineView {
        RecordRoutineView {
            name: self.name@,
            input_name: self.input_name@,
            orig_input_name: self.orig_input_name@,
            pre_exec: opt_chars(self.pre_exec),
            post_exec: opt_chars(self.post_exec),
            struct_def: self.struct_def.deep_view(),
            debug_derive: self.debug_derive,
        }
    }
}

/// The routine of a record. The annotations of the type must have a typed
/// form, the declaration must be of a record, and each field must resolve.
pub open spec fn spec_impl_nom_structs(ast: DeriveInputView, config: ConfigView) -> Result<
    RecordRoutineView,
    SynthesisError,
> {
    match spec_parse_attrs(ast.nom_attrs) {
        Err(e) => Err(e),
        Ok(meta_list) => match ast.data {
            DataView::Struct(fields) => match spec_parse_fields(
                fields,
                meta_list,
                config.big_endian,
            ) {
                Err(e) => Err(e),
                Ok(struct_def) => Ok(
                    RecordRoutineView {
                        name: ast.ident,
                        input_name: config.input_name,
                        orig_input_name: "orig_"@ + config.input_name,
                        pre_exec: spec_find_first(meta_list, MetaAttrType::PreExec),
                        post_exec: spec_find_first(meta_list, MetaAttrType::PostExec),
                        struct_def,
                        debug_derive: config.debug_derive,
                    },
                ),
            },
            _ => Err(SynthesisError::UnexpectedShape),
        },
    }
}

/// Whether a result of the library is the given result over characters.
pub open spec fn record_result(
    r: Result<RecordRoutine, SynthesisError>,
    expected: Result<RecordRoutineView, SynthesisError>,
) -> bool {
    match r {
        Ok(routine) => expected == Ok::<RecordRoutineView, SynthesisError>(routine.deep_view()),
        Err(e) => expected == Err::<RecordRoutineView, SynthesisError>(e),
    }
}

/// Synthesizes the routine of a record.
pub fn impl_nom_structs(ast: &DeriveInput, config: &Config) -> (r: Result<
    RecordRoutine,
    SynthesisError,
>)
    ensures
        record_result(r, spec_impl_nom_structs(ast.deep_view(), config.deep_view())),
{
    let meta_list = match parse_nom_attribute(&ast.nom_attrs) {
        Ok(list) => list,
        Err(e) => {
            return Err(e);
        },
    };
    let fields = match &ast.data {
        Data::Struct(fields) => fields,
        _ => {
            return Err(SynthesisError::UnexpectedShape);
        },
    };
    let struct_def = match parse_fields(fields, meta_list.as_slice(), config) {
        Ok(def) => def,
        Err(e) => {
            return Err(e);
        },
    };
    let (pre_exec, post_exec) = get_pre_post_exec(meta_list.as_slice());
    Ok(
        RecordRoutine {
            name: ast.ident.clone(),
            input_name: config.input_name.clone(),
            orig_input_name: config.orig_input_name(),
            pre_exec,
            post_exec,
            struct_def,
            debug_derive: config.debug_derive,
        },
    )
}

} // verus!
