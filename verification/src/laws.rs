//! What holds of every routine: the order in which fields are read, the
//! place of the default arm, and the discriminants of a union without
//! fields.

use crate::attr::{
    spec_find_first, spec_parse_attrs, spec_parse_entry, MetaAttrType, MetaAttrView, RawEntryView,
};
use crate::config::ConfigView;
use crate::decl::{DataView, DeriveInputView, FieldView, FieldsView, VariantView};
use crate::enums::{
    spec_impl_nom_enums, spec_impl_nom_fieldless_enums, spec_is_default, spec_is_fieldless_enum,
    spec_order_arms, spec_parse_variants, spec_select, EnumRoutineView, FieldlessRoutineView,
    VariantParserTreeView,
};
use crate::error::{ParseError, SynthesisError};
use crate::number::{encode, lemma_cast, lemma_decode_encode, spec_from_name, wire_value};
use crate::parsertree::{FramingView, ParserTreeView, PrimitiveView};
use crate::run::{
    Pattern, spec_fieldless_runs, spec_find_discriminant, spec_parse_fieldless, spec_pattern, spec_pick,
    spec_step, spec_steps, spec_steps_run, FieldValueView,
};
use crate::structs::{
    spec_byte_order, spec_parse_fields, spec_parse_steps, spec_resolve_field, StructParserView,
};
use vstd::prelude::*;

verus! {

/// The steps of the first `m` fields are the first `m` of the steps of the
/// first `n` fields.
pub proof fn lemma_parse_steps_prefix(
    items: Seq<FieldView>,
    n: int,
    m: int,
    container: Seq<MetaAttrView>,
    big_endian: bool,
)
    requires
        0 <= m <= n,
        spec_parse_steps(items, n, container, big_endian).is_ok(),
    ensures
        spec_parse_steps(items, n, container, big_endian).unwrap().len() == n,
        spec_parse_steps(items, m, container, big_endian) == Ok::<
            Seq<StructParserView>,
            SynthesisError,
        >(spec_parse_steps(items, n, container, big_endian).unwrap().take(m)),
    decreases n,
{
    let all = spec_parse_steps(items, n, container, big_endian).unwrap();
    if n == 0 {
        assert(all.take(0) =~= all);
    } else {
        lemma_parse_steps_prefix(items, n - 1, if m < n {
            m
        } else {
            n - 1
        }, container, big_endian);
        let before = spec_parse_steps(items, n - 1, container, big_endian).unwrap();
        assert(all.drop_last() =~= before);
        if m < n {
            assert(all.take(m) =~= before.take(m));
        } else {
            assert(all.take(n) =~= all);
        }
    }
}

/// The steps of a record follow its declaration: there is one step for each
/// field, the step at place `k` binds the name of the field at place `k`,
/// and its decoder is that field's, resolved with the steps before it in
/// scope.
pub proof fn law_steps_follow_declaration(
    fields: FieldsView,
    container: Seq<MetaAttrView>,
    big_endian: bool,
    k: int,
)
    requires
        spec_parse_fields(fields, container, big_endian).is_ok(),
        0 <= k < fields.items.len(),
    ensures
        ({
            let tree = spec_parse_fields(fields, container, big_endian).unwrap();
            &&& tree.unnamed == fields.unnamed
            &&& tree.parsers.len() == fields.items.len()
            &&& tree.parsers[k].name == fields.items[k].name
            &&& spec_resolve_field(fields.items[k], k, tree.parsers.take(k), container, big_endian)
                == Ok::<ParserTreeView, SynthesisError>(tree.parsers[k].parser)
        }),
{
    let n = fields.items.len() as int;
    let all = spec_parse_steps(fields.items, n, container, big_endian).unwrap();
    lemma_parse_steps_prefix(fields.items, n, k + 1, container, big_endian);
    lemma_parse_steps_prefix(fields.items, n, k, container, big_endian);
    let upto = spec_parse_steps(fields.items, k + 1, container, big_endian).unwrap();
    assert(upto == all.take(k + 1));
    assert(upto[k] == all[k]);
}

/// Whether a field is a bare integer: its type names an integer type, and
/// it has no annotation.
pub open spec fn spec_is_bare_integer(field: FieldView) -> bool {
    field.attrs.len() == 0 && spec_from_name(field.ty).is_some()
}

/// The step of a bare integer: the decoder of its type, in the byte order
/// of the enclosing type, with no modifier.
pub open spec fn spec_bare_step(
    field: FieldView,
    container: Seq<MetaAttrView>,
    big_endian: bool,
) -> StructParserView {
    StructParserView {
        name: field.name,
        parser: ParserTreeView {
            base: PrimitiveView::Int {
                kind: spec_from_name(field.ty).unwrap(),
                order: spec_byte_order(Seq::empty(), container, big_endian),
            },
            verify: None,
            framing: FramingView::Single,
            cond: None,
        },
    }
}

/// A record of bare integers always has a routine, and its steps are the
/// decoders of the fields' types, in the order of declaration.
pub proof fn law_bare_integers_resolve(
    items: Seq<FieldView>,
    n: int,
    container: Seq<MetaAttrView>,
    big_endian: bool,
)
    requires
        0 <= n <= items.len(),
        forall|j: int| 0 <= j < n ==> spec_is_bare_integer(#[trigger] items[j]),
    ensures
        spec_parse_steps(items, n, container, big_endian) == Ok::<
            Seq<StructParserView>,
            SynthesisError,
        >(Seq::new(n as nat, |j: int| spec_bare_step(items[j], container, big_endian))),
    decreases n,
{
    let expected = Seq::new(n as nat, |j: int| spec_bare_step(items[j], container, big_endian));
    if n == 0 {
        assert(expected =~= Seq::<StructParserView>::empty());
    } else {
        law_bare_integers_resolve(items, n - 1, container, big_endian);
        let scope = Seq::new(
            (n - 1) as nat,
            |j: int| spec_bare_step(items[j], container, big_endian),
        );
        let field = items[n - 1];
        assert(spec_is_bare_integer(field));
        assert(field.attrs =~= Seq::<RawEntryView>::empty());
        let attrs = Seq::new(0, |i: int| spec_parse_entry(field.attrs[i]).unwrap());
        assert(attrs =~= Seq::<MetaAttrView>::empty());
        assert(spec_parse_attrs(field.attrs) == Ok::<Seq<MetaAttrView>, SynthesisError>(
            Seq::empty(),
        ));
        assert(expected =~= scope.push(spec_bare_step(field, container, big_endian)));
    }
}

/// Where the first `n` steps succeed, so do the first `m`, for any `m` up
/// to `n`, and they give the first `m` of the values.
pub proof fn lemma_steps_prefix(steps: Seq<StructParserView>, input: Seq<u8>, n: int, m: int)
    requires
        0 <= m <= n,
        spec_steps(steps, n, input).is_ok(),
    ensures
        spec_steps(steps, n, input).unwrap().0.len() == n,
        spec_steps(steps, m, input).is_ok(),
        spec_steps(steps, m, input).unwrap().0 == spec_steps(steps, n, input).unwrap().0.take(m),
    decreases n,
{
    let all = spec_steps(steps, n, input).unwrap().0;
    if n == 0 {
        assert(all.take(0) =~= all);
    } else {
        lemma_steps_prefix(steps, input, n - 1, if m < n {
            m
        } else {
            n - 1
        });
        let before = spec_steps(steps, n - 1, input).unwrap().0;
        assert(all.drop_last() =~= before);
        if m < n {
            assert(all.take(m) =~= before.take(m));
        } else {
            assert(all.take(n) =~= all);
        }
    }
}

/// Fields are read in the order of their steps: where a record is read, the
/// step at place `k` ran on the input that the steps before it left, with
/// the values of the fields before it at hand, and gave the value of the
/// field at place `k`.
pub proof fn law_fields_read_in_order(steps: Seq<StructParserView>, input: Seq<u8>, k: int)
    requires
        spec_steps_run(steps, steps.len() as int),
        spec_steps(steps, steps.len() as int, input).is_ok(),
        0 <= k < steps.len(),
    ensures
        ({
            let values = spec_steps(steps, steps.len() as int, input).unwrap().0;
            let before = spec_steps(steps, k, input);
            let upto = spec_steps(steps, k + 1, input);
            &&& values.len() == steps.len()
            &&& before.is_ok()
            &&& upto.is_ok()
            &&& before.unwrap().0 == values.take(k)
            &&& spec_step(steps[k].parser, values.take(k), before.unwrap().1) == Ok::<
                (FieldValueView, Seq<u8>),
                ParseError,
            >((values[k], upto.unwrap().1))
        }),
{
    let n = steps.len() as int;
    lemma_steps_prefix(steps, input, n, k);
    lemma_steps_prefix(steps, input, n, k + 1);
    let values = spec_steps(steps, n, input).unwrap().0;
    let upto = spec_steps(steps, k + 1, input).unwrap();
    assert(upto.0 == values.take(k + 1));
    assert(upto.0[k] == values[k]);
}

/// Whether a step reads exactly one integer, unconditionally and
/// unverified.
pub open spec fn spec_is_scalar_step(p: ParserTreeView) -> bool {
    p.base is Int && p.verify.is_none() && p.framing is Single && p.cond.is_none()
}

/// The number of bytes that a scalar step reads.
pub open spec fn spec_step_width(p: ParserTreeView) -> int {
    match p.base {
        PrimitiveView::Int { kind, order } => kind.spec_width() as int,
        _ => 0,
    }
}

/// The value that a scalar step reads from the front of `bytes`.
pub open spec fn spec_step_value(p: ParserTreeView, bytes: Seq<u8>) -> int {
    match p.base {
        PrimitiveView::Int { kind, order } => kind.interpret(
            wire_value(order, bytes.take(kind.spec_width() as int)),
        ),
        _ => 0,
    }
}

/// The number of bytes that the first `k` steps of a record of scalars
/// read.
pub open spec fn spec_offset(steps: Seq<StructParserView>, k: int) -> int
    decreases k,
{
    if k <= 0 {
        0
    } else {
        spec_offset(steps, k - 1) + spec_step_width(steps[k - 1].parser)
    }
}

/// The layout of a record of scalars: the field at place `j` is read from
/// the bytes that start where the widths of the fields before it end, and
/// the input that is left starts where the widths of all the fields end. So
/// which bytes a field is read from depends on its place in the
/// declaration.
pub proof fn law_scalar_layout(steps: Seq<StructParserView>, input: Seq<u8>, k: int)
    requires
        0 <= k <= steps.len(),
        forall|j: int| 0 <= j < k ==> spec_is_scalar_step((#[trigger] steps[j]).parser),
        spec_offset(steps, k) <= input.len(),
    ensures
        0 <= spec_offset(steps, k),
        spec_steps(steps, k, input).is_ok(),
        spec_steps(steps, k, input).unwrap().1 == input.skip(spec_offset(steps, k)),
        spec_steps(steps, k, input).unwrap().0.len() == k,
        forall|j: int|
            0 <= j < k ==> #[trigger] spec_steps(steps, k, input).unwrap().0[j]
                == FieldValueView::Single(
                spec_step_value(steps[j].parser, input.skip(spec_offset(steps, j))),
            ),
    decreases k,
{
    if k == 0 {
        assert(input.skip(0) =~= input);
    } else {
        let p = steps[k - 1].parser;
        assert(spec_is_scalar_step(steps[k - 1].parser));
        assert(spec_step_width(p) >= 1);
        law_scalar_layout(steps, input, k - 1);
        let (env, rest) = spec_steps(steps, k - 1, input).unwrap();
        let off = spec_offset(steps, k - 1);
        let w = spec_step_width(p);
        assert(rest.take(w) =~= input.skip(off).take(w));
        assert(rest.skip(w) =~= input.skip(off + w));
        let now = spec_steps(steps, k, input).unwrap().0;
        assert forall|j: int| 0 <= j < k implies #[trigger] now[j] == FieldValueView::Single(
            spec_step_value(steps[j].parser, input.skip(spec_offset(steps, j))),
        ) by {
            if j < k - 1 {
                assert(now[j] == env[j]);
            }
        }
    }
}

/// Whether each variant carries its place in the declaration.
pub open spec fn spec_placed(defs: Seq<VariantParserTreeView>) -> bool {
    forall|k: int| 0 <= k < defs.len() ==> (#[trigger] defs[k]).index == k
}

/// The variants that are read from a declaration carry their places: there
/// is one for each variant of the declaration, in its order. (A declaration
/// has no more variants than a machine can count.)
pub proof fn lemma_parsed_variants_placed(
    variants: Seq<VariantView>,
    n: int,
    container: Seq<MetaAttrView>,
    big_endian: bool,
)
    requires
        0 <= n <= variants.len() <= usize::MAX,
        spec_parse_variants(variants, n, container, big_endian).is_ok(),
    ensures
        spec_parse_variants(variants, n, container, big_endian).unwrap().len() == n,
        spec_placed(spec_parse_variants(variants, n, container, big_endian).unwrap()),
        forall|k: int|
            0 <= k < n ==> (#[trigger] spec_parse_variants(
                variants,
                n,
                container,
                big_endian,
            ).unwrap()[k]).ident == variants[k].ident,
    decreases n,
{
    if n > 0 {
        lemma_parsed_variants_placed(variants, n - 1, container, big_endian);
    }
}

/// What a selection holds: variants of the one sort, each at its place in
/// the declaration, in the order of their places, and every variant of
/// that sort among the first `n`.
pub proof fn lemma_select_places(defs: Seq<VariantParserTreeView>, n: int, default: bool)
    requires
        0 <= n <= defs.len(),
        spec_placed(defs),
    ensures
        ({
            let s = spec_select(defs, n, default);
            &&& s.len() + spec_select(defs, n, !default).len() == n
            &&& forall|p: int|
                0 <= p < s.len() ==> {
                    &&& spec_is_default(#[trigger] s[p]) == default
                    &&& 0 <= s[p].index < n
                    &&& s[p] == defs[s[p].index as int]
                }
            &&& forall|p: int, q: int|
                0 <= p < q < s.len() ==> (#[trigger] s[p]).index < (#[trigger] s[q]).index
            &&& forall|k: int|
                0 <= k < n && spec_is_default(#[trigger] defs[k]) == default ==> s.contains(defs[k])
        }),
    decreases n,
{
    if n > 0 {
        lemma_select_places(defs, n - 1, default);
        let before = spec_select(defs, n - 1, default);
        let s = spec_select(defs, n, default);
        let last = defs[n - 1];
        assert(last.index == n - 1);
        if spec_is_default(last) == default {
            assert(s[before.len() as int] == last);
            assert forall|k: int|
                0 <= k < n && spec_is_default(#[trigger] defs[k]) == default implies s.contains(
                defs[k],
            ) by {
                if k < n - 1 {
                    let p = choose|p: int| 0 <= p < before.len() && before[p] == defs[k];
                    assert(s[p] == defs[k]);
                }
            }
        }
    }
}

/// The arms are the variants: putting the variants in their order loses
/// none and adds none.
pub proof fn law_arms_are_the_variants(defs: Seq<VariantParserTreeView>, k: int)
    requires
        spec_placed(defs),
        0 <= k < defs.len(),
    ensures
        spec_order_arms(defs).len() == defs.len(),
        spec_order_arms(defs).contains(defs[k]),
{
    let n = defs.len() as int;
    let plain = spec_select(defs, n, false);
    let defaults = spec_select(defs, n, true);
    lemma_select_places(defs, n, false);
    lemma_select_places(defs, n, true);
    if spec_is_default(defs[k]) {
        let p = choose|p: int| 0 <= p < defaults.len() && defaults[p] == defs[k];
        assert((plain + defaults)[plain.len() + p] == defs[k]);
    } else {
        let p = choose|p: int| 0 <= p < plain.len() && plain[p] == defs[k];
        assert((plain + defaults)[p] == defs[k]);
    }
}

/// The default comes last: of two arms, the later one is a default where
/// the earlier one is, whatever the places of the defaults in the
/// declaration; and two arms of one sort stand in the order of their
/// declaration.
pub proof fn law_defaults_come_last(defs: Seq<VariantParserTreeView>, p: int, q: int)
    requires
        spec_placed(defs),
        0 <= p < q < spec_order_arms(defs).len(),
    ensures
        spec_is_default(spec_order_arms(defs)[p]) ==> spec_is_default(spec_order_arms(defs)[q]),
        spec_is_default(spec_order_arms(defs)[p]) == spec_is_default(spec_order_arms(defs)[q])
            ==> spec_order_arms(defs)[p].index < spec_order_arms(defs)[q].index,
{
    let n = defs.len() as int;
    let plain = spec_select(defs, n, false);
    let defaults = spec_select(defs, n, true);
    lemma_select_places(defs, n, false);
    lemma_select_places(defs, n, true);
    let arms = plain + defaults;
    if p < plain.len() {
        assert(arms[p] == plain[p]);
    } else {
        assert(arms[p] == defaults[p - plain.len()]);
    }
    if q < plain.len() {
        assert(arms[q] == plain[q]);
    } else {
        assert(arms[q] == defaults[q - plain.len()]);
    }
}

/// In every routine that is synthesized for a union with a selector, there
/// is one arm for each variant of the declaration, and no arm that is no
/// default comes after a default.
pub proof fn law_synthesized_default_last(
    ast: DeriveInputView,
    config: ConfigView,
    p: int,
    q: int,
)
    requires
        spec_impl_nom_enums(ast, config) matches Ok(EnumRoutineView::Selector(_)),
        ast.data matches DataView::Enum(variants) && variants.len() <= usize::MAX,
        0 <= p < q < ast.data->Enum_0.len(),
    ensures
        ({
            let arms = spec_impl_nom_enums(ast, config).unwrap()->Selector_0.arms;
            &&& arms.len() == ast.data->Enum_0.len()
            &&& spec_is_default(arms[p]) ==> spec_is_default(arms[q])
        }),
{
    let meta_list = spec_parse_attrs(ast.nom_attrs).unwrap();
    let variants = ast.data->Enum_0;
    let n = variants.len() as int;
    let defs = spec_parse_variants(variants, n, meta_list, config.big_endian).unwrap();
    lemma_parsed_variants_placed(variants, n, meta_list, config.big_endian);
    law_arms_are_the_variants(defs, 0);
    law_defaults_come_last(defs, p, q);
}

/// Picking among the arms `a` followed by the arms `b`: the pick among
/// `a`, and where `a` has none, the pick among `b`.
pub proof fn lemma_pick_concat(
    a: Seq<VariantParserTreeView>,
    b: Seq<VariantParserTreeView>,
    selector: int,
    from: int,
)
    requires
        0 <= from <= a.len(),
    ensures
        spec_pick(a + b, selector, from) == match spec_pick(a, selector, from) {
            Some(k) => Some(k),
            None => match spec_pick(b, selector, 0) {
                Some(k) => Some(a.len() + k),
                None => None,
            },
        },
    decreases a.len() - from,
{
    if from < a.len() {
        assert((a + b)[from] == a[from]);
        lemma_pick_concat(a, b, selector, from + 1);
    } else {
        lemma_pick_shift(a, b, selector, 0);
    }
}

/// Picking among the arms `b` after the arms `a`, from the place `from` of
/// `b` on, is picking among `b`, moved by the length of `a`.
pub proof fn lemma_pick_shift(
    a: Seq<VariantParserTreeView>,
    b: Seq<VariantParserTreeView>,
    selector: int,
    from: int,
)
    requires
        0 <= from <= b.len(),
    ensures
        spec_pick(a + b, selector, a.len() + from) == match spec_pick(b, selector, from) {
            Some(k) => Some(a.len() + k),
            None => None,
        },
    decreases b.len() - from,
{
    if from < b.len() {
        assert((a + b)[a.len() + from] == b[from]);
        lemma_pick_shift(a, b, selector, from + 1);
    }
}

/// A pick is the place of the first arm whose pattern matches.
pub proof fn lemma_pick_first(arms: Seq<VariantParserTreeView>, selector: int, from: int)
    requires
        0 <= from <= arms.len(),
    ensures
        match spec_pick(arms, selector, from) {
            Some(k) => from <= k < arms.len() && spec_pattern(arms[k].selector).spec_matches(
                selector,
            ) && forall|j: int|
                from <= j < k ==> !spec_pattern((#[trigger] arms[j]).selector).spec_matches(
                    selector,
                ),
            None => forall|j: int|
                from <= j < arms.len() ==> !spec_pattern(
                    (#[trigger] arms[j]).selector,
                ).spec_matches(selector),
        },
    decreases arms.len() - from,
{
    if from < arms.len() {
        lemma_pick_first(arms, selector, from + 1);
    }
}

/// Whether the variant at place `k` is of the given sort (a default, or
/// not) and its pattern matches the selector.
pub open spec fn spec_answers(
    defs: Seq<VariantParserTreeView>,
    k: int,
    default: bool,
    selector: int,
) -> bool {
    spec_is_default(defs[k]) == default && spec_pattern(defs[k].selector).spec_matches(selector)
}

/// Picking among the variants of one sort, out of the first `n`: the pick
/// is the first of the first `n` variants, in the order of declaration,
/// that is of that sort and matches; there is none where no such variant
/// is.
pub proof fn lemma_pick_select(
    defs: Seq<VariantParserTreeView>,
    n: int,
    default: bool,
    selector: int,
)
    requires
        0 <= n <= defs.len(),
    ensures
        match spec_pick(spec_select(defs, n, default), selector, 0) {
            Some(p) => exists|k: int|
                {
                    &&& 0 <= k < n
                    &&& #[trigger] spec_answers(defs, k, default, selector)
                    &&& spec_select(defs, n, default)[p] == defs[k]
                    &&& forall|j: int| 0 <= j < k ==> !#[trigger] spec_answers(defs, j, default, selector)
                },
            None => forall|j: int| 0 <= j < n ==> !#[trigger] spec_answers(defs, j, default, selector),
        },
    decreases n,
{
    if n > 0 {
        lemma_pick_select(defs, n - 1, default, selector);
        let before = spec_select(defs, n - 1, default);
        let now = spec_select(defs, n, default);
        let last = defs[n - 1];
        if spec_is_default(last) == default {
            assert(now =~= before + seq![last]);
            lemma_pick_concat(before, seq![last], selector, 0);
            match spec_pick(before, selector, 0) {
                Some(p) => {
                    lemma_pick_first(before, selector, 0);
                    assert(now[p] == before[p]);
                    let k = choose|k: int|
                        {
                            &&& 0 <= k < n - 1
                            &&& #[trigger] spec_answers(defs, k, default, selector)
                            &&& before[p] == defs[k]
                            &&& forall|j: int|
                                0 <= j < k ==> !#[trigger] spec_answers(defs, j, default, selector)
                        };
                    assert(spec_answers(defs, k, default, selector));
                },
                None => {
                    if spec_pattern(last.selector).spec_matches(selector) {
                        assert(spec_pick(seq![last], selector, 0) == Some(0int));
                        assert(now[before.len() as int] == last);
                        assert(spec_answers(defs, n - 1, default, selector));
                    } else {
                        assert(spec_pick(seq![last], selector, 0).is_none()) by {
                            reveal_with_fuel(spec_pick, 2);
                        }
                    }
                },
            }
        } else {
            assert(now == before);
            match spec_pick(before, selector, 0) {
                Some(p) => {
                    let k = choose|k: int|
                        {
                            &&& 0 <= k < n - 1
                            &&& #[trigger] spec_answers(defs, k, default, selector)
                            &&& before[p] == defs[k]
                            &&& forall|j: int|
                                0 <= j < k ==> !#[trigger] spec_answers(defs, j, default, selector)
                        };
                    assert(spec_answers(defs, k, default, selector));
                },
                None => {},
            }
        }
    }
}

/// A pattern is tried before the default: in a union whose patterns can
/// all be evaluated, where a variant that is no default matches the
/// selector, the arm that is picked is the first such variant in the order
/// of declaration, wherever the declaration puts a default.
pub proof fn law_pattern_before_default(
    defs: Seq<VariantParserTreeView>,
    selector: int,
    k: int,
)
    requires
        forall|j: int|
            0 <= j < defs.len() ==> spec_pattern((#[trigger] defs[j]).selector) != Pattern::Opaque,
        0 <= k < defs.len(),
        spec_answers(defs, k, false, selector),
        forall|j: int| 0 <= j < k ==> !#[trigger] spec_answers(defs, j, false, selector),
    ensures
        spec_pick(spec_order_arms(defs), selector, 0).is_some(),
        spec_order_arms(defs)[spec_pick(spec_order_arms(defs), selector, 0).unwrap()] == defs[k],
{
    let n = defs.len() as int;
    let plain = spec_select(defs, n, false);
    let defaults = spec_select(defs, n, true);
    lemma_pick_select(defs, n, false, selector);
    lemma_pick_concat(plain, defaults, selector, 0);
    lemma_pick_first(plain, selector, 0);
    let p = spec_pick(plain, selector, 0).unwrap();
    assert((plain + defaults)[p] == plain[p]);
}

/// The default arm is picked where nothing else matches: in a union whose
/// patterns can all be evaluated, where no variant that is no default
/// matches the selector, the arm that is picked is the first default in the
/// order of declaration.
pub proof fn law_default_catches_the_rest(
    defs: Seq<VariantParserTreeView>,
    selector: int,
    k: int,
)
    requires
        forall|j: int|
            0 <= j < defs.len() ==> spec_pattern((#[trigger] defs[j]).selector) != Pattern::Opaque,
        0 <= k < defs.len(),
        spec_is_default(defs[k]),
        forall|j: int| 0 <= j < k ==> !spec_is_default(#[trigger] defs[j]),
        forall|j: int| 0 <= j < defs.len() ==> !#[trigger] spec_answers(defs, j, false, selector),
    ensures
        spec_pick(spec_order_arms(defs), selector, 0).is_some(),
        spec_order_arms(defs)[spec_pick(spec_order_arms(defs), selector, 0).unwrap()] == defs[k],
{
    let n = defs.len() as int;
    let plain = spec_select(defs, n, false);
    let defaults = spec_select(defs, n, true);
    lemma_pick_select(defs, n, false, selector);
    lemma_pick_select(defs, n, true, selector);
    lemma_pick_concat(plain, defaults, selector, 0);
    assert(spec_answers(defs, k, true, selector));
    assert forall|j: int| 0 <= j < k implies !#[trigger] spec_answers(defs, j, true, selector) by {
        assert(!spec_is_default(defs[j]));
    }
    lemma_pick_first(defaults, selector, 0);
    let p = spec_pick(defaults, selector, 0).unwrap();
    assert((plain + defaults)[plain.len() + p] == defaults[p]);
}

/// In a union whose patterns can all be evaluated, a selector that no
/// pattern matches picks no arm.
pub proof fn law_no_match_no_arm(defs: Seq<VariantParserTreeView>, selector: int)
    requires
        forall|j: int|
            0 <= j < defs.len() ==> spec_pattern((#[trigger] defs[j]).selector) != Pattern::Opaque,
        forall|j: int|
            0 <= j < defs.len() ==> !spec_pattern((#[trigger] defs[j]).selector).spec_matches(
                selector,
            ),
    ensures
        spec_pick(spec_order_arms(defs), selector, 0).is_none(),
{
    let n = defs.len() as int;
    let plain = spec_select(defs, n, false);
    let defaults = spec_select(defs, n, true);
    lemma_pick_select(defs, n, false, selector);
    lemma_pick_select(defs, n, true, selector);
    lemma_pick_concat(plain, defaults, selector, 0);
    if spec_pick(plain, selector, 0).is_some() {
        let k = choose|k: int| 0 <= k < n && #[trigger] spec_answers(defs, k, false, selector);
        assert(!spec_pattern(defs[k].selector).spec_matches(selector));
    }
    if spec_pick(defaults, selector, 0).is_some() {
        let k = choose|k: int| 0 <= k < n && #[trigger] spec_answers(defs, k, true, selector);
        assert(!spec_pattern(defs[k].selector).spec_matches(selector));
    }
}

/// The discriminants of a synthesized routine are values of its
/// representation: each one that is known is a cast to it.
pub proof fn law_discriminants_fit(
    ast: DeriveInputView,
    repr: Seq<char>,
    meta_list: Seq<MetaAttrView>,
    config: ConfigView,
    k: int,
)
    requires
        spec_impl_nom_fieldless_enums(ast, repr, meta_list, config).is_ok(),
        0 <= k < spec_impl_nom_fieldless_enums(ast, repr, meta_list, config).unwrap().variants.len(),
    ensures
        ({
            let routine = spec_impl_nom_fieldless_enums(ast, repr, meta_list, config).unwrap();
            routine.variants[k].discriminant matches Some(d) ==> routine.repr.holds(d)
        }),
{
    let routine = spec_impl_nom_fieldless_enums(ast, repr, meta_list, config).unwrap();
    let variants = ast.data->Enum_0;
    match crate::enums::spec_raw_discriminant(variants, k) {
        Some(raw) => lemma_cast(routine.repr, raw),
        None => {},
    }
}

/// Where the discriminants of the variants before `upto` all differ from
/// `value`, the search for `value` from `from` on finds nothing before
/// `upto`.
pub proof fn lemma_find_discriminant_skips(
    routine: FieldlessRoutineView,
    value: int,
    from: int,
    upto: int,
)
    requires
        0 <= from <= upto <= routine.variants.len(),
        forall|j: int|
            from <= j < upto ==> (#[trigger] routine.variants[j]).discriminant != Some(value),
    ensures
        spec_find_discriminant(routine.variants, value, from) == spec_find_discriminant(
            routine.variants,
            value,
            upto,
        ),
    decreases upto - from,
{
    if from < upto {
        assert(routine.variants[from].discriminant != Some(value));
        lemma_find_discriminant_skips(routine, value, from + 1, upto);
    }
}

/// A union without fields is read back from its discriminants: where the
/// discriminants of the variants differ from each other, the bytes that
/// stand for the discriminant of the variant at place `k` are read as that
/// variant, and what follows them is left.
pub proof fn law_discriminant_selects_variant(
    routine: FieldlessRoutineView,
    k: int,
    tail: Seq<u8>,
)
    requires
        spec_fieldless_runs(routine),
        0 <= k < routine.variants.len(),
        routine.repr.holds(routine.variants[k].discriminant.unwrap()),
        forall|i: int, j: int|
            0 <= i < j < routine.variants.len() ==> (#[trigger] routine.variants[i]).discriminant
                != (#[trigger] routine.variants[j]).discriminant,
    ensures
        spec_parse_fieldless(
            routine,
            encode(routine.repr, routine.order, routine.variants[k].discriminant.unwrap()) + tail,
        ) == Some(Ok::<(int, Seq<u8>), ParseError>((k, tail))),
{
    let d = routine.variants[k].discriminant.unwrap();
    lemma_decode_encode(routine.repr, routine.order, d, tail);
    assert(routine.variants[k].discriminant == Some(d));
    assert forall|j: int| 0 <= j < k implies (#[trigger] routine.variants[j]).discriminant != Some(
        d,
    ) by {
        assert(routine.variants[j].discriminant != routine.variants[k].discriminant);
    }
    lemma_find_discriminant_skips(routine, d, 0, k);
}

/// Any other value is a `Switch` failure: where the input is long enough
/// for one integer of the representation, and that integer is no variant's
/// discriminant, the routine fails with `Switch`.
pub proof fn law_other_value_is_switch(routine: FieldlessRoutineView, input: Seq<u8>)
    requires
        spec_fieldless_runs(routine),
        input.len() >= routine.repr.spec_width(),
        forall|j: int|
            0 <= j < routine.variants.len() ==> (#[trigger] routine.variants[j]).discriminant
                != Some(routine.repr.spec_decode(routine.order, input).unwrap().0),
    ensures
        spec_parse_fieldless(routine, input) == Some(
            Err::<(int, Seq<u8>), ParseError>(ParseError::Switch),
        ),
{
    let value = routine.repr.spec_decode(routine.order, input).unwrap().0;
    lemma_find_discriminant_skips(routine, value, 0, routine.variants.len() as int);
}

/// A selector is required: a tagged union with a variant that has a field,
/// and whose annotations name no selector, has no routine, and the failure
/// says that the selector is missing.
pub proof fn law_selector_required(ast: DeriveInputView, config: ConfigView)
    requires
        spec_parse_attrs(ast.nom_attrs).is_ok(),
        spec_find_first(spec_parse_attrs(ast.nom_attrs).unwrap(), MetaAttrType::Selector).is_none(),
        ast.data is Enum,
        !spec_is_fieldless_enum(ast),
    ensures
        spec_impl_nom_enums(ast, config) == Err::<EnumRoutineView, SynthesisError>(
            SynthesisError::MissingSelector,
        ),
{
}

} // verus!
