//! Annotations: the raw entries that a host reads off a declaration, and the
//! typed entries that synthesis works on.

use crate::error::SynthesisError;
use crate::text::{copy_opt, opt_chars, same_text};
use vstd::prelude::*;

verus! {

/// The kinds of annotation that are recognized.
#[derive(Clone, Copy, Debug, PartialEq, Eq, Structural)]
pub enum MetaAttrType {
    /// On a union: the type of the selector. On a variant: its pattern.
    Selector,
    /// Integers are laid out most significant byte first.
    BigEndian,
    /// Integers are laid out least significant byte first.
    LittleEndian,
    /// A predicate that the decoded value must meet.
    Verify,
    /// An expression that runs before the first field.
    PreExec,
    /// An expression that runs after the last field.
    PostExec,
    /// The field is a sequence, and the argument gives its length.
    Count,
    /// The field is a sequence, and a decoded prefix gives its length.
    LengthCount,
    /// The field is present only where the argument holds.
    Cond,
    /// The decoder to use for the field, in place of the one for its type.
    Parse,
}

impl MetaAttrType {
    /// Whether an annotation of this kind carries an argument.
    pub open spec fn spec_takes_argument(self) -> bool {
        match self {
            MetaAttrType::BigEndian | MetaAttrType::LittleEndian => false,
            _ => true,
        }
    }

    /// Whether an annotation of this kind carries an argument.
    #[verifier::when_used_as_spec(spec_takes_argument)]
    pub fn takes_argument(self) -> (r: bool)
        ensures
            r == self.spec_takes_argument(),
    {
        match self {
            MetaAttrType::BigEndian | MetaAttrType::LittleEndian => false,
            _ => true,
        }
    }
}

/// The kind that a keyword names, if it names one.
pub open spec fn spec_kind_of(keyword: Seq<char>) -> Option<MetaAttrType> {
    if keyword == "Selector"@ {
        Some(MetaAttrType::Selector)
    } else if keyword == "BigEndian"@ {
        Some(MetaAttrType::BigEndian)
    } else if keyword == "LittleEndian"@ {
        Some(MetaAttrType::LittleEndian)
    } else if keyword == "Verify"@ {
        Some(MetaAttrType::Verify)
    } else if keyword == "PreExec"@ {
        Some(MetaAttrType::PreExec)
    } else if keyword == "PostExec"@ {
        Some(MetaAttrType::PostExec)
    } else if keyword == "Count"@ {
        Some(MetaAttrType::Count)
    } else if keyword == "LengthCount"@ {
        Some(MetaAttrType::LengthCount)
    } else if keyword == "Cond"@ {
        Some(MetaAttrType::Cond)
    } else if keyword == "Parse"@ {
        Some(MetaAttrType::Parse)
    } else {
        None
    }
}

/// The kind that a keyword names, if it names one.
pub fn kind_of(keyword: &str) -> (r: Option<MetaAttrType>)
    ensures
        r == spec_kind_of(keyword@),
{
    if same_text(keyword, "Selector") {
        Some(MetaAttrType::Selector)
    } else if same_text(keyword, "BigEndian") {
        Some(MetaAttrType::BigEndian)
    } else if same_text(keyword, "LittleEndian") {
        Some(MetaAttrType::LittleEndian)
    } else if same_text(keyword, "Verify") {
        Some(MetaAttrType::Verify)
    } else if same_text(keyword, "PreExec") {
        Some(MetaAttrType::PreExec)
    } else if same_text(keyword, "PostExec") {
        Some(MetaAttrType::PostExec)
    } else if same_text(keyword, "Count") {
        Some(MetaAttrType::Count)
    } else if same_text(keyword, "LengthCount") {
        Some(MetaAttrType::LengthCount)
    } else if same_text(keyword, "Cond") {
        Some(MetaAttrType::Cond)
    } else if same_text(keyword, "Parse") {
        Some(MetaAttrType::Parse)
    } else {
        None
    }
}

/// One annotation as the host hands it over: a keyword, and an argument
/// where one was written.
#[derive(Debug)]
pub struct RawEntry {
    pub keyword: String,
    pub argument: Option<String>,
}

/// A raw entry, as characters.
pub struct RawEntryView {
    pub keyword: Seq<char>,
    pub argument: Option<Seq<char>>,
}

impl DeepView for RawEntry {
    type V = RawEntryView;

    open spec fn deep_view(&self) -> RawEntryView {
        RawEntryView { keyword: self.keyword@, argument: opt_chars(self.argument) }
    }
}

/// One annotation: its kind, and its argument where the kind carries one.
#[derive(Debug)]
pub struct MetaAttr {
    pub attr_type: MetaAttrType,
    pub arg0: Option<String>,
}

/// An annotation, as characters.
pub struct MetaAttrView {
    pub attr_type: MetaAttrType,
    pub arg0: Option<Seq<char>>,
}

impl DeepView for MetaAttr {
    type V = MetaAttrView;

    open spec fn deep_view(&self) -> MetaAttrView {
        MetaAttrView { attr_type: self.attr_type, arg0: opt_chars(self.arg0) }
    }
}

impl MetaAttrView {
    /// An annotation is well formed when it has an argument exactly if its
    /// kind carries one.
    pub open spec fn wf(self) -> bool {
        self.attr_type.spec_takes_argument() == self.arg0.is_some()
    }
}

/// Whether every annotation of a list is well formed.
pub open spec fn all_wf(list: Seq<MetaAttrView>) -> bool {
    forall|i: int| 0 <= i < list.len() ==> (#[trigger] list[i]).wf()
}

impl MetaAttr {
    /// Whether the annotation is of the given kind.
    pub fn is_type(&self, attr_type: MetaAttrType) -> (r: bool)
        ensures
            r == (self.attr_type == attr_type),
    {
        self.attr_type == attr_type
    }

    /// The argument, where there is one.
    pub fn arg(&self) -> (r: Option<&String>)
        ensures
            match r {
                Some(s) => self.arg0 == Some(*s),
                None => self.arg0.is_none(),
            },
    {
        self.arg0.as_ref()
    }
}

/// The typed form of a raw entry: its keyword must name a kind, and it must
/// have an argument exactly if that kind carries one.
pub open spec fn spec_parse_entry(raw: RawEntryView) -> Option<MetaAttrView> {
    match spec_kind_of(raw.keyword) {
        Some(kind) => if kind.spec_takes_argument() == raw.argument.is_some() {
            Some(MetaAttrView { attr_type: kind, arg0: raw.argument })
        } else {
            None
        },
        None => None,
    }
}

/// Turns one raw entry into its typed form.
pub fn parse_entry(raw: &RawEntry) -> (r: Option<MetaAttr>)
    ensures
        match r {
            Some(attr) => spec_parse_entry(raw.deep_view()) == Some(attr.deep_view()),
            None => spec_parse_entry(raw.deep_view()).is_none(),
        },
{
    match kind_of(raw.keyword.as_str()) {
        Some(kind) => {
            if kind.takes_argument() == raw.argument.is_some() {
                Some(MetaAttr { attr_type: kind, arg0: copy_opt(&raw.argument) })
            } else {
                None
            }
        },
        None => None,
    }
}

/// The place of the first entry, from `from` on, that has no typed form.
pub open spec fn spec_bad_entry(raw: Seq<RawEntryView>, from: int) -> Option<int>
    decreases raw.len() - from,
{
    if from < 0 || from >= raw.len() {
        None
    } else if spec_parse_entry(raw[from]).is_none() {
        Some(from)
    } else {
        spec_bad_entry(raw, from + 1)
    }
}

/// The typed form of a list of raw entries: each entry's typed form, in
/// order, or the place of the first entry that has none.
pub open spec fn spec_parse_attrs(raw: Seq<RawEntryView>) -> Result<
    Seq<MetaAttrView>,
    SynthesisError,
> {
    match spec_bad_entry(raw, 0) {
        Some(index) => Err(SynthesisError::AttributeSyntax { index: index as usize }),
        None => Ok(Seq::new(raw.len(), |i: int| spec_parse_entry(raw[i]).unwrap())),
    }
}

/// Whether a result of the library is the given result over characters.
pub open spec fn attrs_result(
    r: Result<Vec<MetaAttr>, SynthesisError>,
    expected: Result<Seq<MetaAttrView>, SynthesisError>,
) -> bool {
    match r {
        Ok(list) => expected == Ok::<Seq<MetaAttrView>, SynthesisError>(list.deep_view()),
        Err(e) => expected == Err::<Seq<MetaAttrView>, SynthesisError>(e),
    }
}

/// Where a list of raw entries has a typed form, every annotation of it is
/// well formed, and there are as many as there were entries.
pub proof fn lemma_parsed_wf(raw: Seq<RawEntryView>)
    ensures
        spec_parse_attrs(raw) matches Ok(list) ==> all_wf(list) && list.len() == raw.len(),
{
    if let Ok(list) = spec_parse_attrs(raw) {
        assert forall|i: int| 0 <= i < list.len() implies (#[trigger] list[i]).wf() by {
            lemma_bad_entry_none(raw, 0, i);
        }
    }
}

/// Where no entry from `from` on lacks a typed form, the entry at `at` has
/// one.
pub proof fn lemma_bad_entry_none(raw: Seq<RawEntryView>, from: int, at: int)
    requires
        0 <= from <= at < raw.len(),
        spec_bad_entry(raw, from).is_none(),
    ensures
        spec_parse_entry(raw[at]).is_some(),
    decreases at - from,
{
    if from < at {
        lemma_bad_entry_none(raw, from + 1, at);
    }
}

/// Turns the raw entries of one declaration into typed annotations, in their
/// order. The first entry that has no typed form is reported by its place.
pub fn parse_nom_attribute(raw: &Vec<RawEntry>) -> (r: Result<Vec<MetaAttr>, SynthesisError>)
    ensures
        attrs_result(r, spec_parse_attrs(raw.deep_view())),
        r matches Ok(list) ==> all_wf(list.deep_view()) && list.len() == raw.len(),
{
    let mut list: Vec<MetaAttr> = Vec::new();
    let mut i: usize = 0;
    while i < raw.len()
        invariant
            i <= raw.len(),
            list.len() == i,
            spec_bad_entry(raw.deep_view(), 0) == spec_bad_entry(raw.deep_view(), i as int),
            forall|j: int|
                0 <= j < i ==> spec_parse_entry(#[trigger] raw.deep_view()[j]) == Some(
                    list.deep_view()[j],
                ),
        decreases raw.len() - i,
    {
        match parse_entry(&raw[i]) {
            Some(attr) => {
                list.push(attr);
            },
            None => {
                return Err(SynthesisError::AttributeSyntax { index: i });
            },
        }
        i = i + 1;
    }
    proof {
        assert(list.deep_view() =~= Seq::new(
            raw.deep_view().len(),
            |i: int| spec_parse_entry(raw.deep_view()[i]).unwrap(),
        ));
        lemma_parsed_wf(raw.deep_view());
    }
    Ok(list)
}

/// The argument of the first annotation of the given kind.
pub open spec fn spec_find_first(list: Seq<MetaAttrView>, kind: MetaAttrType) -> Option<Seq<char>>
    decreases list.len(),
{
    if list.len() == 0 {
        None
    } else if list[0].attr_type == kind {
        list[0].arg0
    } else {
        spec_find_first(list.skip(1), kind)
    }
}

/// Whether the list holds an annotation of the given kind.
pub open spec fn spec_has_kind(list: Seq<MetaAttrView>, kind: MetaAttrType) -> bool {
    exists|i: int| 0 <= i < list.len() && (#[trigger] list[i]).attr_type == kind
}

/// Whether the list holds an annotation of the given kind.
pub fn has_kind(list: &[MetaAttr], kind: MetaAttrType) -> (r: bool)
    ensures
        r == spec_has_kind(list.deep_view(), kind),
{
    let mut i: usize = 0;
    while i < list.len()
        invariant
            i <= list.len(),
            forall|j: int| 0 <= j < i ==> (#[trigger] list.deep_view()[j]).attr_type != kind,
        decreases list.len() - i,
    {
        if list[i].is_type(kind) {
            assert(list.deep_view()[i as int].attr_type == kind);
            return true;
        }
        i = i + 1;
    }
    false
}

/// The argument of the first annotation of the given kind. Later
/// annotations of that kind are not looked at.
pub fn find_first(list: &[MetaAttr], kind: MetaAttrType) -> (r: Option<String>)
    ensures
        opt_chars(r) == spec_find_first(list.deep_view(), kind),
{
    let mut i: usize = 0;
    assert(list.deep_view().skip(0) =~= list.deep_view());
    while i < list.len()
        invariant
            i <= list.len(),
            spec_find_first(list.deep_view(), kind) == spec_find_first(
                list.deep_view().skip(i as int),
                kind,
            ),
        decreases list.len() - i,
    {
        let ghost rest = list.deep_view().skip(i as int);
        assert(rest[0] == list.deep_view()[i as int]);
        assert(rest.skip(1) =~= list.deep_view().skip(i + 1));
        if list[i].is_type(kind) {
            return copy_opt(&list[i].arg0);
        }
        i = i + 1;
    }
    None
}

/// The selector that a list of annotations names: the argument of its first
/// `Selector` annotation. That annotation must have its argument, as every
/// annotation that comes from [`parse_nom_attribute`] has.
pub fn get_selector(meta_list: &[MetaAttr]) -> (r: Option<String>)
    requires
        spec_has_kind(meta_list.deep_view(), MetaAttrType::Selector) ==> spec_find_first(
            meta_list.deep_view(),
            MetaAttrType::Selector,
        ).is_some(),
    ensures
        opt_chars(r) == spec_find_first(meta_list.deep_view(), MetaAttrType::Selector),
        r.is_some() == spec_has_kind(meta_list.deep_view(), MetaAttrType::Selector),
{
    proof {
        lemma_found_is_there(meta_list.deep_view(), MetaAttrType::Selector);
    }
    find_first(meta_list, MetaAttrType::Selector)
}

/// What is found is there: where an argument of a kind is found, the list
/// holds an annotation of that kind.
pub proof fn lemma_found_is_there(list: Seq<MetaAttrView>, kind: MetaAttrType)
    ensures
        spec_find_first(list, kind).is_some() ==> spec_has_kind(list, kind),
    decreases list.len(),
{
    if list.len() == 0 {
    } else if list[0].attr_type == kind {
    } else {
        let rest = list.skip(1);
        lemma_found_is_there(rest, kind);
        if spec_has_kind(rest, kind) {
            let i = choose|i: int| 0 <= i < rest.len() && (#[trigger] rest[i]).attr_type == kind;
            assert(list[i + 1] == rest[i]);
        }
    }
}

/// In a well-formed list, a kind that carries an argument is found exactly
/// if an annotation of that kind is there.
pub proof fn lemma_find_first_some(list: Seq<MetaAttrView>, kind: MetaAttrType)
    requires
        all_wf(list),
        kind.spec_takes_argument(),
    ensures
        spec_find_first(list, kind).is_some() == spec_has_kind(list, kind),
    decreases list.len(),
{
    if list.len() == 0 {
    } else if list[0].attr_type == kind {
        assert(list[0].wf());
    } else {
        let rest = list.skip(1);
        assert forall|i: int| 0 <= i < rest.len() implies (#[trigger] rest[i]).wf() by {
            assert(rest[i] == list[i + 1]);
        }
        lemma_find_first_some(rest, kind);
        if spec_has_kind(list, kind) {
            let i = choose|i: int| 0 <= i < list.len() && (#[trigger] list[i]).attr_type == kind;
            assert(rest[i - 1] == list[i]);
        }
        if spec_has_kind(rest, kind) {
            let i = choose|i: int| 0 <= i < rest.len() && (#[trigger] rest[i]).attr_type == kind;
            assert(list[i + 1] == rest[i]);
        }
    }
}

} // verus!
