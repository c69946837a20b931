//! The decoder of one field: a primitive, and the modifiers wrapped round
//! it.

use crate::expr::Relation;
use crate::number::{ByteOrder, IntKind};
use vstd::prelude::*;

verus! {

/// One side of a comparison that a routine evaluates.
#[derive(Clone, Copy, Debug, PartialEq, Eq, Structural)]
pub enum Operand {
    /// The value that was just decoded.
    Current,
    /// The value of the field at this place in the record.
    Field(usize),
    /// A number.
    Literal(i128),
}

/// A comparison that a routine evaluates.
#[derive(Clone, Copy, Debug, PartialEq, Eq, Structural)]
pub struct Predicate {
    pub lhs: Operand,
    pub relation: Relation,
    pub rhs: Operand,
}

/// What reads the bytes of one value.
#[derive(Debug)]
pub enum Primitive {
    /// The decoder of a fixed-width integer.
    Int { kind: IntKind, order: ByteOrder },
    /// The routine of another type, by that type's name.
    Nested(String),
    /// A decoder that an annotation names, taken as it is written.
    Raw(String),
}

/// A primitive, as characters.
pub enum PrimitiveView {
    Int { kind: IntKind, order: ByteOrder },
    Nested(Seq<char>),
    Raw(Seq<char>),
}

impl DeepView for Primitive {
    type V = PrimitiveView;

    open spec fn deep_view(&self) -> PrimitiveView {
        match self {
            Primitive::Int { kind, order } => PrimitiveView::Int { kind: *kind, order: *order },
            Primitive::Nested(n) => PrimitiveView::Nested(n@),
            Primitive::Raw(t) => PrimitiveView::Raw(t@),
        }
    }
}

/// A predicate of the host: its text, and the comparison it spells where
/// the routine can evaluate it.
#[derive(Debug)]
pub struct Check {
    pub text: String,
    pub predicate: Option<Predicate>,
}

/// A check, as characters.
pub struct CheckView {
    pub text: Seq<char>,
    pub predicate: Option<Predicate>,
}

impl DeepView for Check {
    type V = CheckView;

    open spec fn deep_view(&self) -> CheckView {
        CheckView { text: self.text@, predicate: self.predicate }
    }
}

/// What an optional check holds, as characters.
pub open spec fn opt_check(check: Option<Check>) -> Option<CheckView> {
    match check {
        Some(c) => Some(c.deep_view()),
        None => None,
    }
}

/// How many values a field holds.
#[derive(Debug)]
pub enum Framing {
    /// One value.
    Single,
    /// As many as an expression says: its text, and the operand it names
    /// where the routine can evaluate it.
    Count { text: String, source: Option<Operand> },
    /// As many as a prefix says, which is decoded first: the text that names
    /// its decoder, and that decoder where it is one of an unsigned
    /// integer.
    LengthCount { text: String, prefix: Option<(IntKind, ByteOrder)> },
}

/// A framing, as characters.
pub enum FramingView {
    Single,
    Count { text: Seq<char>, source: Option<Operand> },
    LengthCount { text: Seq<char>, prefix: Option<(IntKind, ByteOrder)> },
}

impl DeepView for Framing {
    type V = FramingView;

    open spec fn deep_view(&self) -> FramingView {
        match self {
            Framing::Single => FramingView::Single,
            Framing::Count { text, source } => FramingView::Count { text: text@, source: *source },
            Framing::LengthCount { text, prefix } => FramingView::LengthCount {
                text: text@,
                prefix: *prefix,
            },
        }
    }
}

/// The decoder of one field. The modifiers apply from the inside out:
/// `verify` to each decoded value, `framing` to the verified decoder, and
/// `cond` to the whole.
#[derive(Debug)]
pub struct ParserTree {
    pub base: Primitive,
    pub verify: Option<Check>,
    pub framing: Framing,
    pub cond: Option<Check>,
}

/// The decoder of a field, as characters.
pub struct ParserTreeView {
    pub base: PrimitiveView,
    pub verify: Option<CheckView>,
    pub framing: FramingView,
    pub cond: Option<CheckView>,
}

impl DeepView for ParserTree {
    type V = ParserTreeView;

    open spec fn deep_view(&self) -> ParserTreeView {
        ParserTreeView {
            base: self.base.deep_view(),
            verify: opt_check(self.verify),
            framing: self.framing.deep_view(),
            cond: opt_check(self.cond),
        }
    }
}

impl ParserTreeView {
    /// The integer type of a field that always holds exactly one integer:
    /// one that is decoded by an integer decoder, once, and in every case.
    pub open spec fn scalar_kind(self) -> Option<IntKind> {
        match self.base {
            PrimitiveView::Int { kind, order } => if self.framing is Single && self.cond is None {
                Some(kind)
            } else {
                None
            },
            _ => None,
        }
    }
}

impl ParserTree {
    /// The decoder of an integer, with no modifier.
    pub fn integer(kind: IntKind, order: ByteOrder) -> (r: ParserTree)
        ensures
            r.deep_view() == (ParserTreeView {
                base: PrimitiveView::Int { kind, order },
                verify: None,
                framing: FramingView::Single,
                cond: None,
            }),
    {
        ParserTree {
            base: Primitive::Int { kind, order },
            verify: None,
            framing: Framing::Single,
            cond: None,
        }
    }

    /// The integer type of a field that always holds exactly one integer.
    pub fn scalar_kind(&self) -> (r: Option<IntKind>)
        ensures
            r == self.deep_view().scalar_kind(),
    {
        match &self.base {
            Primitive::Int { kind, order } => match (&self.framing, &self.cond) {
                (Framing::Single, None) => Some(*kind),
                _ => None,
            },
            _ => None,
        }
    }
}

} // verus!
