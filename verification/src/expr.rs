//! The small language of comparisons that a routine can evaluate by itself:
//! two terms, each a name or a decimal number, with a relation between them.
//! Any other expression stays text, for the host to compile.

use vstd::prelude::*;
use vstd::string::StrSliceExecFns;

verus! {

/// A relation between two integers.
#[derive(Clone, Copy, Debug, PartialEq, Eq, Structural)]
pub enum Relation {
    Equal,
    NotEqual,
    Less,
    LessEqual,
    Greater,
    GreaterEqual,
}

impl Relation {
    /// Whether the relation holds between `a` and `b`.
    pub open spec fn spec_holds(self, a: int, b: int) -> bool {
        match self {
            Relation::Equal => a == b,
            Relation::NotEqual => a != b,
            Relation::Less => a < b,
            Relation::LessEqual => a <= b,
            Relation::Greater => a > b,
            Relation::GreaterEqual => a >= b,
        }
    }

    /// Whether the relation holds between `a` and `b`.
    pub fn holds(self, a: i128, b: i128) -> (r: bool)
        ensures
            r == self.spec_holds(a as int, b as int),
    {
        match self {
            Relation::Equal => a == b,
            Relation::NotEqual => a != b,
            Relation::Less => a < b,
            Relation::LessEqual => a <= b,
            Relation::Greater => a > b,
            Relation::GreaterEqual => a >= b,
        }
    }
}

/// The classes of character that the scanner tells apart.
#[derive(Clone, Copy, Debug, PartialEq, Eq, Structural)]
pub enum CharClass {
    /// The space.
    Space,
    /// A letter, a digit or the underscore.
    Name,
    /// A decimal digit.
    Digit,
    /// A letter, a digit, the underscore or the colon.
    Path,
}

/// A decimal digit.
pub open spec fn is_digit(c: char) -> bool {
    '0' <= c <= '9'
}

/// A character that a name may begin with.
pub open spec fn is_name_start(c: char) -> bool {
    ('a' <= c <= 'z') || ('A' <= c <= 'Z') || c == '_'
}

impl CharClass {
    /// Whether `c` belongs to the class.
    pub open spec fn spec_admits(self, c: char) -> bool {
        match self {
            CharClass::Space => c == ' ',
            CharClass::Name => is_name_start(c) || is_digit(c),
            CharClass::Digit => is_digit(c),
            CharClass::Path => is_name_start(c) || is_digit(c) || c == ':',
        }
    }

    /// Whether `c` belongs to the class.
    pub fn admits(self, c: char) -> (r: bool)
        ensures
            r == self.spec_admits(c),
    {
        match self {
            CharClass::Space => c == ' ',
            CharClass::Name => ('a' <= c && c <= 'z') || ('A' <= c && c <= 'Z') || c == '_' || (
            '0' <= c && c <= '9'),
            CharClass::Digit => '0' <= c && c <= '9',
            CharClass::Path => ('a' <= c && c <= 'z') || ('A' <= c && c <= 'Z') || c == '_' || (
            '0' <= c && c <= '9') || c == ':',
        }
    }
}

/// The end of the longest run of characters of `class` that starts at `i`.
pub open spec fn spec_scan(s: Seq<char>, i: int, class: CharClass) -> int
    decreases s.len() - i,
{
    if 0 <= i < s.len() && class.spec_admits(s[i]) {
        spec_scan(s, i + 1, class)
    } else {
        i
    }
}

/// The value of a decimal digit.
pub open spec fn digit_value(c: char) -> nat {
    (c as int - '0' as int) as nat
}

/// The number that the digits of `s` from `from` up to `to` spell.
pub open spec fn spec_number(s: Seq<char>, from: int, to: int) -> nat
    decreases to - from,
{
    if to <= from {
        0
    } else {
        spec_number(s, from, to - 1) * 10 + digit_value(s[to - 1])
    }
}

/// 10 to the power `n`.
pub open spec fn pow10(n: nat) -> nat
    decreases n,
{
    if n == 0 {
        1
    } else {
        10 * pow10((n - 1) as nat)
    }
}

/// The most digits that a number may have.
pub const MAX_DIGITS: usize = 18;

/// A term of a comparison, as characters.
pub enum TermView {
    Name(Seq<char>),
    Number(int),
}

/// A term of a comparison: a name, or a number.
#[derive(Debug)]
pub enum Term {
    Name(String),
    Number(i128),
}

impl DeepView for Term {
    type V = TermView;

    open spec fn deep_view(&self) -> TermView {
        match self {
            Term::Name(n) => TermView::Name(n@),
            Term::Number(v) => TermView::Number(*v as int),
        }
    }
}

/// A comparison, as characters.
pub struct ComparisonView {
    pub lhs: TermView,
    pub relation: Relation,
    pub rhs: TermView,
}

/// A comparison as it is written: its terms are not yet resolved.
#[derive(Debug)]
pub struct Comparison {
    pub lhs: Term,
    pub relation: Relation,
    pub rhs: Term,
}

impl DeepView for Comparison {
    type V = ComparisonView;

    open spec fn deep_view(&self) -> ComparisonView {
        ComparisonView {
            lhs: self.lhs.deep_view(),
            relation: self.relation,
            rhs: self.rhs.deep_view(),
        }
    }
}

/// The term that starts at `i`, and where it ends. A name starts with a
/// letter or an underscore and runs over letters, digits and underscores. A
/// number is an optional minus sign and one to eighteen digits.
pub open spec fn spec_term(s: Seq<char>, i: int) -> Option<(TermView, int)> {
    if 0 <= i < s.len() && is_name_start(s[i]) {
        let e = spec_scan(s, i, CharClass::Name);
        Some((TermView::Name(s.subrange(i, e)), e))
    } else {
        let negative = 0 <= i < s.len() && s[i] == '-';
        let d = if negative {
            i + 1
        } else {
            i
        };
        let e = spec_scan(s, d, CharClass::Digit);
        if d < e <= d + MAX_DIGITS {
            let n = spec_number(s, d, e) as int;
            Some(
                (
                    TermView::Number(
                        if negative {
                            -n
                        } else {
                            n
                        },
                    ),
                    e,
                ),
            )
        } else {
            None
        }
    }
}

/// The relation that is written at `i`, and where it ends.
pub open spec fn spec_relation(s: Seq<char>, i: int) -> Option<(Relation, int)> {
    if 0 <= i && i + 1 < s.len() && s[i + 1] == '=' && s[i] == '=' {
        Some((Relation::Equal, i + 2))
    } else if 0 <= i && i + 1 < s.len() && s[i + 1] == '=' && s[i] == '!' {
        Some((Relation::NotEqual, i + 2))
    } else if 0 <= i && i + 1 < s.len() && s[i + 1] == '=' && s[i] == '<' {
        Some((Relation::LessEqual, i + 2))
    } else if 0 <= i && i + 1 < s.len() && s[i + 1] == '=' && s[i] == '>' {
        Some((Relation::GreaterEqual, i + 2))
    } else if 0 <= i < s.len() && s[i] == '<' {
        Some((Relation::Less, i + 1))
    } else if 0 <= i < s.len() && s[i] == '>' {
        Some((Relation::Greater, i + 1))
    } else {
        None
    }
}

/// The comparison that `s` spells: a term, a relation and a term, with
/// spaces allowed around each, and nothing else.
pub open spec fn spec_comparison(s: Seq<char>) -> Option<ComparisonView> {
    let a = spec_scan(s, 0, CharClass::Space);
    match spec_term(s, a) {
        None => None,
        Some((lhs, b)) => {
            let c = spec_scan(s, b, CharClass::Space);
            match spec_relation(s, c) {
                None => None,
                Some((relation, d)) => {
                    let e = spec_scan(s, d, CharClass::Space);
                    match spec_term(s, e) {
                        None => None,
                        Some((rhs, f)) => {
                            if spec_scan(s, f, CharClass::Space) == s.len() {
                                Some(ComparisonView { lhs, relation, rhs })
                            } else {
                                None
                            }
                        },
                    }
                },
            }
        },
    }
}

/// The term that `s` spells: one term, with spaces allowed around it, and
/// nothing else.
pub open spec fn spec_lone_term(s: Seq<char>) -> Option<TermView> {
    let a = spec_scan(s, 0, CharClass::Space);
    match spec_term(s, a) {
        None => None,
        Some((term, b)) => {
            if spec_scan(s, b, CharClass::Space) == s.len() {
                Some(term)
            } else {
                None
            }
        },
    }
}

/// A run of `n` digits spells a number below 10 to the power `n`.
pub proof fn lemma_number_bound(s: Seq<char>, from: int, to: int)
    requires
        0 <= from <= to <= s.len(),
        forall|j: int| from <= j < to ==> is_digit(#[trigger] s[j]),
    ensures
        spec_number(s, from, to) < pow10((to - from) as nat),
    decreases to - from,
{
    if from < to {
        lemma_number_bound(s, from, to - 1);
        assert(is_digit(s[to - 1]));
        assert(digit_value(s[to - 1]) <= 9);
    }
}

/// The end of the run of characters of `class` that starts at `from`, in a
/// text of `len` characters.
pub(crate) fn scan(text: &str, len: usize, from: usize, class: CharClass) -> (end: usize)
    requires
        len == text@.len(),
        from <= len,
    ensures
        end == spec_scan(text@, from as int, class),
        from <= end <= len,
        forall|j: int| from <= j < end ==> class.spec_admits(#[trigger] text@[j]),
{
    let mut i = from;
    loop
        invariant
            len == text@.len(),
            from <= i <= len,
            spec_scan(text@, from as int, class) == spec_scan(text@, i as int, class),
            forall|j: int| from <= j < i ==> class.spec_admits(#[trigger] text@[j]),
        ensures
            from <= i <= len,
            i == spec_scan(text@, from as int, class),
            forall|j: int| from <= j < i ==> class.spec_admits(#[trigger] text@[j]),
        decreases len - i,
    {
        if i >= len {
            break ;
        }
        let c = text.get_char(i);
        if !class.admits(c) {
            break ;
        }
        i = i + 1;
    }
    i
}

/// Reads the term that starts at `from`.
fn read_term(text: &str, len: usize, from: usize) -> (r: Option<(Term, usize)>)
    requires
        len == text@.len(),
        from <= len,
    ensures
        match r {
            Some((term, end)) => spec_term(text@, from as int) == Some(
                (term.deep_view(), end as int),
            ) && from <= end <= len,
            None => spec_term(text@, from as int).is_none(),
        },
{
    if from < len {
        let first = text.get_char(from);
        if ('a' <= first && first <= 'z') || ('A' <= first && first <= 'Z') || first == '_' {
            let end = scan(text, len, from, CharClass::Name);
            let name = text.substring_char(from, end).to_owned();
            return Some((Term::Name(name), end));
        }
    }
    let negative = from < len && text.get_char(from) == '-';
    let start = if negative {
        from + 1
    } else {
        from
    };
    let end = scan(text, len, start, CharClass::Digit);
    if end <= start || end - start > MAX_DIGITS {
        return None;
    }
    let mut acc: i128 = 0;
    let mut k = start;
    while k < end
        invariant
            len == text@.len(),
            start <= k <= end <= len,
            end - start <= MAX_DIGITS,
            forall|j: int| start <= j < end ==> is_digit(#[trigger] text@[j]),
            acc == spec_number(text@, start as int, k as int),
            acc < pow10((k - start) as nat),
        decreases end - k,
    {
        let c = text.get_char(k);
        proof {
            assert(is_digit(text@[k as int]));
            lemma_pow10_bounded((k - start) as nat);
        }
        let d = (c as u32 - '0' as u32) as i128;
        acc = acc * 10 + d;
        k = k + 1;
        proof {
            lemma_number_bound(text@, start as int, k as int);
        }
    }
    let value = if negative {
        -acc
    } else {
        acc
    };
    Some((Term::Number(value), end))
}

/// Up to the eighteenth power, a power of 10 stays below 10 to the 18.
pub proof fn lemma_pow10_bounded(n: nat)
    requires
        n <= MAX_DIGITS,
    ensures
        pow10(n) <= 1_000_000_000_000_000_000,
{
    reveal_with_fuel(pow10, 19);
}

/// Reads the relation that is written at `from`.
fn read_relation(text: &str, len: usize, from: usize) -> (r: Option<(Relation, usize)>)
    requires
        len == text@.len(),
        from <= len,
    ensures
        r matches Some((_, end)) ==> from <= end <= len,
        match r {
            Some((relation, end)) => spec_relation(text@, from as int) == Some(
                (relation, end as int),
            ),
            None => spec_relation(text@, from as int).is_none(),
        },
{
    if from >= len {
        return None;
    }
    let first = text.get_char(from);
    if from + 1 < len && text.get_char(from + 1) == '=' {
        if first == '=' {
            return Some((Relation::Equal, from + 2));
        } else if first == '!' {
            return Some((Relation::NotEqual, from + 2));
        } else if first == '<' {
            return Some((Relation::LessEqual, from + 2));
        } else if first == '>' {
            return Some((Relation::GreaterEqual, from + 2));
        }
    }
    if first == '<' {
        Some((Relation::Less, from + 1))
    } else if first == '>' {
        Some((Relation::Greater, from + 1))
    } else {
        None
    }
}

/// Reads a comparison: a term, a relation and a term, with spaces allowed
/// around each. Text of any other form is no comparison.
pub fn parse_comparison(text: &str) -> (r: Option<Comparison>)
    ensures
        match r {
            Some(c) => spec_comparison(text@) == Some(c.deep_view()),
            None => spec_comparison(text@).is_none(),
        },
{
    let len = text.unicode_len();
    let a = scan(text, len, 0, CharClass::Space);
    let (lhs, b) = match read_term(text, len, a) {
        Some(found) => found,
        None => {
            return None;
        },
    };
    let c = scan(text, len, b, CharClass::Space);
    let (relation, d) = match read_relation(text, len, c) {
        Some(found) => found,
        None => {
            return None;
        },
    };
    let e = scan(text, len, d, CharClass::Space);
    let (rhs, f) = match read_term(text, len, e) {
        Some(found) => found,
        None => {
            return None;
        },
    };
    let g = scan(text, len, f, CharClass::Space);
    if g == len {
        Some(Comparison { lhs, relation, rhs })
    } else {
        None
    }
}

/// Reads a lone term, with spaces allowed around it. Text of any other form
/// is no term.
pub fn parse_term(text: &str) -> (r: Option<Term>)
    ensures
        match r {
            Some(t) => spec_lone_term(text@) == Some(t.deep_view()),
            None => spec_lone_term(text@).is_none(),
        },
{
    let len = text.unicode_len();
    let a = scan(text, len, 0, CharClass::Space);
    let (term, b) = match read_term(text, len, a) {
        Some(found) => found,
        None => {
            return None;
        },
    };
    let c = scan(text, len, b, CharClass::Space);
    if c == len {
        Some(term)
    } else {
        None
    }
}

} // verus!
