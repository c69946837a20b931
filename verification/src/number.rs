//! Fixed-width integers on the wire: their value, and the decoder that reads
//! one from the front of a byte buffer.

use crate::error::ParseError;
use crate::text::same_text;
use vstd::arithmetic::div_mod::{
    lemma_fundamental_div_mod, lemma_fundamental_div_mod_converse_mod, lemma_mod_bound,
    lemma_small_mod,
};
use vstd::prelude::*;
use vstd::slice::slice_subrange;
use vstd::string::StringExecFns;

verus! {

/// The order in which the bytes of an integer are laid out.
#[derive(Clone, Copy, Debug, PartialEq, Eq, Structural)]
pub enum ByteOrder {
    Big,
    Little,
}

/// The integer types that have a decoder: one, two, three, four or eight
/// bytes wide, unsigned or signed.
#[derive(Clone, Copy, Debug, PartialEq, Eq, Structural)]
pub enum IntKind {
    U8,
    U16,
    U24,
    U32,
    U64,
    I8,
    I16,
    I24,
    I32,
    I64,
}

/// 256 to the power `n`.
pub open spec fn pow256(n: nat) -> nat
    decreases n,
{
    if n == 0 {
        1
    } else {
        256 * pow256((n - 1) as nat)
    }
}

/// The number that `bytes` spell, most significant byte first.
pub open spec fn be_value(bytes: Seq<u8>) -> nat
    decreases bytes.len(),
{
    if bytes.len() == 0 {
        0
    } else {
        be_value(bytes.drop_last()) * 256 + bytes.last() as nat
    }
}

/// The number that `bytes` spell in the given byte order.
pub open spec fn wire_value(order: ByteOrder, bytes: Seq<u8>) -> nat {
    match order {
        ByteOrder::Big => be_value(bytes),
        ByteOrder::Little => be_value(bytes.reverse()),
    }
}

/// The integer type that a name stands for, if it stands for one.
pub open spec fn spec_from_name(name: Seq<char>) -> Option<IntKind> {
    if name == "u8"@ {
        Some(IntKind::U8)
    } else if name == "u16"@ {
        Some(IntKind::U16)
    } else if name == "u24"@ {
        Some(IntKind::U24)
    } else if name == "u32"@ {
        Some(IntKind::U32)
    } else if name == "u64"@ {
        Some(IntKind::U64)
    } else if name == "i8"@ {
        Some(IntKind::I8)
    } else if name == "i16"@ {
        Some(IntKind::I16)
    } else if name == "i24"@ {
        Some(IntKind::I24)
    } else if name == "i32"@ {
        Some(IntKind::I32)
    } else if name == "i64"@ {
        Some(IntKind::I64)
    } else {
        None
    }
}

impl ByteOrder {
    /// The prefix that the names of the decoders of this byte order begin
    /// with.
    pub open spec fn spec_prefix(self) -> Seq<char> {
        match self {
            ByteOrder::Big => "be_"@,
            ByteOrder::Little => "le_"@,
        }
    }
}

impl IntKind {
    /// The name of the type.
    pub open spec fn spec_name(self) -> Seq<char> {
        match self {
            IntKind::U8 => "u8"@,
            IntKind::U16 => "u16"@,
            IntKind::U24 => "u24"@,
            IntKind::U32 => "u32"@,
            IntKind::U64 => "u64"@,
            IntKind::I8 => "i8"@,
            IntKind::I16 => "i16"@,
            IntKind::I24 => "i24"@,
            IntKind::I32 => "i32"@,
            IntKind::I64 => "i64"@,
        }
    }

    /// The name of the type.
    pub fn name(self) -> (r: &'static str)
        ensures
            r@ == self.spec_name(),
    {
        match self {
            IntKind::U8 => "u8",
            IntKind::U16 => "u16",
            IntKind::U24 => "u24",
            IntKind::U32 => "u32",
            IntKind::U64 => "u64",
            IntKind::I8 => "i8",
            IntKind::I16 => "i16",
            IntKind::I24 => "i24",
            IntKind::I32 => "i32",
            IntKind::I64 => "i64",
        }
    }

    /// The integer type that a name stands for, if it stands for one.
    pub fn from_name(name: &str) -> (r: Option<IntKind>)
        ensures
            r == spec_from_name(name@),
    {
        if same_text(name, "u8") {
            Some(IntKind::U8)
        } else if same_text(name, "u16") {
            Some(IntKind::U16)
        } else if same_text(name, "u24") {
            Some(IntKind::U24)
        } else if same_text(name, "u32") {
            Some(IntKind::U32)
        } else if same_text(name, "u64") {
            Some(IntKind::U64)
        } else if same_text(name, "i8") {
            Some(IntKind::I8)
        } else if same_text(name, "i16") {
            Some(IntKind::I16)
        } else if same_text(name, "i24") {
            Some(IntKind::I24)
        } else if same_text(name, "i32") {
            Some(IntKind::I32)
        } else if same_text(name, "i64") {
            Some(IntKind::I64)
        } else {
            None
        }
    }

    /// The path of the decoder that reads this type in the given byte order,
    /// as the emitted routine names it.
    pub open spec fn spec_decoder_path(self, order: ByteOrder) -> Seq<char> {
        "nom::number::streaming::"@ + order.spec_prefix() + self.spec_name()
    }

    /// The path of the decoder that reads this type in the given byte order,
    /// as the emitted routine names it.
    pub fn decoder_path(self, order: ByteOrder) -> (r: String)
        ensures
            r@ == self.spec_decoder_path(order),
    {
        let prefix = match order {
            ByteOrder::Big => "be_",
            ByteOrder::Little => "le_",
        };
        String::from_str("nom::number::streaming::").concat(prefix).concat(self.name())
    }

    /// The number of bytes of the type.
    pub open spec fn spec_width(self) -> nat {
        match self {
            IntKind::U8 | IntKind::I8 => 1,
            IntKind::U16 | IntKind::I16 => 2,
            IntKind::U24 | IntKind::I24 => 3,
            IntKind::U32 | IntKind::I32 => 4,
            IntKind::U64 | IntKind::I64 => 8,
        }
    }

    /// Whether the type has negative values.
    pub open spec fn spec_signed(self) -> bool {
        match self {
            IntKind::I8 | IntKind::I16 | IntKind::I24 | IntKind::I32 | IntKind::I64 => true,
            _ => false,
        }
    }

    /// The number of bit patterns of the type: 256 to the power of its width.
    pub open spec fn modulus(self) -> int {
        match self {
            IntKind::U8 | IntKind::I8 => 0x100,
            IntKind::U16 | IntKind::I16 => 0x1_0000,
            IntKind::U24 | IntKind::I24 => 0x100_0000,
            IntKind::U32 | IntKind::I32 => 0x1_0000_0000,
            IntKind::U64 | IntKind::I64 => 0x1_0000_0000_0000_0000,
        }
    }

    /// The least value of the type.
    pub open spec fn lowest(self) -> int {
        if self.spec_signed() {
            -(self.modulus() / 2)
        } else {
            0
        }
    }

    /// The greatest value of the type.
    pub open spec fn highest(self) -> int {
        if self.spec_signed() {
            self.modulus() / 2 - 1
        } else {
            self.modulus() - 1
        }
    }

    /// Whether `v` is a value of the type.
    pub open spec fn holds(self, v: int) -> bool {
        self.lowest() <= v <= self.highest()
    }

    /// The value that the bit pattern `raw` stands for: itself, or, for a
    /// signed type and a pattern with the top bit set, its two's complement.
    pub open spec fn interpret(self, raw: nat) -> int {
        if self.spec_signed() && raw >= self.modulus() / 2 {
            raw - self.modulus()
        } else {
            raw as int
        }
    }

    /// The bit pattern that stands for `v`: `v` reduced modulo the number of
    /// patterns. This is what a cast to the type keeps of `v`.
    pub open spec fn pattern(self, v: int) -> nat {
        (v % self.modulus()) as nat
    }

    /// The value of the type that a cast of `v` to it gives.
    pub open spec fn cast(self, v: int) -> int {
        self.interpret(self.pattern(v))
    }

    /// What decoding a value of this type from the front of `input` gives:
    /// the value and the input after it, or how many bytes are missing.
    pub open spec fn spec_decode(self, order: ByteOrder, input: Seq<u8>) -> Result<
        (int, Seq<u8>),
        ParseError,
    > {
        let w = self.spec_width() as int;
        if input.len() < w {
            Err(ParseError::Incomplete { needed: (w - input.len()) as usize })
        } else {
            Ok((self.interpret(wire_value(order, input.take(w))), input.skip(w)))
        }
    }

    /// The number of bytes of the type.
    pub fn width(self) -> (w: usize)
        ensures
            w == self.spec_width(),
    {
        match self {
            IntKind::U8 | IntKind::I8 => 1,
            IntKind::U16 | IntKind::I16 => 2,
            IntKind::U24 | IntKind::I24 => 3,
            IntKind::U32 | IntKind::I32 => 4,
            IntKind::U64 | IntKind::I64 => 8,
        }
    }

    /// Whether the type has negative values.
    #[verifier::when_used_as_spec(spec_signed)]
    pub fn signed(self) -> (s: bool)
        ensures
            s == self.spec_signed(),
    {
        match self {
            IntKind::I8 | IntKind::I16 | IntKind::I24 | IntKind::I32 | IntKind::I64 => true,
            _ => false,
        }
    }

    /// The number of bit patterns, as a machine integer.
    fn patterns(self) -> (m: i128)
        ensures
            m == self.modulus(),
    {
        match self {
            IntKind::U8 | IntKind::I8 => 0x100,
            IntKind::U16 | IntKind::I16 => 0x1_0000,
            IntKind::U24 | IntKind::I24 => 0x100_0000,
            IntKind::U32 | IntKind::I32 => 0x1_0000_0000,
            IntKind::U64 | IntKind::I64 => 0x1_0000_0000_0000_0000,
        }
    }

    /// The bit pattern that stands for `v`.
    fn pattern_of(self, v: i128) -> (r: i128)
        ensures
            r == self.pattern(v as int),
            0 <= r < self.modulus(),
    {
        let m = self.patterns();
        if v >= 0 {
            v % m
        } else {
            let folded = (-(v + 1)) % m;
            proof {
                lemma_mod_of_negative(v as int, m as int);
            }
            m - 1 - folded
        }
    }

    /// The value of the type that a cast of `v` to it gives.
    pub fn cast_value(self, v: i128) -> (r: i128)
        ensures
            r == self.cast(v as int),
            self.holds(r as int),
    {
        let m = self.patterns();
        let raw = self.pattern_of(v);
        if self.signed() && raw >= m / 2 {
            raw - m
        } else {
            raw
        }
    }

    /// The bytes that stand for `v` in the given byte order. A value that
    /// the type does not hold is cast to it first.
    pub fn encode(self, order: ByteOrder, v: i128) -> (r: Vec<u8>)
        ensures
            r@ == encode(self, order, v as int),
            r.len() == self.spec_width(),
    {
        let raw = self.pattern_of(v);
        proof {
            lemma_pow256_width(self);
            lemma_be_bytes_value(raw as nat, self.spec_width());
        }
        let bytes = be_encode(raw as u128, self.width());
        match order {
            ByteOrder::Big => bytes,
            ByteOrder::Little => reversed(&bytes),
        }
    }

    /// Decodes one value of this type from the front of `input`.
    pub fn decode<'a>(self, order: ByteOrder, input: &'a [u8]) -> (r: Result<
        (&'a [u8], i128),
        ParseError,
    >)
        ensures
            match self.spec_decode(order, input@) {
                Ok((value, rest)) => r matches Ok((tail, v)) && v == value && tail@ == rest,
                Err(e) => r == Err::<(&[u8], i128), ParseError>(e),
            },
            r matches Ok((_, v)) ==> self.holds(v as int),
    {
        let w = self.width();
        if input.len() < w {
            return Err(ParseError::Incomplete { needed: w - input.len() });
        }
        let ghost digits = match order {
            ByteOrder::Big => input@.take(w as int),
            ByteOrder::Little => input@.take(w as int).reverse(),
        };
        let mut acc: u128 = 0;
        let mut k: usize = 0;
        while k < w
            invariant
                k <= w <= 8,
                w <= input.len(),
                w == self.spec_width(),
                digits.len() == w,
                digits == match order {
                    ByteOrder::Big => input@.take(w as int),
                    ByteOrder::Little => input@.take(w as int).reverse(),
                },
                acc == be_value(digits.take(k as int)),
                acc < pow256(k as nat),
            decreases w - k,
        {
            let at = match order {
                ByteOrder::Big => k,
                ByteOrder::Little => w - 1 - k,
            };
            let byte = input[at];
            proof {
                let next = digits.take(k + 1);
                assert(next.drop_last() =~= digits.take(k as int));
                assert(next.last() == byte);
                lemma_pow256_bounded(k as nat);
            }
            acc = acc * 256 + byte as u128;
            k = k + 1;
        }
        proof {
            assert(digits.take(w as int) =~= digits);
            lemma_pow256_width(self);
        }
        let raw = acc as i128;
        let m = self.patterns();
        let value = if self.signed() && raw >= m / 2 {
            raw - m
        } else {
            raw
        };
        Ok((slice_subrange(input, w, input.len()), value))
    }
}

/// The `w` bytes that spell `n`, most significant byte first.
fn be_encode(n: u128, w: usize) -> (r: Vec<u8>)
    ensures
        r@ == be_bytes(n as nat, w as nat),
    decreases w,
{
    if w == 0 {
        Vec::new()
    } else {
        let mut bytes = be_encode(n / 256, w - 1);
        bytes.push((n % 256) as u8);
        bytes
    }
}

/// The bytes of `bytes`, last first.
fn reversed(bytes: &Vec<u8>) -> (r: Vec<u8>)
    ensures
        r@ == bytes@.reverse(),
{
    let mut out: Vec<u8> = Vec::new();
    let mut k: usize = 0;
    while k < bytes.len()
        invariant
            k <= bytes.len(),
            out.len() == k,
            forall|j: int| 0 <= j < k ==> out@[j] == bytes@[bytes.len() - 1 - j],
        decreases bytes.len() - k,
    {
        out.push(bytes[bytes.len() - 1 - k]);
        k = k + 1;
    }
    assert(out@ =~= bytes@.reverse());
    out
}

/// The remainder of a negative number, from that of a number that is not
/// negative.
pub proof fn lemma_mod_of_negative(v: int, m: int)
    requires
        m > 0,
        v < 0,
    ensures
        v % m == m - 1 - ((-(v + 1)) % m),
{
    let a = -(v + 1);
    let q = a / m;
    let r = a % m;
    lemma_fundamental_div_mod(a, m);
    lemma_mod_bound(a, m);
    assert(v == (-(q + 1)) * m + (m - 1 - r)) by (nonlinear_arith)
        requires
            a == m * q + r,
            v == -a - 1,
    ;
    lemma_fundamental_div_mod_converse_mod(v, m, -(q + 1), m - 1 - r);
}

/// Up to the eighth power, a power of 256 fits in 64 bits.
pub proof fn lemma_pow256_bounded(n: nat)
    requires
        n <= 8,
    ensures
        pow256(n) <= 0x1_0000_0000_0000_0000,
{
    reveal_with_fuel(pow256, 9);
}

/// The number of bit patterns of a type is 256 to the power of its width.
pub proof fn lemma_pow256_width(kind: IntKind)
    ensures
        pow256(kind.spec_width()) == kind.modulus(),
{
    reveal_with_fuel(pow256, 9);
}

/// The `w` bytes that spell `n`, most significant byte first.
pub open spec fn be_bytes(n: nat, w: nat) -> Seq<u8>
    decreases w,
{
    if w == 0 {
        Seq::empty()
    } else {
        be_bytes(n / 256, (w - 1) as nat).push((n % 256) as u8)
    }
}

/// The bytes that stand for the value `v` of an integer type, in the given
/// byte order.
pub open spec fn encode(kind: IntKind, order: ByteOrder, v: int) -> Seq<u8> {
    let bytes = be_bytes(kind.pattern(v), kind.spec_width());
    match order {
        ByteOrder::Big => bytes,
        ByteOrder::Little => bytes.reverse(),
    }
}

/// `w` bytes spell every number below 256 to the power `w`, and spelling
/// it gives `w` bytes.
pub proof fn lemma_be_bytes_value(n: nat, w: nat)
    requires
        n < pow256(w),
    ensures
        be_bytes(n, w).len() == w,
        be_value(be_bytes(n, w)) == n,
    decreases w,
{
    if w > 0 {
        let head = be_bytes(n / 256, (w - 1) as nat);
        lemma_be_bytes_value(n / 256, (w - 1) as nat);
        assert(be_bytes(n, w).drop_last() =~= head);
        assert(be_bytes(n, w).last() == (n % 256) as u8);
    }
}

/// A value of an integer type is what its bit pattern stands for.
pub proof fn lemma_interpret_pattern(kind: IntKind, v: int)
    requires
        kind.holds(v),
    ensures
        kind.pattern(v) < kind.modulus(),
        kind.interpret(kind.pattern(v)) == v,
{
    let m = kind.modulus();
    if v >= 0 {
        lemma_small_mod(v as nat, m as nat);
    } else {
        lemma_fundamental_div_mod_converse_mod(v, m, -1, v + m);
    }
}

/// A cast gives a value of the type, and leaves a value of the type as it
/// is.
pub proof fn lemma_cast(kind: IntKind, v: int)
    ensures
        kind.holds(kind.cast(v)),
        kind.holds(v) ==> kind.cast(v) == v,
{
    lemma_mod_bound(v, kind.modulus());
    if kind.holds(v) {
        lemma_interpret_pattern(kind, v);
    }
}

/// Decoding the bytes that stand for a value gives the value back, and
/// leaves what follows them.
pub proof fn lemma_decode_encode(kind: IntKind, order: ByteOrder, v: int, tail: Seq<u8>)
    requires
        kind.holds(v),
    ensures
        encode(kind, order, v).len() == kind.spec_width(),
        kind.spec_decode(order, encode(kind, order, v) + tail) == Ok::<(int, Seq<u8>), ParseError>(
            (v, tail),
        ),
{
    let w = kind.spec_width();
    let p = kind.pattern(v);
    lemma_interpret_pattern(kind, v);
    lemma_pow256_width(kind);
    lemma_be_bytes_value(p, w);
    let bytes = be_bytes(p, w);
    let wire = encode(kind, order, v);
    let input = wire + tail;
    assert(wire.len() == w);
    assert(input.take(w as int) =~= wire);
    assert(input.skip(w as int) =~= tail);
    assert(bytes.reverse().reverse() =~= bytes);
}

} // verus!
