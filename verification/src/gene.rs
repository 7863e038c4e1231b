//! The gene codec: one connection descriptor and its fixed-width hex
//! representation.

use vstd::prelude::*;
use vstd::string::*;

verus! {

/// One neural connection descriptor.
///
/// A gene is serialized as exactly twelve hex digits: two for the source
/// id, two for the destination id and eight for the raw IEEE-754 bit
/// pattern of the single-precision connection weight. The bit pattern --
/// not a decimal rendering -- is what travels, so the round trip through
/// the codec is bit-exact.
#[derive(Clone, Copy, Debug, PartialEq, Eq, Structural)]
pub struct Gene {
    /// Raw source id. Values below 128 name a sensory neuron, values of
    /// 128 and above an internal neuron.
    pub source_id: u8,
    /// Raw destination id. Values below 128 name an action neuron, values
    /// of 128 and above an internal neuron.
    pub destination_id: u8,
    /// The connection weight, carried as the raw bit pattern of its
    /// IEEE-754 single-precision value.
    pub weight: u32,
}

/// Why decoding a gene failed.
#[derive(Clone, Copy, Debug, PartialEq, Eq, Structural)]
pub enum DecodeError {
    /// The input was not exactly twelve characters long.
    InvalidLength,
    /// The input contained a character that is not a hex digit.
    InvalidDigit,
}

/// The width of the serialized form of a gene, in hex digits.
pub const GENE_HEX_WIDTH: usize = 12;

/// The lower-case hex digit for a value below sixteen.
pub open spec fn hex_char_of(d: int) -> char {
    if d == 0 {
        '0'
    } else if d == 1 {
        '1'
    } else if d == 2 {
        '2'
    } else if d == 3 {
        '3'
    } else if d == 4 {
        '4'
    } else if d == 5 {
        '5'
    } else if d == 6 {
        '6'
    } else if d == 7 {
        '7'
    } else if d == 8 {
        '8'
    } else if d == 9 {
        '9'
    } else if d == 10 {
        'a'
    } else if d == 11 {
        'b'
    } else if d == 12 {
        'c'
    } else if d == 13 {
        'd'
    } else if d == 14 {
        'e'
    } else {
        'f'
    }
}

/// Whether a character is a hex digit, in either case.
pub open spec fn is_hex_digit(c: char) -> bool {
    ('0' as int <= c as int && c as int <= '9' as int) || ('a' as int <= c as int && c as int
        <= 'f' as int) || ('A' as int <= c as int && c as int <= 'F' as int)
}

/// The value of a hex digit character, in either case.
pub open spec fn hex_val(c: char) -> int {
    if '0' as int <= c as int && c as int <= '9' as int {
        c as int - '0' as int
    } else if 'a' as int <= c as int && c as int <= 'f' as int {
        c as int - 'a' as int + 10
    } else {
        c as int - 'A' as int + 10
    }
}

/// The value written by a big-endian string of hex digits.
pub open spec fn hex_num(s: Seq<char>) -> int
    decreases s.len(),
{
    if s.len() == 0 {
        0
    } else {
        hex_num(s.drop_last()) * 16 + hex_val(s.last())
    }
}

/// Sixteen to the given power.
pub open spec fn pow16(n: nat) -> int
    decreases n,
{
    if n == 0 {
        1
    } else {
        16 * pow16((n - 1) as nat)
    }
}

/// The `n` low hex digits of `v`, big-endian, lower-case.
pub open spec fn hex_digits(v: int, n: nat) -> Seq<char>
    decreases n,
{
    if n == 0 {
        Seq::empty()
    } else {
        hex_digits(v / 16, (n - 1) as nat).push(hex_char_of(v % 16))
    }
}

/// The twelve-character serialized form of a gene: source id, destination
/// id, then the weight's bit pattern.
pub open spec fn gene_hex(g: Gene) -> Seq<char> {
    hex_digits(g.source_id as int, 2) + hex_digits(g.destination_id as int, 2) + hex_digits(
        g.weight as int,
        8,
    )
}

/// What decoding a character sequence yields: the gene it writes, or the
/// error that rejects it. The length is checked first, then every
/// character must be a hex digit.
pub open spec fn spec_decode(s: Seq<char>) -> Result<Gene, DecodeError> {
    if s.len() != GENE_HEX_WIDTH {
        Err(DecodeError::InvalidLength)
    } else if exists|i: int| 0 <= i < s.len() && !is_hex_digit(s[i]) {
        Err(DecodeError::InvalidDigit)
    } else {
        Ok(
            Gene {
                source_id: hex_num(s.subrange(0, 2)) as u8,
                destination_id: hex_num(s.subrange(2, 4)) as u8,
                weight: hex_num(s.subrange(4, 12)) as u32,
            },
        )
    }
}

/// The lower-case hex digit for a value below sixteen, as a one-character
/// string slice.
fn hex_digit_str(d: u8) -> (r: &'static str)
    requires
        d < 16,
    ensures
        r@ == seq![hex_char_of(d as int)],
{
    match d {
        0 => {
            proof {
                reveal_strlit("0");
                assert("0"@ =~= seq![hex_char_of(0int)]);
            }
            "0"
        },
        1 => {
            proof {
                reveal_strlit("1");
                assert("1"@ =~= seq![hex_char_of(1int)]);
            }
            "1"
        },
        2 => {
            proof {
                reveal_strlit("2");
                assert("2"@ =~= seq![hex_char_of(2int)]);
            }
            "2"
        },
        3 => {
            proof {
                reveal_strlit("3");
                assert("3"@ =~= seq![hex_char_of(3int)]);
            }
            "3"
        },
        4 => {
            proof {
                reveal_strlit("4");
                assert("4"@ =~= seq![hex_char_of(4int)]);
            }
            "4"
        },
        5 => {
            proof {
                reveal_strlit("5");
                assert("5"@ =~= seq![hex_char_of(5int)]);
            }
            "5"
        },
        6 => {
            proof {
                reveal_strlit("6");
                assert("6"@ =~= seq![hex_char_of(6int)]);
            }
            "6"
        },
        7 => {
            proof {
                reveal_strlit("7");
                assert("7"@ =~= seq![hex_char_of(7int)]);
            }
            "7"
        },
        8 => {
            proof {
                reveal_strlit("8");
                assert("8"@ =~= seq![hex_char_of(8int)]);
            }
            "8"
        },
        9 => {
            proof {
                reveal_strlit("9");
                assert("9"@ =~= seq![hex_char_of(9int)]);
            }
            "9"
        },
        10 => {
            proof {
                reveal_strlit("a");
                assert("a"@ =~= seq![hex_char_of(10int)]);
            }
            "a"
        },
        11 => {
            proof {
                reveal_strlit("b");
                assert("b"@ =~= seq![hex_char_of(11int)]);
            }
            "b"
        },
        12 => {
            proof {
                reveal_strlit("c");
                assert("c"@ =~= seq![hex_char_of(12int)]);
            }
            "c"
        },
        13 => {
            proof {
                reveal_strlit("d");
                assert("d"@ =~= seq![hex_char_of(13int)]);
            }
            "d"
        },
        14 => {
            proof {
                reveal_strlit("e");
                assert("e"@ =~= seq![hex_char_of(14int)]);
            }
            "e"
        },
        _ => {
            proof {
                reveal_strlit("f");
                assert("f"@ =~= seq![hex_char_of(15int)]);
            }
            "f"
        },
    }
}

/// Appends the `n` low hex digits of `v`, big-endian, to `out`.
fn push_hex_digits(out: &mut String, v: u32, n: u8)
    ensures
        final(out)@ == old(out)@ + hex_digits(v as int, n as nat),
    decreases n,
{
    if n == 0 {
        assert(out@ =~= old(out)@ + hex_digits(v as int, 0));
    } else {
        push_hex_digits(out, v / 16, n - 1);
        out.append(hex_digit_str((v % 16) as u8));
        assert(out@ =~= old(out)@ + hex_digits(v as int, n as nat));
    }
}

/// The value of a hex digit character, or `None` when the character is
/// not a hex digit.
fn hex_val_of(c: char) -> (r: Option<u8>)
    ensures
        r is Some <==> is_hex_digit(c),
        r is Some ==> r->Some_0 == hex_val(c) && r->Some_0 < 16,
{
    let u = c as u32;
    if 48 <= u && u <= 57 {
        Some((u - 48) as u8)
    } else if 97 <= u && u <= 102 {
        Some((u - 87) as u8)
    } else if 65 <= u && u <= 70 {
        Some((u - 55) as u8)
    } else {
        None
    }
}

impl Gene {
    /// Creates a new gene.
    pub fn new(source_id: u8, destination_id: u8, weight: u32) -> (r: Gene)
        ensures
            r == (Gene { source_id, destination_id, weight }),
    {
        Gene { source_id, destination_id, weight }
    }

    /// Returns the source id.
    pub fn source_id(&self) -> (r: u8)
        ensures
            r == self.source_id,
    {
        self.source_id
    }

    /// Returns the destination id.
    pub fn destination_id(&self) -> (r: u8)
        ensures
            r == self.destination_id,
    {
        self.destination_id
    }

    /// Returns the weight's raw bit pattern.
    pub fn weight(&self) -> (r: u32)
        ensures
            r == self.weight,
    {
        self.weight
    }

    /// Returns the hex representation of a gene.
    pub fn as_hex(&self) -> (r: String)
        ensures
            r@ == gene_hex(*self),
    {
        let mut out = String::new();
        push_hex_digits(&mut out, self.source_id as u32, 2);
        push_hex_digits(&mut out, self.destination_id as u32, 2);
        push_hex_digits(&mut out, self.weight, 8);
        proof {
            assert(out@ =~= gene_hex(*self));
        }
        out
    }

    /// Creates a new gene from a given hex string.
    ///
    /// The string must be exactly twelve hex digits; any other input is
    /// rejected with the matching [`DecodeError`].
    pub fn from_hex(hex: &str) -> (r: Result<Gene, DecodeError>)
        ensures
            r == spec_decode(hex@),
    {
        if hex.unicode_len() != GENE_HEX_WIDTH {
            return Err(DecodeError::InvalidLength);
        }
        let mut vals: Vec<u8> = Vec::new();
        let mut i: usize = 0;
        while i < GENE_HEX_WIDTH
            invariant
                hex@.len() == GENE_HEX_WIDTH,
                0 <= i <= GENE_HEX_WIDTH,
                vals@.len() == i,
                forall|j: int|
                    0 <= j < i ==> is_hex_digit(#[trigger] hex@[j]) && vals@[j] == hex_val(hex@[j])
                        && vals@[j] < 16,
            decreases GENE_HEX_WIDTH - i,
        {
            let c = hex.get_char(i);
            match hex_val_of(c) {
                Some(v) => {
                    vals.push(v);
                    proof {
                        assert forall|j: int| 0 <= j < i + 1 implies is_hex_digit(
                            #[trigger] hex@[j],
                        ) && vals@[j] == hex_val(hex@[j]) && vals@[j] < 16 by {
                            if j == i {
                                assert(hex@[j] == c);
                            }
                        }
                    }
                },
                None => {
                    proof {
                        assert(!is_hex_digit(hex@[i as int]));
                        assert(spec_decode(hex@) == Err::<Gene, DecodeError>(
                            DecodeError::InvalidDigit,
                        ));
                    }
                    return Err(DecodeError::InvalidDigit);
                },
            }
            i += 1;
        }
        proof {
            assert(vals@[0] == hex_val(hex@[0]) && vals@[0] < 16);
            assert(vals@[1] == hex_val(hex@[1]) && vals@[1] < 16);
            assert(vals@[2] == hex_val(hex@[2]) && vals@[2] < 16);
            assert(vals@[3] == hex_val(hex@[3]) && vals@[3] < 16);
        }
        let source_id: u8 = vals[0] * 16 + vals[1];
        let destination_id: u8 = vals[2] * 16 + vals[3];
        proof {
            lemma_hex_num_pair(hex@, 0);
            lemma_hex_num_pair(hex@, 2);
        }
        let mut weight: u32 = 0;
        let mut k: usize = 4;
        proof {
            assert(hex@.subrange(4, 4) =~= Seq::<char>::empty());
            assert(hex_num(Seq::<char>::empty()) == 0);
        }
        while k < GENE_HEX_WIDTH
            invariant
                hex@.len() == GENE_HEX_WIDTH,
                4 <= k <= GENE_HEX_WIDTH,
                vals@.len() == GENE_HEX_WIDTH,
                forall|j: int|
                    0 <= j < GENE_HEX_WIDTH ==> is_hex_digit(#[trigger] hex@[j]) && vals@[j]
                        == hex_val(hex@[j]) && vals@[j] < 16,
                weight == hex_num(hex@.subrange(4, k as int)),
                weight < pow16((k - 4) as nat),
            decreases GENE_HEX_WIDTH - k,
        {
            proof {
                lemma_pow16_bounds();
                lemma_pow16_mono((k + 1 - 4) as nat, 8);
                let t = hex@.subrange(4, k + 1);
                assert(t.drop_last() =~= hex@.subrange(4, k as int));
                assert(t.last() == hex@[k as int]);
                assert(hex_num(t) == hex_num(t.drop_last()) * 16 + hex_val(t.last()));
                assert(pow16(((k + 1) - 4) as nat) == 16 * pow16((k - 4) as nat));
            }
            weight = weight * 16 + (vals[k] as u32);
            k += 1;
        }
        let g = Gene { source_id, destination_id, weight };
        proof {
            lemma_pow16_bounds();
            assert(hex@.subrange(4, 12) =~= hex@.subrange(4, k as int));
            assert(!(exists|j: int| 0 <= j < hex@.len() && !is_hex_digit(hex@[j])));
            assert(spec_decode(hex@) == Ok::<Gene, DecodeError>(g));
        }
        Ok(g)
    }
}

/// The encoder emits exactly `n` characters, all of them hex digits.
proof fn lemma_hex_digits_wf(v: int, n: nat)
    requires
        0 <= v,
    ensures
        hex_digits(v, n).len() == n,
        forall|i: int| 0 <= i < n ==> is_hex_digit(#[trigger] hex_digits(v, n)[i]),
    decreases n,
{
    if n > 0 {
        lemma_hex_digits_wf(v / 16, (n - 1) as nat);
        assert(is_hex_digit(hex_char_of(v % 16)));
        assert forall|i: int| 0 <= i < n implies is_hex_digit(#[trigger] hex_digits(v, n)[i]) by {
            if i < n - 1 {
                assert(hex_digits(v, n)[i] == hex_digits(v / 16, (n - 1) as nat)[i]);
            } else {
                assert(hex_digits(v, n)[i] == hex_char_of(v % 16));
            }
        }
    }
}

/// Reading back the digits the encoder emitted recovers the value, as
/// long as the value fits in the emitted width.
proof fn lemma_hex_num_of_digits(v: int, n: nat)
    requires
        0 <= v < pow16(n),
    ensures
        hex_num(hex_digits(v, n)) == v,
    decreases n,
{
    if n > 0 {
        assert(pow16(n) == 16 * pow16((n - 1) as nat));
        assert(v / 16 < pow16((n - 1) as nat)) by (nonlinear_arith)
            requires
                0 <= v,
                v < 16 * pow16((n - 1) as nat),
        ;
        lemma_hex_num_of_digits(v / 16, (n - 1) as nat);
        let s = hex_digits(v, n);
        assert(s.drop_last() =~= hex_digits(v / 16, (n - 1) as nat));
        assert(s.last() == hex_char_of(v % 16));
        assert(hex_val(hex_char_of(v % 16)) == v % 16);
        assert(hex_num(s) == hex_num(s.drop_last()) * 16 + hex_val(s.last()));
    }
}

/// Law: the codec round-trips. Decoding the serialized form of any gene
/// gives back that gene, with the weight's bit pattern intact.
pub proof fn lemma_hex_round_trip(g: Gene)
    ensures
        spec_decode(gene_hex(g)) == Ok::<Gene, DecodeError>(g),
{
    lemma_pow16_bounds();
    let a = hex_digits(g.source_id as int, 2);
    let b = hex_digits(g.destination_id as int, 2);
    let c = hex_digits(g.weight as int, 8);
    lemma_hex_digits_wf(g.source_id as int, 2);
    lemma_hex_digits_wf(g.destination_id as int, 2);
    lemma_hex_digits_wf(g.weight as int, 8);
    lemma_hex_num_of_digits(g.source_id as int, 2);
    lemma_hex_num_of_digits(g.destination_id as int, 2);
    lemma_hex_num_of_digits(g.weight as int, 8);
    let s = gene_hex(g);
    assert(s.len() == 12);
    assert(s.subrange(0, 2) =~= a);
    assert(s.subrange(2, 4) =~= b);
    assert(s.subrange(4, 12) =~= c);
    assert forall|i: int| 0 <= i < s.len() implies is_hex_digit(#[trigger] s[i]) by {
        if i < 2 {
            assert(s[i] == a[i]);
        } else if i < 4 {
            assert(s[i] == b[i - 2]);
        } else {
            assert(s[i] == c[i - 4]);
        }
    }
    assert(spec_decode(s) == Ok::<Gene, DecodeError>(g));
}

/// Law: decoding rejects exactly the malformed inputs. A wrong length
/// yields [`DecodeError::InvalidLength`], a non-hex character at any
/// position yields [`DecodeError::InvalidDigit`], and every well-shaped
/// input decodes successfully.
pub proof fn lemma_decode_validation(s: Seq<char>)
    ensures
        s.len() != GENE_HEX_WIDTH ==> spec_decode(s) == Err::<Gene, DecodeError>(
            DecodeError::InvalidLength,
        ),
        s.len() == GENE_HEX_WIDTH && (exists|i: int| 0 <= i < s.len() && !is_hex_digit(s[i]))
            ==> spec_decode(s) == Err::<Gene, DecodeError>(DecodeError::InvalidDigit),
        s.len() == GENE_HEX_WIDTH && (forall|i: int| 0 <= i < s.len() ==> is_hex_digit(s[i]))
            ==> spec_decode(s) is Ok,
{
}

/// Sixteen to a power is positive and increases with the exponent.
proof fn lemma_pow16_mono(m: nat, n: nat)
    requires
        m <= n,
    ensures
        1 <= pow16(m) <= pow16(n),
    decreases n,
{
    if m < n {
        lemma_pow16_mono(m, (n - 1) as nat);
    } else {
        lemma_pow16_mono_pos(m);
    }
}

/// Sixteen to a power is at least one.
proof fn lemma_pow16_mono_pos(n: nat)
    ensures
        1 <= pow16(n),
    decreases n,
{
    if n > 0 {
        lemma_pow16_mono_pos((n - 1) as nat);
    }
}

/// `hex_num` of the two digits starting at `at`, written out.
proof fn lemma_hex_num_pair(s: Seq<char>, at: int)
    requires
        0 <= at,
        at + 2 <= s.len(),
    ensures
        hex_num(s.subrange(at, at + 2)) == hex_val(s[at]) * 16 + hex_val(s[at + 1]),
{
    let t = s.subrange(at, at + 2);
    let t1 = s.subrange(at, at + 1);
    assert(t.drop_last() =~= t1);
    assert(t1.drop_last() =~= Seq::<char>::empty());
    assert(hex_num(Seq::<char>::empty()) == 0);
    assert(t1.last() == s[at]);
    assert(t.last() == s[at + 1]);
    assert(hex_num(t1) == hex_num(t1.drop_last()) * 16 + hex_val(t1.last()));
    assert(hex_num(t) == hex_num(t.drop_last()) * 16 + hex_val(t.last()));
}

/// The small powers of sixteen that the codec leans on, written out.
proof fn lemma_pow16_bounds()
    ensures
        pow16(0) == 1,
        pow16(1) == 16,
        pow16(2) == 256,
        pow16(3) == 4096,
        pow16(4) == 65536,
        pow16(5) == 1048576,
        pow16(6) == 16777216,
        pow16(7) == 268435456,
        pow16(8) == 4294967296,
{
    reveal_with_fuel(pow16, 9);
}

} // verus!
