//! Small byte- and string-level helpers shared by the codec and the stores.
use vstd::prelude::*;

verus! {

/// Bytewise equality of two 32-byte hashes.
pub fn hash_eq(a: &[u8; 32], b: &[u8; 32]) -> (r: bool)
    ensures
        r == (a@ == b@),
{
    let mut i: usize = 0;
    while i < 32
        invariant
            i <= 32,
            forall|j: int| 0 <= j < i ==> a@[j] == b@[j],
        decreases 32 - i,
    {
        if a[i] != b[i] {
            assert(a@ != b@);
            return false;
        }
        i += 1;
    }
    assert(a@ =~= b@);
    true
}

/// Relies on `String::push`: appends exactly the one character.
#[verifier::external_body]
pub fn push_char(s: &mut String, c: char)
    ensures
        final(s)@ == old(s)@.push(c),
{
    s.push(c)
}

/// The lowercase hexadecimal digits.
pub const HEX_DIGITS: [char; 16] = ['0', '1', '2', '3', '4', '5', '6', '7', '8', '9', 'a', 'b', 'c', 'd', 'e', 'f'];

/// The lowercase hexadecimal encoding of a byte sequence: two digits per
/// byte, high nibble first.
pub open spec fn spec_hex(data: Seq<u8>) -> Seq<char>
    decreases data.len(),
{
    if data.len() == 0 {
        Seq::empty()
    } else {
        seq![
            HEX_DIGITS@[(data.first() >> 4) as int],
            HEX_DIGITS@[(data.first() & 0x0f) as int],
        ] + spec_hex(data.drop_first())
    }
}

proof fn lemma_spec_hex_take(data: Seq<u8>, i: int)
    requires
        0 <= i < data.len(),
    ensures
        spec_hex(data.take(i + 1)) == spec_hex(data.take(i)) + seq![
            HEX_DIGITS@[(data[i] >> 4) as int],
            HEX_DIGITS@[(data[i] & 0x0f) as int],
        ],
    decreases i,
{
    if i == 0 {
        reveal_with_fuel(spec_hex, 3);
        assert(data.take(1).first() == data[0]);
        assert(data.take(1).drop_first() =~= Seq::<u8>::empty());
        assert(data.take(0) =~= Seq::<u8>::empty());
        assert(spec_hex(data.take(1)) =~= spec_hex(data.take(0)) + seq![
            HEX_DIGITS@[(data[0] >> 4) as int],
            HEX_DIGITS@[(data[0] & 0x0f) as int],
        ]);
    } else {
        lemma_spec_hex_take(data.drop_first(), i - 1);
        assert(data.take(i + 1).first() == data[0]);
        assert(data.take(i + 1).drop_first() =~= data.drop_first().take(i));
        assert(data.take(i).first() == data[0]);
        assert(data.take(i).drop_first() =~= data.drop_first().take(i - 1));
        assert(data.drop_first()[i - 1] == data[i]);
        assert(spec_hex(data.take(i + 1)) =~= spec_hex(data.take(i)) + seq![
            HEX_DIGITS@[(data[i] >> 4) as int],
            HEX_DIGITS@[(data[i] & 0x0f) as int],
        ]);
    }
}

/// Encode bytes as lowercase hexadecimal.
#[verifier::loop_isolation(false)]
pub fn encode_hex(data: &[u8]) -> (r: String)
    ensures
        r@ == spec_hex(data@),
{
    let mut out = String::new();
    let mut i: usize = 0;
    proof {
        assert(data@.take(0) =~= Seq::<u8>::empty());
    }
    while i < data.len()
        invariant
            i <= data@.len(),
            out@ == spec_hex(data@.take(i as int)),
        decreases data@.len() - i,
    {
        let b = data[i];
        let hi = (b >> 4) as usize;
        let lo = (b & 0x0f) as usize;
        proof {
            assert((b >> 4) < 16 && (b & 0x0f) < 16) by (bit_vector);
        }
        push_char(&mut out, HEX_DIGITS[hi]);
        push_char(&mut out, HEX_DIGITS[lo]);
        proof {
            lemma_spec_hex_take(data@, i as int);
            assert(out@ =~= spec_hex(data@.take(i + 1 as int)));
        }
        i += 1;
    }
    proof {
        assert(data@.take(data@.len() as int) =~= data@);
    }
    out
}

/// The decimal digits.
pub const DEC_DIGITS: [char; 10] = ['0', '1', '2', '3', '4', '5', '6', '7', '8', '9'];

/// The decimal rendering of a natural number, most significant digit first,
/// with no leading zeros (a lone zero for zero).
pub open spec fn spec_dec(n: nat) -> Seq<char>
    decreases n,
{
    if n < 10 {
        seq![DEC_DIGITS@[n as int]]
    } else {
        spec_dec(n / 10).push(DEC_DIGITS@[(n % 10) as int])
    }
}

/// Render a number in decimal.
pub fn u64_to_dec(n: u64) -> (r: String)
    ensures
        r@ == spec_dec(n as nat),
    decreases n,
{
    if n < 10 {
        let mut s = String::new();
        push_char(&mut s, DEC_DIGITS[n as usize]);
        proof {
            assert(s@ =~= spec_dec(n as nat));
        }
        s
    } else {
        let mut s = u64_to_dec(n / 10);
        push_char(&mut s, DEC_DIGITS[(n % 10) as usize]);
        s
    }
}

/// String equality over contents.
pub fn str_eq(a: &str, b: &str) -> (r: bool)
    ensures
        r == (a@ == b@),
{
    let sa = a.to_owned();
    let sb = b.to_owned();
    sa == sb
}

} // verus!
