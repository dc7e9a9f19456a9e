use vstd::prelude::*;

verus! {

/// The ASCII code of the lowercase hexadecimal digit for `n`.
pub open spec fn hex_digit(n: u8) -> u8
    recommends
        n < 16,
{
    if n < 10 {
        (48 + n) as u8
    } else {
        (87 + n) as u8
    }
}

/// Computes the ASCII code of the lowercase hexadecimal digit for `n`.
pub fn hex_digit_char(n: u8) -> (r: u8)
    requires
        n < 16,
    ensures
        r == hex_digit(n),
{
    if n < 10 {
        48 + n
    } else {
        87 + n
    }
}

/// The lowercase hexadecimal spelling of a byte string, two digits per byte.
pub open spec fn bytes_hex(s: Seq<u8>) -> Seq<u8>
    decreases s.len(),
{
    if s.len() == 0 {
        Seq::empty()
    } else {
        bytes_hex(s.drop_last()) + seq![hex_digit(s.last() / 16), hex_digit(s.last() % 16)]
    }
}

/// Spells a byte string in lowercase hexadecimal, two digits per byte.
pub fn hex_of_bytes(v: &Vec<u8>) -> (r: Vec<u8>)
    ensures
        r@ == bytes_hex(v@),
{
    let mut r: Vec<u8> = Vec::new();
    #[verifier::loop_isolation(false)]
    for i in 0..v.len()
        invariant
            r@ == bytes_hex(v@.take(i as int)),
    {
        let b = v[i];
        r.push(hex_digit_char(b / 16));
        r.push(hex_digit_char(b % 16));
        proof {
            assert(v@.take(i + 1).drop_last() =~= v@.take(i as int));
            assert(v@.take(i + 1).last() == v@[i as int]);
            assert(r@ =~= bytes_hex(v@.take(i as int)) + seq![
                hex_digit(v@[i as int] / 16),
                hex_digit(v@[i as int] % 16),
            ]);
        }
    }
    proof {
        assert(v@.take(v@.len() as int) =~= v@);
    }
    r
}

/// The minimal lowercase hexadecimal digits of `n`: empty for zero, no
/// leading zero digit otherwise.
pub open spec fn u64_hex_min(n: u64) -> Seq<u8>
    decreases n,
{
    if n == 0 {
        Seq::empty()
    } else {
        u64_hex_min((n / 16) as u64) + seq![hex_digit((n % 16) as u8)]
    }
}

/// The block tag an execution JSON-RPC endpoint expects: the prefix "0x"
/// followed by the minimal hexadecimal digits of the block number, with
/// "0x0" for block zero.
pub open spec fn block_tag_spec(n: u64) -> Seq<u8> {
    if n == 0 {
        seq![48u8, 120u8, 48u8]
    } else {
        seq![48u8, 120u8] + u64_hex_min(n)
    }
}

/// Appends the minimal hexadecimal digits of `n` to `v`.
fn push_u64_hex(v: &mut Vec<u8>, n: u64)
    requires
        n > 0,
    ensures
        final(v)@ == old(v)@ + u64_hex_min(n),
    decreases n,
{
    if n >= 16 {
        push_u64_hex(v, n / 16);
    }
    v.push(hex_digit_char((n % 16) as u8));
    proof {
        reveal_with_fuel(u64_hex_min, 2);
        assert(v@ =~= old(v)@ + u64_hex_min(n));
    }
}

/// Formats a block number as the block tag an execution JSON-RPC endpoint
/// expects.
pub fn block_tag(n: u64) -> (r: Vec<u8>)
    ensures
        r@ == block_tag_spec(n),
{
    let mut r: Vec<u8> = Vec::new();
    r.push(48);
    r.push(120);
    if n == 0 {
        r.push(48);
    } else {
        push_u64_hex(&mut r, n);
    }
    proof {
        assert(r@ =~= block_tag_spec(n));
    }
    r
}

} // verus!
