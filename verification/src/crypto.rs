//! Hashed keys and salts, and the bytes that they are hashes of.

use crate::types::{Address, Bytes32};
use soroban_sdk::Env;
use vstd::prelude::*;

verus! {

// ---------------------------------------------------------------------------
// The host's hash function
// ---------------------------------------------------------------------------

/// The host environment of a contract.
#[verifier::external_type_specification]
#[verifier::external_body]
pub struct ExEnv(soroban_sdk::Env);

/// The SHA-256 hash of a message.
pub uninterp spec fn sha256_of(message: Seq<u8>) -> Seq<u8>;

/// The longest message that is hashed here.
pub const MAX_MESSAGE: usize = 1024;

/// Calls `soroban_sdk::crypto::Crypto::sha256`, which hands the message to the
/// host and gives the 32 bytes of its SHA-256 hash: the same message always has
/// the same hash, whatever the environment.  What the hash is of a given message
/// is left unsaid, and so is that a host whose budget is used up ends the call.
#[verifier::external_body]
fn sha256(env: &Env, message: &Vec<u8>) -> (r: [u8; 32])
    requires
        message@.len() <= MAX_MESSAGE,
    ensures
        r@ == sha256_of(message@),
{
    let bytes = soroban_sdk::Bytes::from_slice(env, message);
    env.crypto().sha256(&bytes).to_array()
}

// ---------------------------------------------------------------------------
// Numbers as bytes
// ---------------------------------------------------------------------------

/// The `n` low bytes of a number, most significant first.
pub open spec fn big_endian(x: nat, n: nat) -> Seq<u8>
    decreases n,
{
    if n == 0 {
        Seq::empty()
    } else {
        big_endian(x / 256, (n - 1) as nat).push((x % 256) as u8)
    }
}

/// The number that bytes stand for, most significant first.
pub open spec fn big_endian_value(bytes: Seq<u8>) -> nat
    decreases bytes.len(),
{
    if bytes.len() == 0 {
        0
    } else {
        big_endian_value(bytes.drop_last()) * 256 + bytes.last() as nat
    }
}

/// 256 to a power.
pub open spec fn power_of_256(n: nat) -> nat
    decreases n,
{
    if n == 0 {
        1
    } else {
        256 * power_of_256((n - 1) as nat)
    }
}

proof fn lemma_sixteen_bytes()
    ensures
        power_of_256(16) == 0x1_0000_0000_0000_0000_0000_0000_0000_0000,
{
    reveal_with_fuel(power_of_256, 17);
}

proof fn lemma_power_grows(a: nat, b: nat)
    requires
        a <= b,
    ensures
        power_of_256(a) <= power_of_256(b),
    decreases b,
{
    if a < b {
        lemma_power_grows(a, (b - 1) as nat);
    }
}

/// Appends the `n` low bytes of a number, most significant first.
fn push_big_endian(out: &mut Vec<u8>, x: u128, n: u32)
    ensures
        final(out)@ == old(out)@ + big_endian(x as nat, n as nat),
    decreases n,
{
    if n == 0 {
        assert(out@ + Seq::<u8>::empty() =~= out@);
    } else {
        push_big_endian(out, x / 256, n - 1);
        out.push((x % 256) as u8);
        assert(out@ =~= old(out)@ + big_endian(x as nat, n as nat));
    }
}

/// The number that sixteen bytes of a hash stand for, from a place on.
fn word_at(bytes: &[u8; 32], start: usize) -> (r: u128)
    requires
        start <= 16,
    ensures
        r == big_endian_value(bytes@.subrange(start as int, start + 16)),
{
    let mut word: u128 = 0;
    let mut i: usize = 0;
    while i < 16
        invariant
            i <= 16,
            start <= 16,
            word == big_endian_value(bytes@.subrange(start as int, start + i)),
            word < power_of_256(i as nat),
        decreases 16 - i,
    {
        proof {
            lemma_sixteen_bytes();
            lemma_power_grows((i + 1) as nat, 16);
            let part = bytes@.subrange(start as int, start + i + 1);
            assert(part.drop_last() =~= bytes@.subrange(start as int, start + i));
            assert(part.last() == bytes@[start + i]);
        }
        word = word * 256 + bytes[start + i] as u128;
        i = i + 1;
    }
    word
}

/// The hash as a pair of words.
pub open spec fn as_bytes32(bytes: Seq<u8>) -> Bytes32 {
    Bytes32 {
        hi: big_endian_value(bytes.subrange(0, 16)) as u128,
        lo: big_endian_value(bytes.subrange(16, 32)) as u128,
    }
}

/// The hash of a message, as a pair of words.
pub open spec fn hash32(message: Seq<u8>) -> Bytes32 {
    as_bytes32(sha256_of(message))
}

/// Hashes a message.
fn hash(env: &Env, message: &Vec<u8>) -> (r: Bytes32)
    requires
        message@.len() <= MAX_MESSAGE,
    ensures
        r == hash32(message@),
{
    let digest = sha256(env, message);
    Bytes32 { hi: word_at(&digest, 0), lo: word_at(&digest, 16) }
}

// ---------------------------------------------------------------------------
// Addresses as text
// ---------------------------------------------------------------------------

/// The 56 characters of an address.
pub open spec fn strkey(a: Address) -> Seq<u8> {
    big_endian(a.head as nat, 16) + big_endian(a.body as nat, 16) + big_endian(a.tail as nat, 16)
        + big_endian(a.last as nat, 8)
}

proof fn lemma_big_endian_length(x: nat, n: nat)
    ensures
        big_endian(x, n).len() == n,
    decreases n,
{
    if n > 0 {
        lemma_big_endian_length(x / 256, (n - 1) as nat);
    }
}

/// An address has 56 characters.
pub proof fn strkey_length(a: Address)
    ensures
        strkey(a).len() == 56,
{
    lemma_big_endian_length(a.head as nat, 16);
    lemma_big_endian_length(a.body as nat, 16);
    lemma_big_endian_length(a.tail as nat, 16);
    lemma_big_endian_length(a.last as nat, 8);
}

/// Appends the characters of an address.
fn push_strkey(out: &mut Vec<u8>, a: &Address)
    ensures
        final(out)@ == old(out)@ + strkey(*a),
{
    push_big_endian(out, a.head, 16);
    push_big_endian(out, a.body, 16);
    push_big_endian(out, a.tail, 16);
    push_big_endian(out, a.last as u128, 8);
    assert(out@ =~= old(out)@ + strkey(*a));
}

// ---------------------------------------------------------------------------
// Tags
// ---------------------------------------------------------------------------

/// The bytes of `ORDER_EXPIRY_LEDGERS`.
pub open spec fn order_expiry_tag() -> Seq<u8> {
    seq![
        79u8, 82, 68, 69, 82, 95, 69, 88, 80, 73, 82, 89, 95, 76, 69, 68, 71, 69,
        82, 83,
    ]
}

/// The bytes of `INSURANCE_FUND_ADDRESS`.
pub open spec fn fund_address_tag() -> Seq<u8> {
    seq![
        73u8, 78, 83, 85, 82, 65, 78, 67, 69, 95, 70, 85, 78, 68, 95, 65, 68, 68,
        82, 69, 83, 83,
    ]
}

/// The bytes of `INSURANCE_FUND_ALLOCATION_BPS`.
pub open spec fn fund_allocation_tag() -> Seq<u8> {
    seq![
        73u8, 78, 83, 85, 82, 65, 78, 67, 69, 95, 70, 85, 78, 68, 95, 65, 76, 76,
        79, 67, 65, 84, 73, 79, 78, 95, 66, 80, 83,
    ]
}

/// The bytes of `GMX_MARKET`.
pub open spec fn market_tag() -> Seq<u8> {
    seq![
        71u8, 77, 88, 95, 77, 65, 82, 75, 69, 84,
    ]
}

fn make_order_expiry_tag() -> (r: Vec<u8>)
    ensures
        r@ == order_expiry_tag(),
{
    let r: Vec<u8> = vec![
        79u8, 82, 68, 69, 82, 95, 69, 88, 80, 73, 82, 89, 95, 76, 69, 68, 71, 69,
        82, 83,
    ];
    assert(r@ =~= order_expiry_tag());
    r
}

fn make_fund_address_tag() -> (r: Vec<u8>)
    ensures
        r@ == fund_address_tag(),
{
    let r: Vec<u8> = vec![
        73u8, 78, 83, 85, 82, 65, 78, 67, 69, 95, 70, 85, 78, 68, 95, 65, 68, 68,
        82, 69, 83, 83,
    ];
    assert(r@ =~= fund_address_tag());
    r
}

fn make_fund_allocation_tag() -> (r: Vec<u8>)
    ensures
        r@ == fund_allocation_tag(),
{
    let r: Vec<u8> = vec![
        73u8, 78, 83, 85, 82, 65, 78, 67, 69, 95, 70, 85, 78, 68, 95, 65, 76, 76,
        79, 67, 65, 84, 73, 79, 78, 95, 66, 80, 83,
    ];
    assert(r@ =~= fund_allocation_tag());
    r
}

fn make_market_tag() -> (r: Vec<u8>)
    ensures
        r@ == market_tag(),
{
    let r: Vec<u8> = vec![
        71u8, 77, 88, 95, 77, 65, 82, 75, 69, 84,
    ];
    assert(r@ =~= market_tag());
    r
}

// ---------------------------------------------------------------------------
// Keys and salts
// ---------------------------------------------------------------------------

/// What the key of an order type's expiry is the hash of: the tag and the code
/// of the type.
pub open spec fn order_expiry_message(code: u8) -> Seq<u8> {
    order_expiry_tag().push(code)
}

/// The key of an order type's expiry.
pub(crate) fn order_expiry_hash(env: &Env, code: u8) -> (r: Bytes32)
    ensures
        r == hash32(order_expiry_message(code)),
{
    let mut message = make_order_expiry_tag();
    message.push(code);
    hash(env, &message)
}

/// What a key that belongs to an address is the hash of: the tag and the
/// characters of the address.
pub open spec fn keyed_message(tag: Seq<u8>, a: Address) -> Seq<u8> {
    tag + strkey(a)
}

fn keyed_address(env: &Env, tag: Vec<u8>, a: &Address) -> (r: Bytes32)
    requires
        tag@.len() <= 64,
    ensures
        r == hash32(keyed_message(tag@, *a)),
{
    let mut message = tag;
    push_strkey(&mut message, a);
    proof {
        strkey_length(*a);
    }
    hash(env, &message)
}

/// The key of a market's insurance fund.
pub(crate) fn fund_address_hash(env: &Env, market: &Address) -> (r: Bytes32)
    ensures
        r == hash32(keyed_message(fund_address_tag(), *market)),
{
    keyed_address(env, make_fund_address_tag(), market)
}

/// The key of the part of a market's penalties that its insurance fund gets.
pub(crate) fn fund_allocation_hash(env: &Env, market: &Address) -> (r: Bytes32)
    ensures
        r == hash32(keyed_message(fund_allocation_tag(), *market)),
{
    keyed_address(env, make_fund_allocation_tag(), market)
}

/// Bytes with their length before them, in two bytes.
pub open spec fn length_prefixed(bytes: Seq<u8>) -> Seq<u8> {
    big_endian(bytes.len(), 2) + bytes
}

/// What the salt of a market is the hash of: the tag and the three tokens, each
/// with its length before it, and the market type.
pub open spec fn market_salt_message(
    index_token: Address,
    long_token: Address,
    short_token: Address,
    market_type: Bytes32,
) -> Seq<u8> {
    length_prefixed(market_tag()) + length_prefixed(strkey(index_token)) + length_prefixed(
        strkey(long_token),
    ) + length_prefixed(strkey(short_token)) + big_endian(market_type.hi as nat, 16) + big_endian(
        market_type.lo as nat,
        16,
    )
}

fn push_token(out: &mut Vec<u8>, token: &Address)
    ensures
        final(out)@ == old(out)@ + length_prefixed(strkey(*token)),
{
    proof {
        strkey_length(*token);
    }
    push_big_endian(out, 56, 2);
    push_strkey(out, token);
    assert(out@ =~= old(out)@ + length_prefixed(strkey(*token)));
}

/// The salt under which a market's pool-share token is deployed.
pub(crate) fn market_salt(
    env: &Env,
    index_token: &Address,
    long_token: &Address,
    short_token: &Address,
    market_type: &Bytes32,
) -> (r: Bytes32)
    ensures
        r == hash32(
            market_salt_message(*index_token, *long_token, *short_token, *market_type),
        ),
{
    let mut message: Vec<u8> = Vec::new();
    let mut tag = make_market_tag();
    push_big_endian(&mut message, 10, 2);
    message.append(&mut tag);
    assert(message@ =~= length_prefixed(market_tag()));
    push_token(&mut message, index_token);
    push_token(&mut message, long_token);
    push_token(&mut message, short_token);
    push_big_endian(&mut message, market_type.hi, 16);
    push_big_endian(&mut message, market_type.lo, 16);
    proof {
        strkey_length(*index_token);
        strkey_length(*long_token);
        strkey_length(*short_token);
        lemma_big_endian_length(10, 2);
        lemma_big_endian_length(56, 2);
        lemma_big_endian_length(market_type.hi as nat, 16);
        lemma_big_endian_length(market_type.lo as nat, 16);
    }
    hash(env, &message)
}

// ---------------------------------------------------------------------------
// Laws
// ---------------------------------------------------------------------------

/// Reading back the bytes of a number that they can hold gives the number.
pub proof fn big_endian_round_trip(x: nat, n: nat)
    requires
        x < power_of_256(n),
    ensures
        big_endian_value(big_endian(x, n)) == x,
    decreases n,
{
    if n > 0 {
        let head = big_endian(x / 256, (n - 1) as nat);
        assert(big_endian(x, n).drop_last() =~= head);
        big_endian_round_trip(x / 256, (n - 1) as nat);
    }
}

proof fn lemma_big_endian_is_injective(x: nat, y: nat, n: nat)
    requires
        x < power_of_256(n),
        y < power_of_256(n),
        big_endian(x, n) == big_endian(y, n),
    ensures
        x == y,
{
    big_endian_round_trip(x, n);
    big_endian_round_trip(y, n);
}

/// Two addresses with the same characters are the same.
pub proof fn strkey_is_injective(a: Address, b: Address)
    requires
        strkey(a) == strkey(b),
    ensures
        a == b,
{
    lemma_sixteen_bytes();
    reveal_with_fuel(power_of_256, 9);
    assert forall|c: Address|
        #![trigger strkey(c)]
        strkey(c).subrange(0, 16) == big_endian(c.head as nat, 16) && strkey(c).subrange(16, 32)
            == big_endian(c.body as nat, 16) && strkey(c).subrange(32, 48) == big_endian(
            c.tail as nat,
            16,
        ) && strkey(c).subrange(48, 56) == big_endian(c.last as nat, 8) by {
        lemma_big_endian_length(c.head as nat, 16);
        lemma_big_endian_length(c.body as nat, 16);
        lemma_big_endian_length(c.tail as nat, 16);
        lemma_big_endian_length(c.last as nat, 8);
        assert(strkey(c).subrange(0, 16) =~= big_endian(c.head as nat, 16));
        assert(strkey(c).subrange(16, 32) =~= big_endian(c.body as nat, 16));
        assert(strkey(c).subrange(32, 48) =~= big_endian(c.tail as nat, 16));
        assert(strkey(c).subrange(48, 56) =~= big_endian(c.last as nat, 8));
    }
    lemma_big_endian_is_injective(a.head as nat, b.head as nat, 16);
    lemma_big_endian_is_injective(a.body as nat, b.body as nat, 16);
    lemma_big_endian_is_injective(a.tail as nat, b.tail as nat, 16);
    lemma_big_endian_is_injective(a.last as nat, b.last as nat, 8);
}

/// Under one tag, different addresses are hashed as different messages.
pub proof fn keyed_message_is_injective(tag: Seq<u8>, a: Address, b: Address)
    requires
        keyed_message(tag, a) == keyed_message(tag, b),
    ensures
        a == b,
{
    strkey_length(a);
    strkey_length(b);
    let n = tag.len() as int;
    assert(keyed_message(tag, a).subrange(n, n + 56) =~= strkey(a));
    assert(keyed_message(tag, b).subrange(n, n + 56) =~= strkey(b));
    strkey_is_injective(a, b);
}

proof fn lemma_salt_parts(
    index_token: Address,
    long_token: Address,
    short_token: Address,
    market_type: Bytes32,
)
    ensures
        ({
            let m = market_salt_message(index_token, long_token, short_token, market_type);
            &&& m.subrange(14, 70) == strkey(index_token)
            &&& m.subrange(72, 128) == strkey(long_token)
            &&& m.subrange(130, 186) == strkey(short_token)
            &&& m.subrange(186, 202) == big_endian(market_type.hi as nat, 16)
            &&& m.subrange(202, 218) == big_endian(market_type.lo as nat, 16)
        }),
{
    strkey_length(index_token);
    strkey_length(long_token);
    strkey_length(short_token);
    lemma_big_endian_length(10, 2);
    lemma_big_endian_length(56, 2);
    lemma_big_endian_length(market_type.hi as nat, 16);
    lemma_big_endian_length(market_type.lo as nat, 16);
    let m = market_salt_message(index_token, long_token, short_token, market_type);
    assert(m.subrange(14, 70) =~= strkey(index_token));
    assert(m.subrange(72, 128) =~= strkey(long_token));
    assert(m.subrange(130, 186) =~= strkey(short_token));
    assert(m.subrange(186, 202) =~= big_endian(market_type.hi as nat, 16));
    assert(m.subrange(202, 218) =~= big_endian(market_type.lo as nat, 16));
}

/// Markets that differ in a token or in their type are hashed as different
/// messages.
pub proof fn market_salt_message_is_injective(
    index_a: Address,
    long_a: Address,
    short_a: Address,
    type_a: Bytes32,
    index_b: Address,
    long_b: Address,
    short_b: Address,
    type_b: Bytes32,
)
    requires
        market_salt_message(index_a, long_a, short_a, type_a) == market_salt_message(
            index_b,
            long_b,
            short_b,
            type_b,
        ),
    ensures
        index_a == index_b,
        long_a == long_b,
        short_a == short_b,
        type_a == type_b,
{
    lemma_salt_parts(index_a, long_a, short_a, type_a);
    lemma_salt_parts(index_b, long_b, short_b, type_b);
    strkey_is_injective(index_a, index_b);
    strkey_is_injective(long_a, long_b);
    strkey_is_injective(short_a, short_b);
    lemma_sixteen_bytes();
    lemma_big_endian_is_injective(type_a.hi as nat, type_b.hi as nat, 16);
    lemma_big_endian_is_injective(type_a.lo as nat, type_b.lo as nat, 16);
}

} // verus!
