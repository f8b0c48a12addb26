//! Decimal and hexadecimal rendering of integers, and the FNV-1a content hash.
use vstd::prelude::*;

verus! {

pub open spec fn digit_char(d: nat) -> char {
    (48 + d) as char
}

/// Decimal digits of a natural number, most significant first, no leading zeros.
pub open spec fn dec_digits(n: nat) -> Seq<char>
    decreases n,
{
    if n < 10 {
        seq![digit_char(n)]
    } else {
        dec_digits(n / 10).push(digit_char(n % 10))
    }
}

pub open spec fn abs(n: int) -> nat {
    if n < 0 {
        (-n) as nat
    } else {
        n as nat
    }
}

/// `format!("{n}")` for a signed integer.
pub open spec fn int_text(n: int) -> Seq<char> {
    if n < 0 {
        seq!['-'] + dec_digits(abs(n))
    } else {
        dec_digits(abs(n))
    }
}

pub open spec fn zeros(k: nat) -> Seq<char> {
    Seq::new(k, |i: int| '0')
}

/// `format!("{n:0width$}")`: the sign, then zeros up to `width` characters in
/// all, then the digits.
pub open spec fn int_text_padded(n: int, width: nat) -> Seq<char> {
    let d = dec_digits(abs(n));
    let sign: nat = if n < 0 { 1 } else { 0 };
    let body = if d.len() + sign < width {
        zeros((width - d.len() - sign) as nat) + d
    } else {
        d
    };
    if n < 0 {
        seq!['-'] + body
    } else {
        body
    }
}

pub proof fn lemma_dec_digits_nonempty(n: nat)
    ensures
        dec_digits(n).len() >= 1,
    decreases n,
{
    if n >= 10 {
        lemma_dec_digits_nonempty(n / 10);
    }
}

pub fn push_dec(out: &mut Vec<char>, n: u64)
    ensures
        final(out)@ == old(out)@ + dec_digits(n as nat),
    decreases n,
{
    if n >= 10 {
        push_dec(out, n / 10);
    }
    let d = (n % 10) as u8;
    out.push((48u8 + d) as char);
    proof {
        if n >= 10 {
            assert(final(out)@ =~= old(out)@ + dec_digits(n as nat));
        } else {
            assert(final(out)@ =~= old(out)@ + dec_digits(n as nat));
        }
    }
}

fn magnitude(n: i64) -> (r: u64)
    ensures
        r as nat == abs(n as int),
{
    if n < 0 {
        ((-(n + 1)) as u64) + 1
    } else {
        n as u64
    }
}

/// Appends `format!("{n}")`.
pub fn push_int(out: &mut Vec<char>, n: i64)
    ensures
        final(out)@ == old(out)@ + int_text(n as int),
{
    if n < 0 {
        out.push('-');
    }
    let m = magnitude(n);
    push_dec(out, m);
    assert(final(out)@ =~= old(out)@ + int_text(n as int));
}

/// Appends `format!("{n:0width$}")`.
pub fn push_int_padded(out: &mut Vec<char>, n: i64, width: usize)
    ensures
        final(out)@ == old(out)@ + int_text_padded(n as int, width as nat),
{
    let m = magnitude(n);
    let mut d: Vec<char> = Vec::new();
    push_dec(&mut d, m);
    assert(d@ =~= dec_digits(abs(n as int)));
    if n < 0 {
        out.push('-');
    }
    let sign: usize = if n < 0 { 1 } else { 0 };
    proof {
        lemma_dec_digits_nonempty(abs(n as int));
    }
    if d.len() < width && d.len() + sign < width {
        let k = width - d.len() - sign;
        let mut z: usize = 0;
        let ghost before = out@;
        while z < k
            invariant
                z <= k,
                out@ == before + zeros(z as nat),
            decreases k - z,
        {
            out.push('0');
            assert(zeros(z as nat + 1) =~= zeros(z as nat).push('0'));
            z = z + 1;
        }
    }
    let ghost mid = out@;
    let mut i: usize = 0;
    while i < d.len()
        invariant
            i <= d.len(),
            out@ == mid + d@.take(i as int),
        decreases d.len() - i,
    {
        out.push(d[i]);
        assert(d@.take(i as int + 1) =~= d@.take(i as int).push(d@[i as int]));
        i = i + 1;
    }
    assert(d@.take(d.len() as int) =~= d@);
    assert(final(out)@ =~= old(out)@ + int_text_padded(n as int, width as nat));
}

pub open spec fn hex_char(d: nat) -> char {
    if d < 10 {
        (48 + d) as char
    } else {
        (87 + d) as char
    }
}

/// The lowest `count` hexadecimal digits of `n`, lower case, most significant
/// first.
pub open spec fn hex_digits(n: nat, count: nat) -> Seq<char>
    decreases count,
{
    if count == 0 {
        Seq::empty()
    } else {
        hex_digits(n / 16, (count - 1) as nat).push(hex_char(n % 16))
    }
}

pub fn push_hex(out: &mut Vec<char>, n: u64, count: usize)
    ensures
        final(out)@ == old(out)@ + hex_digits(n as nat, count as nat),
    decreases count,
{
    if count == 0 {
        assert(final(out)@ =~= old(out)@ + hex_digits(n as nat, count as nat));
        return ;
    }
    push_hex(out, n / 16, count - 1);
    let d = (n % 16) as u8;
    if d < 10 {
        out.push((48u8 + d) as char);
    } else {
        out.push((87u8 + d) as char);
    }
    assert(final(out)@ =~= old(out)@ + hex_digits(n as nat, count as nat));
}

/// `format!("{hash:016x}")`.
pub fn hex16(n: u64) -> (r: String)
    ensures
        r@ == hex_digits(n as nat, 16),
{
    let mut v: Vec<char> = Vec::new();
    push_hex(&mut v, n, 16);
    assert(v@ =~= hex_digits(n as nat, 16));
    crate::text::string_of(&v)
}

pub open spec fn fnv_offset() -> u64 {
    0xcbf2_9ce4_8422_2325
}

pub open spec fn fnv_prime() -> u64 {
    0x0000_0100_0000_01b3
}

/// 64-bit FNV-1a over a byte sequence.
pub open spec fn fnv1a(bytes: Seq<u8>) -> u64
    decreases bytes.len(),
{
    if bytes.len() == 0 {
        fnv_offset()
    } else {
        vstd::wrapping::u64_specs::wrapping_mul(
            fnv1a(bytes.drop_last()) ^ (bytes.last() as u64),
            fnv_prime(),
        )
    }
}

pub fn fnv1a_bytes(bytes: &[u8]) -> (r: u64)
    ensures
        r == fnv1a(bytes@),
{
    let mut hash: u64 = 0xcbf2_9ce4_8422_2325;
    let mut i: usize = 0;
    while i < bytes.len()
        invariant
            i <= bytes.len(),
            hash == fnv1a(bytes@.take(i as int)),
        decreases bytes.len() - i,
    {
        let ghost t = bytes@.take(i as int + 1);
        assert(t.drop_last() =~= bytes@.take(i as int));
        hash = hash ^ (bytes[i] as u64);
        hash = hash.wrapping_mul(0x0000_0100_0000_01b3);
        i = i + 1;
    }
    assert(bytes@.take(bytes.len() as int) =~= bytes@);
    hash
}

/// The FNV-1a hash of the bytes as sixteen
/// lower-case hex digits.
pub fn hash_bytes(bytes: &[u8]) -> (r: String)
    ensures
        r@ == hex_digits(fnv1a(bytes@) as nat, 16),
{
    let h = fnv1a_bytes(bytes);
    hex16(h)
}

/// `prompt_text_hash`: the FNV-1a hash of the UTF-8 encoding of a prompt.
pub fn prompt_text_hash(prompt_text: &str) -> (r: String)
    ensures
        r@ == hex_digits(fnv1a(vstd::utf8::encode_utf8(prompt_text@)) as nat, 16),
{
    hash_bytes(prompt_text.as_bytes())
}

proof fn lemma_fnv1a_of_a()
    ensures
        fnv1a(seq![97u8]) == 0xaf63dc4c8601ec8cu64,
{
    assert(0xcbf29ce484222325u64 ^ 97u64 == 0xcbf29ce484222344u64) by (bit_vector);
    let b = seq![97u8];
    assert(b.drop_last() =~= Seq::<u8>::empty());
    assert(fnv1a(b.drop_last()) == 0xcbf29ce484222325u64);
    assert(b.last() as u64 == 97u64);
    assert((0xcbf29ce484222344u64 as nat * 0x100000001b3u64 as nat) % 0x1_0000_0000_0000_0000
        == 0xaf63dc4c8601ec8c) by (nonlinear_arith);
}

/// One step of writing hex digits: the last digit is the lowest one.
proof fn lemma_hex_step(n: nat, count: nat)
    requires
        count > 0,
    ensures
        hex_digits(n, count) == hex_digits(n / 16, (count - 1) as nat).push(hex_char(n % 16)),
{
}

proof fn lemma_hex_offset_basis()
    ensures
        hex_digits(14695981039346656037 as nat, 16) == seq!['c', 'b', 'f', '2', '9', 'c', 'e', '4', '8', '4', '2', '2', '2', '3', '2', '5'],
{
    assert(hex_digits(12nat, 1nat) == seq!['c']) by {
        lemma_hex_step(12nat, 1nat);
        assert(hex_digits(0nat, 0nat) == Seq::<char>::empty());
        assert(hex_char(12nat) == 'c');
    }
    assert(hex_digits(203nat, 2nat) == seq!['c', 'b']) by {
        lemma_hex_step(203nat, 2nat);
        assert(hex_digits(12nat, 1nat) == seq!['c']);
        assert(hex_char(11nat) == 'b');
    }
    assert(hex_digits(3263nat, 3nat) == seq!['c', 'b', 'f']) by {
        lemma_hex_step(3263nat, 3nat);
        assert(hex_digits(203nat, 2nat) == seq!['c', 'b']);
        assert(hex_char(15nat) == 'f');
    }
    assert(hex_digits(52210nat, 4nat) == seq!['c', 'b', 'f', '2']) by {
        lemma_hex_step(52210nat, 4nat);
        assert(hex_digits(3263nat, 3nat) == seq!['c', 'b', 'f']);
        assert(hex_char(2nat) == '2');
    }
    assert(hex_digits(835369nat, 5nat) == seq!['c', 'b', 'f', '2', '9']) by {
        lemma_hex_step(835369nat, 5nat);
        assert(hex_digits(52210nat, 4nat) == seq!['c', 'b', 'f', '2']);
        assert(hex_char(9nat) == '9');
    }
    assert(hex_digits(13365916nat, 6nat) == seq!['c', 'b', 'f', '2', '9', 'c']) by {
        lemma_hex_step(13365916nat, 6nat);
        assert(hex_digits(835369nat, 5nat) == seq!['c', 'b', 'f', '2', '9']);
        assert(hex_char(12nat) == 'c');
    }
    assert(hex_digits(213854670nat, 7nat) == seq!['c', 'b', 'f', '2', '9', 'c', 'e']) by {
        lemma_hex_step(213854670nat, 7nat);
        assert(hex_digits(13365916nat, 6nat) == seq!['c', 'b', 'f', '2', '9', 'c']);
        assert(hex_char(14nat) == 'e');
    }
    assert(hex_digits(3421674724nat, 8nat) == seq!['c', 'b', 'f', '2', '9', 'c', 'e', '4']) by {
        lemma_hex_step(3421674724nat, 8nat);
        assert(hex_digits(213854670nat, 7nat) == seq!['c', 'b', 'f', '2', '9', 'c', 'e']);
        assert(hex_char(4nat) == '4');
    }
    assert(hex_digits(54746795592nat, 9nat) == seq!['c', 'b', 'f', '2', '9', 'c', 'e', '4', '8']) by {
        lemma_hex_step(54746795592nat, 9nat);
        assert(hex_digits(3421674724nat, 8nat) == seq!['c', 'b', 'f', '2', '9', 'c', 'e', '4']);
        assert(hex_char(8nat) == '8');
    }
    assert(hex_digits(875948729476nat, 10nat) == seq!['c', 'b', 'f', '2', '9', 'c', 'e', '4', '8', '4']) by {
        lemma_hex_step(875948729476nat, 10nat);
        assert(hex_digits(54746795592nat, 9nat) == seq!['c', 'b', 'f', '2', '9', 'c', 'e', '4', '8']);
        assert(hex_char(4nat) == '4');
    }
    assert(hex_digits(14015179671618nat, 11nat) == seq!['c', 'b', 'f', '2', '9', 'c', 'e', '4', '8', '4', '2']) by {
        lemma_hex_step(14015179671618nat, 11nat);
        assert(hex_digits(875948729476nat, 10nat) == seq!['c', 'b', 'f', '2', '9', 'c', 'e', '4', '8', '4']);
        assert(hex_char(2nat) == '2');
    }
    assert(hex_digits(224242874745890nat, 12nat) == seq!['c', 'b', 'f', '2', '9', 'c', 'e', '4', '8', '4', '2', '2']) by {
        lemma_hex_step(224242874745890nat, 12nat);
        assert(hex_digits(14015179671618nat, 11nat) == seq!['c', 'b', 'f', '2', '9', 'c', 'e', '4', '8', '4', '2']);
        assert(hex_char(2nat) == '2');
    }
    assert(hex_digits(3587885995934242nat, 13nat) == seq!['c', 'b', 'f', '2', '9', 'c', 'e', '4', '8', '4', '2', '2', '2']) by {
        lemma_hex_step(3587885995934242nat, 13nat);
        assert(hex_digits(224242874745890nat, 12nat) == seq!['c', 'b', 'f', '2', '9', 'c', 'e', '4', '8', '4', '2', '2']);
        assert(hex_char(2nat) == '2');
    }
    assert(hex_digits(57406175934947875nat, 14nat) == seq!['c', 'b', 'f', '2', '9', 'c', 'e', '4', '8', '4', '2', '2', '2', '3']) by {
        lemma_hex_step(57406175934947875nat, 14nat);
        assert(hex_digits(3587885995934242nat, 13nat) == seq!['c', 'b', 'f', '2', '9', 'c', 'e', '4', '8', '4', '2', '2', '2']);
        assert(hex_char(3nat) == '3');
    }
    assert(hex_digits(918498814959166002nat, 15nat) == seq!['c', 'b', 'f', '2', '9', 'c', 'e', '4', '8', '4', '2', '2', '2', '3', '2']) by {
        lemma_hex_step(918498814959166002nat, 15nat);
        assert(hex_digits(57406175934947875nat, 14nat) == seq!['c', 'b', 'f', '2', '9', 'c', 'e', '4', '8', '4', '2', '2', '2', '3']);
        assert(hex_char(2nat) == '2');
    }
    assert(hex_digits(14695981039346656037nat, 16nat) == seq!['c', 'b', 'f', '2', '9', 'c', 'e', '4', '8', '4', '2', '2', '2', '3', '2', '5']) by {
        lemma_hex_step(14695981039346656037nat, 16nat);
        assert(hex_digits(918498814959166002nat, 15nat) == seq!['c', 'b', 'f', '2', '9', 'c', 'e', '4', '8', '4', '2', '2', '2', '3', '2']);
        assert(hex_char(5nat) == '5');
    }
}
proof fn lemma_hex_fnv_of_a()
    ensures
        hex_digits(12638187200555641996 as nat, 16) == seq!['a', 'f', '6', '3', 'd', 'c', '4', 'c', '8', '6', '0', '1', 'e', 'c', '8', 'c'],
{
    assert(hex_digits(10nat, 1nat) == seq!['a']) by {
        lemma_hex_step(10nat, 1nat);
        assert(hex_digits(0nat, 0nat) == Seq::<char>::empty());
        assert(hex_char(10nat) == 'a');
    }
    assert(hex_digits(175nat, 2nat) == seq!['a', 'f']) by {
        lemma_hex_step(175nat, 2nat);
        assert(hex_digits(10nat, 1nat) == seq!['a']);
        assert(hex_char(15nat) == 'f');
    }
    assert(hex_digits(2806nat, 3nat) == seq!['a', 'f', '6']) by {
        lemma_hex_step(2806nat, 3nat);
        assert(hex_digits(175nat, 2nat) == seq!['a', 'f']);
        assert(hex_char(6nat) == '6');
    }
    assert(hex_digits(44899nat, 4nat) == seq!['a', 'f', '6', '3']) by {
        lemma_hex_step(44899nat, 4nat);
        assert(hex_digits(2806nat, 3nat) == seq!['a', 'f', '6']);
        assert(hex_char(3nat) == '3');
    }
    assert(hex_digits(718397nat, 5nat) == seq!['a', 'f', '6', '3', 'd']) by {
        lemma_hex_step(718397nat, 5nat);
        assert(hex_digits(44899nat, 4nat) == seq!['a', 'f', '6', '3']);
        assert(hex_char(13nat) == 'd');
    }
    assert(hex_digits(11494364nat, 6nat) == seq!['a', 'f', '6', '3', 'd', 'c']) by {
        lemma_hex_step(11494364nat, 6nat);
        assert(hex_digits(718397nat, 5nat) == seq!['a', 'f', '6', '3', 'd']);
        assert(hex_char(12nat) == 'c');
    }
    assert(hex_digits(183909828nat, 7nat) == seq!['a', 'f', '6', '3', 'd', 'c', '4']) by {
        lemma_hex_step(183909828nat, 7nat);
        assert(hex_digits(11494364nat, 6nat) == seq!['a', 'f', '6', '3', 'd', 'c']);
        assert(hex_char(4nat) == '4');
    }
    assert(hex_digits(2942557260nat, 8nat) == seq!['a', 'f', '6', '3', 'd', 'c', '4', 'c']) by {
        lemma_hex_step(2942557260nat, 8nat);
        assert(hex_digits(183909828nat, 7nat) == seq!['a', 'f', '6', '3', 'd', 'c', '4']);
        assert(hex_char(12nat) == 'c');
    }
    assert(hex_digits(47080916168nat, 9nat) == seq!['a', 'f', '6', '3', 'd', 'c', '4', 'c', '8']) by {
        lemma_hex_step(47080916168nat, 9nat);
        assert(hex_digits(2942557260nat, 8nat) == seq!['a', 'f', '6', '3', 'd', 'c', '4', 'c']);
        assert(hex_char(8nat) == '8');
    }
    assert(hex_digits(753294658694nat, 10nat) == seq!['a', 'f', '6', '3', 'd', 'c', '4', 'c', '8', '6']) by {
        lemma_hex_step(753294658694nat, 10nat);
        assert(hex_digits(47080916168nat, 9nat) == seq!['a', 'f', '6', '3', 'd', 'c', '4', 'c', '8']);
        assert(hex_char(6nat) == '6');
    }
    assert(hex_digits(12052714539104nat, 11nat) == seq!['a', 'f', '6', '3', 'd', 'c', '4', 'c', '8', '6', '0']) by {
        lemma_hex_step(12052714539104nat, 11nat);
        assert(hex_digits(753294658694nat, 10nat) == seq!['a', 'f', '6', '3', 'd', 'c', '4', 'c', '8', '6']);
        assert(hex_char(0nat) == '0');
    }
    assert(hex_digits(192843432625665nat, 12nat) == seq!['a', 'f', '6', '3', 'd', 'c', '4', 'c', '8', '6', '0', '1']) by {
        lemma_hex_step(192843432625665nat, 12nat);
        assert(hex_digits(12052714539104nat, 11nat) == seq!['a', 'f', '6', '3', 'd', 'c', '4', 'c', '8', '6', '0']);
        assert(hex_char(1nat) == '1');
    }
    assert(hex_digits(3085494922010654nat, 13nat) == seq!['a', 'f', '6', '3', 'd', 'c', '4', 'c', '8', '6', '0', '1', 'e']) by {
        lemma_hex_step(3085494922010654nat, 13nat);
        assert(hex_digits(192843432625665nat, 12nat) == seq!['a', 'f', '6', '3', 'd', 'c', '4', 'c', '8', '6', '0', '1']);
        assert(hex_char(14nat) == 'e');
    }
    assert(hex_digits(49367918752170476nat, 14nat) == seq!['a', 'f', '6', '3', 'd', 'c', '4', 'c', '8', '6', '0', '1', 'e', 'c']) by {
        lemma_hex_step(49367918752170476nat, 14nat);
        assert(hex_digits(3085494922010654nat, 13nat) == seq!['a', 'f', '6', '3', 'd', 'c', '4', 'c', '8', '6', '0', '1', 'e']);
        assert(hex_char(12nat) == 'c');
    }
    assert(hex_digits(789886700034727624nat, 15nat) == seq!['a', 'f', '6', '3', 'd', 'c', '4', 'c', '8', '6', '0', '1', 'e', 'c', '8']) by {
        lemma_hex_step(789886700034727624nat, 15nat);
        assert(hex_digits(49367918752170476nat, 14nat) == seq!['a', 'f', '6', '3', 'd', 'c', '4', 'c', '8', '6', '0', '1', 'e', 'c']);
        assert(hex_char(8nat) == '8');
    }
    assert(hex_digits(12638187200555641996nat, 16nat) == seq!['a', 'f', '6', '3', 'd', 'c', '4', 'c', '8', '6', '0', '1', 'e', 'c', '8', 'c']) by {
        lemma_hex_step(12638187200555641996nat, 16nat);
        assert(hex_digits(789886700034727624nat, 15nat) == seq!['a', 'f', '6', '3', 'd', 'c', '4', 'c', '8', '6', '0', '1', 'e', 'c', '8']);
        assert(hex_char(12nat) == 'c');
    }
}

/// The 64-bit FNV-1a hash written as sixteen hex digits gives the known
/// values: "cbf29ce484222325" for no bytes (the offset basis) and
/// "af63dc4c8601ec8c" for the single byte of "a".
pub proof fn lemma_fnv1a_known_values()
    ensures
        hex_digits(fnv1a(Seq::<u8>::empty()) as nat, 16) == seq![
            'c', 'b', 'f', '2', '9', 'c', 'e', '4', '8', '4', '2', '2', '2', '3', '2', '5',
        ],
        hex_digits(fnv1a(seq![97u8]) as nat, 16) == seq![
            'a', 'f', '6', '3', 'd', 'c', '4', 'c', '8', '6', '0', '1', 'e', 'c', '8', 'c',
        ],
{
    lemma_fnv1a_of_a();
    lemma_hex_offset_basis();
    lemma_hex_fnv_of_a();
}

} // verus!
