//! Text forms of numbers used for naming: table keys and fallback names.
use vstd::prelude::*;

verus! {

/// The digit character for `d`, lower case above nine.
pub open spec fn digit_char(d: nat) -> char {
    seq!['0', '1', '2', '3', '4', '5', '6', '7', '8', '9', 'a', 'b', 'c', 'd', 'e', 'f'][d as int]
}

/// `n` in decimal, without leading zeros.
pub open spec fn decimal(n: nat) -> Seq<char>
    decreases n,
{
    if n < 10 {
        seq![digit_char(n)]
    } else {
        decimal(n / 10).push(digit_char(n % 10))
    }
}

/// `n` in lower-case hexadecimal, without leading zeros.
pub open spec fn hex(n: nat) -> Seq<char>
    decreases n,
{
    if n < 16 {
        seq![digit_char(n)]
    } else {
        hex(n / 16).push(digit_char(n % 16))
    }
}

/// The hash table's key for a path hash: `0x` and its hexadecimal digits.
pub open spec fn key_of(path_hash: u32) -> Seq<char> {
    seq!['0', 'x'] + hex(path_hash as nat)
}

/// The one-character string for digit `d`.
fn digit_str(d: u32) -> (r: &'static str)
    requires
        d < 16,
    ensures
        r@ == seq![digit_char(d as nat)],
{
    let all = "0123456789abcdef";
    proof {
        reveal_strlit("0123456789abcdef");
    }
    let r = all.substring_ascii(d as usize, d as usize + 1);
    assert(r@ =~= seq![digit_char(d as nat)]);
    r
}

/// Appends the decimal digits of `n` to `s`.
fn push_decimal(s: &mut String, n: u32)
    ensures
        final(s)@ == old(s)@ + decimal(n as nat),
    decreases n,
{
    if n >= 10 {
        push_decimal(s, n / 10);
    }
    s.append(digit_str(n % 10));
    proof {
        if n >= 10 {
            assert(old(s)@ + decimal(n as nat) =~= old(s)@ + decimal((n / 10) as nat) + seq![
                digit_char((n % 10) as nat),
            ]);
        } else {
            assert(decimal(n as nat) =~= seq![digit_char((n % 10) as nat)]);
        }
    }
}

/// Appends the lower-case hexadecimal digits of `n` to `s`.
fn push_hex(s: &mut String, n: u32)
    ensures
        final(s)@ == old(s)@ + hex(n as nat),
    decreases n,
{
    if n >= 16 {
        push_hex(s, n / 16);
    }
    s.append(digit_str(n % 16));
    proof {
        if n >= 16 {
            assert(old(s)@ + hex(n as nat) =~= old(s)@ + hex((n / 16) as nat) + seq![
                digit_char((n % 16) as nat),
            ]);
        } else {
            assert(hex(n as nat) =~= seq![digit_char((n % 16) as nat)]);
        }
    }
}

/// The name given to the entry at `index` when the table has none for it.
pub fn fallback_name(index: u32) -> (r: String)
    ensures
        r@ == decimal(index as nat),
{
    let mut s = String::new();
    push_decimal(&mut s, index);
    assert(s@ =~= decimal(index as nat));
    s
}

/// The hash table key for `path_hash`, as `0x` followed by lower-case hex digits.
pub fn hash_key(path_hash: u32) -> (r: String)
    ensures
        r@ == key_of(path_hash),
{
    let prefix = "0x";
    proof {
        reveal_strlit("0x");
    }
    let mut s = String::from_str(prefix);
    push_hex(&mut s, path_hash);
    assert(s@ =~= key_of(path_hash));
    s
}

proof fn lemma_digit_char_injective(a: nat, b: nat)
    requires
        a < 10,
        b < 10,
        digit_char(a) == digit_char(b),
    ensures
        a == b,
{
    assert(digit_char(0) == '0' && digit_char(1) == '1' && digit_char(2) == '2' && digit_char(3)
        == '3' && digit_char(4) == '4' && digit_char(5) == '5' && digit_char(6) == '6'
        && digit_char(7) == '7' && digit_char(8) == '8' && digit_char(9) == '9');
}

proof fn lemma_decimal_len(n: nat)
    ensures
        decimal(n).len() >= 1,
        n < 10 <==> decimal(n).len() == 1,
    decreases n,
{
    if n >= 10 {
        lemma_decimal_len(n / 10);
    }
}

/// Distinct indices never get the same fallback name.
pub proof fn lemma_decimal_injective(i: nat, j: nat)
    requires
        decimal(i) == decimal(j),
    ensures
        i == j,
    decreases i,
{
    lemma_decimal_len(i);
    lemma_decimal_len(j);
    if i >= 10 && j >= 10 {
        let (di, dj) = (decimal(i), decimal(j));
        assert(di.drop_last() =~= decimal(i / 10));
        assert(dj.drop_last() =~= decimal(j / 10));
        lemma_decimal_injective(i / 10, j / 10);
        assert(di.last() == digit_char(i % 10));
        assert(dj.last() == digit_char(j % 10));
        lemma_digit_char_injective(i % 10, j % 10);
    } else {
        assert(i < 10 && j < 10);
        assert(decimal(i)[0] == digit_char(i));
        assert(decimal(j)[0] == digit_char(j));
        lemma_digit_char_injective(i, j);
    }
}

} // verus!
