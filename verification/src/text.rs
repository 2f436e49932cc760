//! Texts that the contracts build: decimal numbers, numbered identifiers and
//! bytes in hexadecimal.

use vstd::prelude::*;

verus! {

/// The character that writes the decimal digit `d`.
pub open spec fn digit(d: nat) -> char {
    (48 + d) as char
}

/// `n` written in decimal, without leading zeros.
pub open spec fn decimal(n: nat) -> Seq<char>
    decreases n,
{
    if n < 10 {
        seq![digit(n)]
    } else {
        decimal(n / 10).push(digit(n % 10))
    }
}

/// The identifier numbered `n` in the family `prefix`.
pub open spec fn numbered_text(prefix: Seq<char>, n: nat) -> Seq<char> {
    prefix + decimal(n)
}

fn digit_text(d: u32) -> (r: &'static str)
    requires
        d < 10,
    ensures
        r@ == seq![digit(d as nat)],
{
    proof {
        reveal_strlit("0");
        reveal_strlit("1");
        reveal_strlit("2");
        reveal_strlit("3");
        reveal_strlit("4");
        reveal_strlit("5");
        reveal_strlit("6");
        reveal_strlit("7");
        reveal_strlit("8");
        reveal_strlit("9");
    }
    match d {
        0 => "0",
        1 => "1",
        2 => "2",
        3 => "3",
        4 => "4",
        5 => "5",
        6 => "6",
        7 => "7",
        8 => "8",
        _ => "9",
    }
}

/// Writes `n` in decimal.
pub fn decimal_text(n: u32) -> (r: String)
    ensures
        r@ == decimal(n as nat),
    decreases n,
{
    if n < 10 {
        digit_text(n).to_owned()
    } else {
        let mut text = decimal_text(n / 10);
        text.append(digit_text(n % 10));
        text
    }
}

/// Builds the identifier numbered `n` in the family `prefix`.
pub fn numbered(prefix: &str, n: u32) -> (r: String)
    ensures
        r@ == numbered_text(prefix@, n as nat),
{
    let mut text = prefix.to_owned();
    text.append(decimal_text(n).as_str());
    text
}

/// Two numbers with the same decimal text are equal.
pub proof fn lemma_decimal_injective(a: nat, b: nat)
    requires
        decimal(a) == decimal(b),
    ensures
        a == b,
    decreases a,
{
    assert(decimal(a).last() == digit(a % 10));
    assert(decimal(b).last() == digit(b % 10));
    lemma_decimal_nonempty(a / 10);
    lemma_decimal_nonempty(b / 10);
    if a >= 10 && b >= 10 {
        assert(decimal(a).drop_last() =~= decimal(a / 10));
        assert(decimal(b).drop_last() =~= decimal(b / 10));
        lemma_decimal_injective(a / 10, b / 10);
    }
}

proof fn lemma_decimal_nonempty(n: nat)
    ensures
        decimal(n).len() >= 1,
        n >= 10 ==> decimal(n).len() >= 2,
{
    if n >= 10 {
        reveal_with_fuel(decimal, 2);
        assert(decimal(n / 10).len() >= 1);
    }
}

/// Identifiers of one family are distinct: the same text means the same number.
pub proof fn lemma_numbered_injective(prefix: Seq<char>, a: nat, b: nat)
    requires
        numbered_text(prefix, a) == numbered_text(prefix, b),
    ensures
        a == b,
{
    let n = prefix.len() as int;
    assert(numbered_text(prefix, a).skip(n) =~= decimal(a));
    assert(numbered_text(prefix, b).skip(n) =~= decimal(b));
    lemma_decimal_injective(a, b);
}

/// What a text of decimal digits is worth.
pub open spec fn worth() -> spec_fn(int, char) -> int {
    |sum: int, c: char| 10 * sum + (c as int - '0' as int)
}

/// A number's decimal text has digits alone, none of them a leading zero, and
/// read as a number it is that number.
pub proof fn law_decimal(n: nat)
    ensures
        decimal(n).len() > 0,
        forall|i: int| 0 <= i < decimal(n).len() ==> '0' <= #[trigger] decimal(n)[i] <= '9',
        decimal(n)[0] == '0' ==> n == 0 && decimal(n).len() == 1,
        decimal(n).fold_left(0, worth()) == n,
    decreases n,
{
    let text = decimal(n);
    if n < 10 {
        assert(text.drop_last() =~= Seq::<char>::empty());
        reveal_with_fuel(Seq::fold_left, 2);
    } else {
        law_decimal(n / 10);
        assert(text.drop_last() =~= decimal(n / 10));
        assert(text.last() == digit(n % 10));
        assert(text.fold_left(0, worth()) == worth()(
            decimal(n / 10).fold_left(0, worth()),
            text.last(),
        ));
        assert(text[0] == decimal(n / 10)[0]);
        assert forall|i: int| 0 <= i < text.len() implies '0' <= #[trigger] text[i] <= '9' by {
            if i < text.len() - 1 {
                assert(text[i] == decimal(n / 10)[i]);
            }
        }
    }
}

/// An identifier is its family's prefix and its number.
pub proof fn law_numbered(prefix: Seq<char>, n: nat)
    ensures
        numbered_text(prefix, n) == prefix + decimal(n),
{
}

/// The character that writes the hexadecimal digit `d`.
pub open spec fn hex_digit(d: nat) -> char {
    if d < 10 {
        digit(d)
    } else {
        (87 + d) as char
    }
}

/// Bytes written in hexadecimal, two digits each.
pub open spec fn hex(bytes: Seq<u8>) -> Seq<char>
    decreases bytes.len(),
{
    if bytes.len() == 0 {
        seq![]
    } else {
        let last = bytes.last() as nat;
        hex(bytes.drop_last()).push(hex_digit(last / 16)).push(hex_digit(last % 16))
    }
}

fn hex_digit_text(d: u8) -> (r: &'static str)
    requires
        d < 16,
    ensures
        r@ == seq![hex_digit(d as nat)],
{
    proof {
        reveal_strlit("0");
        reveal_strlit("1");
        reveal_strlit("2");
        reveal_strlit("3");
        reveal_strlit("4");
        reveal_strlit("5");
        reveal_strlit("6");
        reveal_strlit("7");
        reveal_strlit("8");
        reveal_strlit("9");
        reveal_strlit("a");
        reveal_strlit("b");
        reveal_strlit("c");
        reveal_strlit("d");
        reveal_strlit("e");
        reveal_strlit("f");
    }
    match d {
        0 => "0",
        1 => "1",
        2 => "2",
        3 => "3",
        4 => "4",
        5 => "5",
        6 => "6",
        7 => "7",
        8 => "8",
        9 => "9",
        10 => "a",
        11 => "b",
        12 => "c",
        13 => "d",
        14 => "e",
        _ => "f",
    }
}

/// Writes 32 bytes in hexadecimal.
pub fn hex_text(bytes: &[u8; 32]) -> (r: String)
    ensures
        r@ == hex(bytes@),
{
    let mut text = "".to_owned();
    proof {
        reveal_strlit("");
    }
    let mut i: usize = 0;
    assert(text@ =~= hex(bytes@.take(0)));
    while i < 32
        invariant
            i <= 32,
            text@ == hex(bytes@.take(i as int)),
        decreases 32 - i,
    {
        let byte: u8 = bytes[i];
        text.append(hex_digit_text(byte / 16));
        text.append(hex_digit_text(byte % 16));
        proof {
            let upto = bytes@.take(i + 1);
            assert(upto.drop_last() =~= bytes@.take(i as int));
            assert(upto.last() == byte);
            assert(text@ =~= hex(upto));
        }
        i = i + 1;
    }
    assert(bytes@.take(32) =~= bytes@);
    text
}

/// Bytes with the same hexadecimal text are equal.
pub proof fn lemma_hex_injective(a: Seq<u8>, b: Seq<u8>)
    requires
        hex(a) == hex(b),
    ensures
        a == b,
    decreases a.len(),
{
    lemma_hex_len(a);
    lemma_hex_len(b);
    if a.len() > 0 {
        let last_a = a.last() as nat;
        let last_b = b.last() as nat;
        let n = hex(a).len() as int;
        assert(hex(a)[n - 1] == hex_digit(last_a % 16));
        assert(hex(b)[n - 1] == hex_digit(last_b % 16));
        assert(hex(a)[n - 2] == hex_digit(last_a / 16));
        assert(hex(b)[n - 2] == hex_digit(last_b / 16));
        assert(hex(a).take(n - 2) =~= hex(a.drop_last()));
        assert(hex(b).take(n - 2) =~= hex(b.drop_last()));
        lemma_hex_injective(a.drop_last(), b.drop_last());
        assert(a =~= a.drop_last().push(a.last()));
        assert(b =~= b.drop_last().push(b.last()));
    } else {
        assert(a =~= b);
    }
}

proof fn lemma_hex_len(bytes: Seq<u8>)
    ensures
        hex(bytes).len() == 2 * bytes.len(),
    decreases bytes.len(),
{
    if bytes.len() > 0 {
        lemma_hex_len(bytes.drop_last());
    }
}

/// Every byte is written by two of the sixteen digits: its sixteens, then its
/// ones.
pub proof fn law_hex(bytes: Seq<u8>)
    ensures
        hex(bytes).len() == 2 * bytes.len(),
        forall|i: int|
            0 <= i < bytes.len() ==> {
                &&& hex(bytes)[2 * i] == "0123456789abcdef"@[#[trigger] bytes[i] as int / 16]
                &&& hex(bytes)[2 * i + 1] == "0123456789abcdef"@[bytes[i] as int % 16]
            },
    decreases bytes.len(),
{
    lemma_hex_len(bytes);
    if bytes.len() > 0 {
        let before = bytes.drop_last();
        law_hex(before);
        assert forall|i: int| 0 <= i < bytes.len() implies {
            &&& hex(bytes)[2 * i] == "0123456789abcdef"@[#[trigger] bytes[i] as int / 16]
            &&& hex(bytes)[2 * i + 1] == "0123456789abcdef"@[bytes[i] as int % 16]
        } by {
            if i < before.len() {
                assert(before[i] == bytes[i]);
                assert(hex(bytes)[2 * i] == hex(before)[2 * i]);
                assert(hex(bytes)[2 * i + 1] == hex(before)[2 * i + 1]);
            } else {
                lemma_hex_digit(bytes[i] as nat / 16);
                lemma_hex_digit(bytes[i] as nat % 16);
            }
        }
    }
}

proof fn lemma_hex_digit(d: nat)
    requires
        d < 16,
    ensures
        hex_digit(d) == "0123456789abcdef"@[d as int],
{
    reveal_strlit("0123456789abcdef");
}

} // verus!
