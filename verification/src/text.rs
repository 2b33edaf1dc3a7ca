//! Numbers and identifiers as text.
use bitcoin::hex::DisplayHex;
use vstd::prelude::*;

verus! {

/// The hexadecimal digit, in lower case, of a number below sixteen.
pub open spec fn hex_digit(value: int) -> char {
    if value < 10 {
        (('0' as int) + value) as char
    } else {
        (('a' as int) + value - 10) as char
    }
}

/// Bytes in hexadecimal, two digits in lower case for each byte.
pub open spec fn hex_text(bytes: Seq<u8>) -> Seq<char> {
    Seq::new(
        2 * bytes.len(),
        |i: int|
            hex_digit(
                if i % 2 == 0 {
                    (bytes[i / 2] / 16) as int
                } else {
                    (bytes[i / 2] % 16) as int
                },
            ),
    )
}

/// Calls `to_lower_hex_string` of `bitcoin::hex::DisplayHex`, which writes each byte as two
/// hexadecimal digits in lower case.
#[verifier::external_body]
pub(crate) fn to_hex(bytes: &[u8; 32]) -> (text: String)
    ensures
        text@ == hex_text(bytes@),
{
    bytes.as_slice().to_lower_hex_string()
}

/// Calls `to_string` of `bitcoin::Txid`, which writes the bytes of the identifier from the last to
/// the first, each as two hexadecimal digits in lower case.
#[verifier::external_body]
pub(crate) fn txid_to_text(txid: &[u8; 32]) -> (text: String)
    ensures
        text@ == hex_text(txid@.reverse()),
{
    <bitcoin::Txid as bitcoin::hashes::Hash>::from_byte_array(*txid).to_string()
}

/// The decimal digit of a number below ten.
pub open spec fn digit(value: nat) -> char {
    (('0' as int) + value) as char
}

/// A number in decimal, without leading zeros.
pub open spec fn decimal_text(value: nat) -> Seq<char>
    decreases value,
{
    if value < 10 {
        seq![digit(value)]
    } else {
        decimal_text(value / 10).push(digit(value % 10))
    }
}

/// The number that decimal digits stand for.
pub open spec fn read_decimal(text: Seq<char>) -> int
    decreases text.len(),
{
    if text.len() == 0 {
        0
    } else {
        10 * read_decimal(text.drop_last()) + (text.last() as int - '0' as int)
    }
}

/// Law: a number is written in decimal digits that read as the number again, and none of more than
/// one digit begins with a zero.
pub proof fn law_decimal_text_reads_back(value: nat)
    ensures
        read_decimal(decimal_text(value)) == value,
        decimal_text(value).len() > 0,
        forall|i: int|
            0 <= i < decimal_text(value).len() ==> '0' <= #[trigger] decimal_text(value)[i] <= '9',
        decimal_text(value).len() > 1 ==> decimal_text(value)[0] != '0',
        value > 0 ==> decimal_text(value)[0] != '0',
    decreases value,
{
    if value < 10 {
        let text = decimal_text(value);
        assert(text.drop_last() =~= Seq::<char>::empty());
        assert(read_decimal(text.drop_last()) == 0);
    } else {
        law_decimal_text_reads_back(value / 10);
        let text = decimal_text(value);
        assert(text.drop_last() =~= decimal_text(value / 10));
        assert(text.last() == digit(value % 10));
    }
}

/// The number below sixteen that a hexadecimal digit in lower case stands for.
pub open spec fn read_hex_digit(digit: char) -> int {
    if digit <= '9' {
        digit as int - '0' as int
    } else {
        10 + (digit as int - 'a' as int)
    }
}

/// Law: bytes are written as two hexadecimal digits in lower case each, which read as the byte again,
/// the higher digit first.
pub proof fn law_hex_text_reads_back(bytes: Seq<u8>)
    ensures
        hex_text(bytes).len() == 2 * bytes.len(),
        forall|i: int|
            0 <= i < hex_text(bytes).len() ==> '0' <= #[trigger] hex_text(bytes)[i] <= '9' || 'a'
                <= hex_text(bytes)[i] <= 'f',
        forall|i: int|
            0 <= i < bytes.len() ==> 16 * read_hex_digit(hex_text(bytes)[2 * i]) + read_hex_digit(
                hex_text(bytes)[2 * i + 1],
            ) == #[trigger] bytes[i],
{
    assert forall|i: int| 0 <= i < hex_text(bytes).len() implies '0' <= #[trigger] hex_text(bytes)[i]
        <= '9' || 'a' <= hex_text(bytes)[i] <= 'f' by {
        let byte = bytes[i / 2];
        assert(byte / 16 < 16 && byte % 16 < 16);
    }
    assert forall|i: int| 0 <= i < bytes.len() implies 16 * read_hex_digit(hex_text(bytes)[2 * i])
        + read_hex_digit(hex_text(bytes)[2 * i + 1]) == #[trigger] bytes[i] by {
        let byte = bytes[i];
        assert((2 * i) / 2 == i && (2 * i + 1) / 2 == i);
        assert((2 * i) % 2 == 0 && (2 * i + 1) % 2 == 1);
        assert(byte / 16 < 16 && byte % 16 < 16 && 16 * (byte / 16) + byte % 16 == byte);
    }
}

/// The decimal digit of a number below ten.
fn digit_text(value: u64) -> (text: &'static str)
    requires
        value < 10,
    ensures
        text@ == seq![digit(value as nat)],
{
    proof {
        reveal_strlit("0");
        reveal_strlit("1");
        reveal_strlit("2");
        reveal_strlit("3");
        reveal_strlit("4");
        reveal_strlit("5");
        reveal_strlit("6");
        reveal_strlit("7");
        reveal_strlit("8");
        reveal_strlit("9");
    }
    let text: &'static str = match value {
        0 => "0",
        1 => "1",
        2 => "2",
        3 => "3",
        4 => "4",
        5 => "5",
        6 => "6",
        7 => "7",
        8 => "8",
        _ => "9",
    };
    assert(text@ =~= seq![digit(value as nat)]);
    text
}

/// A number in decimal.
pub(crate) fn to_decimal(value: u64) -> (text: String)
    ensures
        text@ == decimal_text(value as nat),
    decreases value,
{
    if value < 10 {
        digit_text(value).to_owned()
    } else {
        let mut text = to_decimal(value / 10);
        text.append(digit_text(value % 10));
        assert(text@ =~= decimal_text((value / 10) as nat).push(digit((value % 10) as nat)));
        text
    }
}

/// One text behind another.
pub(crate) fn join(first: &str, second: &str) -> (text: String)
    ensures
        text@ == first@ + second@,
{
    let mut text = first.to_owned();
    text.append(second);
    text
}

} // verus!
