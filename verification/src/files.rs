//! The names of the files of a dump: the dump file itself, and the temporary
//! file that a new dump is written to before it takes the dump file's place.

use rand::Rng;
use vstd::prelude::*;
use vstd::string::StringExecFns;

verus! {

/// The name of the file that holds the store between two runs.
pub const DUMP_FILENAME: &'static str = "room_data.json";

/// The sixteen digits of lower-case hexadecimal notation.
pub open spec fn hex_digits() -> Seq<char> {
    seq!['0', '1', '2', '3', '4', '5', '6', '7', '8', '9', 'a', 'b', 'c', 'd', 'e', 'f']
}

/// The last `width` hexadecimal digits of a number, padded with zeros in
/// front.
pub open spec fn hex(value: nat, width: nat) -> Seq<char>
    decreases width,
{
    if width == 0 {
        Seq::empty()
    } else {
        hex(value / 16, (width - 1) as nat).push(hex_digits()[(value % 16) as int])
    }
}

/// The name of the temporary file of one dump: `tmp.` and the 32 hexadecimal
/// digits of a number drawn for that dump.
pub open spec fn temp_name(nonce: u128) -> Seq<char> {
    "tmp."@ + hex(nonce as nat, 32)
}

/// One hexadecimal digit, as text.
fn hex_digit(digit: u8) -> (text: &'static str)
    requires
        digit < 16,
    ensures
        text@ == seq![hex_digits()[digit as int]],
{
    proof {
        reveal_strlit("0");
        reveal_strlit("1");
        reveal_strlit("2");
        reveal_strlit("3");
        reveal_strlit("4");
        reveal_strlit("5");
        reveal_strlit("6");
        reveal_strlit("7");
        reveal_strlit("8");
        reveal_strlit("9");
        reveal_strlit("a");
        reveal_strlit("b");
        reveal_strlit("c");
        reveal_strlit("d");
        reveal_strlit("e");
        reveal_strlit("f");
    }
    let text = match digit {
        0 => "0",
        1 => "1",
        2 => "2",
        3 => "3",
        4 => "4",
        5 => "5",
        6 => "6",
        7 => "7",
        8 => "8",
        9 => "9",
        10 => "a",
        11 => "b",
        12 => "c",
        13 => "d",
        14 => "e",
        _ => "f",
    };
    assert(text@ =~= seq![hex_digits()[digit as int]]);
    text
}

/// Appends the last `width` hexadecimal digits of a number to a text.
fn push_hex(text: &mut String, value: u128, width: u32)
    ensures
        final(text)@ == old(text)@ + hex(value as nat, width as nat),
    decreases width,
{
    if width > 0 {
        push_hex(text, value / 16, width - 1);
        text.append(hex_digit((value % 16) as u8));
        assert(text@ =~= old(text)@ + hex(value as nat, width as nat));
    } else {
        assert(text@ =~= old(text)@ + hex(value as nat, width as nat));
    }
}

/// The name of the temporary file that belongs to a number.
pub fn temp_file_name(nonce: u128) -> (name: String)
    ensures
        name@ == temp_name(nonce),
{
    let mut name = String::from_str("tmp.");
    push_hex(&mut name, nonce, 32);
    name
}

/// A number for the name of a temporary file.
///
/// Calls `Rng::gen` for a `u128` on the generator of `rand::thread_rng`. Any
/// number may come.
#[verifier::external_body]
fn draw_nonce() -> (nonce: u128) {
    rand::thread_rng().gen::<u128>()
}

/// A name for the temporary file of a dump, with a number drawn at random.
pub fn fresh_temp_file_name() -> (name: String)
    ensures
        exists|nonce: u128| name@ == #[trigger] temp_name(nonce),
{
    temp_file_name(draw_nonce())
}

/// The length of a run of hexadecimal digits is its width.
pub proof fn lemma_hex_len(value: nat, width: nat)
    ensures
        hex(value, width).len() == width,
    decreases width,
{
    if width > 0 {
        lemma_hex_len(value / 16, (width - 1) as nat);
    }
}

/// No temporary file has the name of the dump file: writing a temporary file
/// leaves the last dump as it is.
pub proof fn lemma_temp_name_apart(nonce: u128)
    ensures
        temp_name(nonce) != DUMP_FILENAME@,
        temp_name(nonce).len() == 36,
{
    reveal_strlit("tmp.");
    reveal_strlit("room_data.json");
    lemma_hex_len(nonce as nat, 32);
}

} // verus!
