//! Names of shared memory objects.

use vstd::prelude::*;

verus! {

/// The character of a decimal digit.
pub open spec fn digit(value: nat) -> char {
    ('0' as u32 + value) as char
}

/// A number in decimal, without leading zeros.
pub open spec fn decimal(value: nat) -> Seq<char>
    decreases value,
{
    if value < 10 {
        seq![digit(value)]
    } else {
        decimal(value / 10).push(digit(value % 10))
    }
}

/// The name of the shared memory object that is tried when the clock shows this many nanoseconds
/// of a second.
pub open spec fn shm_name_at(subsec_nanos: u32) -> Seq<char> {
    "/smithay-client-toolkit-"@ + decimal(subsec_nanos as nat)
}

fn digit_str(value: u32) -> (text: &'static str)
    requires
        value < 10,
    ensures
        text@ == seq![digit(value as nat)],
{
    proof {
        reveal_strlit("0");
        reveal_strlit("1");
        reveal_strlit("2");
        reveal_strlit("3");
        reveal_strlit("4");
        reveal_strlit("5");
        reveal_strlit("6");
        reveal_strlit("7");
        reveal_strlit("8");
        reveal_strlit("9");
    }
    match value {
        0 => "0",
        1 => "1",
        2 => "2",
        3 => "3",
        4 => "4",
        5 => "5",
        6 => "6",
        7 => "7",
        8 => "8",
        _ => "9",
    }
}

fn append_decimal(text: &mut String, value: u32)
    ensures
        final(text)@ == old(text)@ + decimal(value as nat),
    decreases value,
{
    if value >= 10 {
        append_decimal(text, value / 10);
    }
    text.append(digit_str(value % 10));
}

/// The name of the shared memory object to try when the clock shows this many nanoseconds of a
/// second.
pub fn shm_name(subsec_nanos: u32) -> (name: String)
    ensures
        name@ == shm_name_at(subsec_nanos),
{
    let mut name = String::from_str("/smithay-client-toolkit-");
    append_decimal(&mut name, subsec_nanos);
    name
}

proof fn lemma_decimal_tells_apart(a: nat, b: nat)
    requires
        decimal(a) == decimal(b),
    ensures
        a == b,
    decreases a,
{
    if a >= 10 && b >= 10 {
        assert(decimal(a).drop_last() =~= decimal(a / 10));
        assert(decimal(b).drop_last() =~= decimal(b / 10));
        assert(decimal(a).last() == digit(a % 10));
        assert(decimal(b).last() == digit(b % 10));
        lemma_decimal_tells_apart(a / 10, b / 10);
    } else if a < 10 && b < 10 {
        assert(decimal(a)[0] == digit(a));
        assert(decimal(b)[0] == digit(b));
    } else {
        lemma_decimal_len(a);
        lemma_decimal_len(b);
    }
}

proof fn lemma_decimal_len(value: nat)
    ensures
        decimal(value).len() >= 1,
        decimal(value).len() == 1 <==> value < 10,
    decreases value,
{
    if value >= 10 {
        lemma_decimal_len(value / 10);
    }
}

/// A name is taken again only when the clock shows the same nanoseconds again.
pub proof fn lemma_names_differ(a: u32, b: u32)
    requires
        a != b,
    ensures
        shm_name_at(a) != shm_name_at(b),
{
    let prefix = "/smithay-client-toolkit-"@;
    if shm_name_at(a) == shm_name_at(b) {
        assert(shm_name_at(a).skip(prefix.len() as int) =~= decimal(a as nat));
        assert(shm_name_at(b).skip(prefix.len() as int) =~= decimal(b as nat));
        lemma_decimal_tells_apart(a as nat, b as nat);
    }
}

} // verus!
