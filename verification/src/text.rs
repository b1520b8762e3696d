//! Small pieces of text: numbers written out, and lists joined.
use vstd::prelude::*;

verus! {

/// The digit that stands for `value` in a base of at most sixteen.
pub open spec fn digit_char(value: nat) -> char
    recommends
        value < 16,
{
    if value < 10 {
        ('0' as nat + value) as char
    } else {
        ('a' as nat + (value - 10)) as char
    }
}

/// `value` written in `base`, without leading zeros.
pub open spec fn digits(value: nat, base: nat) -> Seq<char>
    recommends
        2 <= base <= 16,
    decreases value,
{
    if base < 2 || value < base {
        seq![digit_char(value)]
    } else {
        proof {
            assert(value / base < value) by (nonlinear_arith)
                requires
                    2 <= base <= value,
            ;
        }
        digits(value / base, base).push(digit_char(value % base))
    }
}

/// `value` in decimal.
pub open spec fn decimal(value: u32) -> Seq<char> {
    digits(value as nat, 10)
}

/// `value` in lower-case hexadecimal, after `0x`.
pub open spec fn prefixed_hex(value: u32) -> Seq<char> {
    seq!['0', 'x'] + digits(value as nat, 16)
}

/// `parts` in order, with `separator` between each two neighbours.
pub open spec fn joined(parts: Seq<Seq<char>>, separator: Seq<char>) -> Seq<char>
    decreases parts.len(),
{
    if parts.len() == 0 {
        Seq::empty()
    } else if parts.len() == 1 {
        parts[0]
    } else {
        joined(parts.drop_last(), separator) + separator + parts.last()
    }
}

/// What a list of strings says.
pub open spec fn string_views(strings: Seq<String>) -> Seq<Seq<char>> {
    strings.map_values(|string: String| string@)
}

/// The digit for `value`, as text.
fn digit(value: u32) -> (text: &'static str)
    requires
        value < 16,
    ensures
        text@ == seq![digit_char(value as nat)],
{
    proof {
        reveal_strlit("0");
        reveal_strlit("1");
        reveal_strlit("2");
        reveal_strlit("3");
        reveal_strlit("4");
        reveal_strlit("5");
        reveal_strlit("6");
        reveal_strlit("7");
        reveal_strlit("8");
        reveal_strlit("9");
        reveal_strlit("a");
        reveal_strlit("b");
        reveal_strlit("c");
        reveal_strlit("d");
        reveal_strlit("e");
        reveal_strlit("f");
    }
    match value {
        0 => "0",
        1 => "1",
        2 => "2",
        3 => "3",
        4 => "4",
        5 => "5",
        6 => "6",
        7 => "7",
        8 => "8",
        9 => "9",
        10 => "a",
        11 => "b",
        12 => "c",
        13 => "d",
        14 => "e",
        _ => "f",
    }
}

/// Appends `value`, written in `base`, to `out`.
fn append_digits(out: &mut String, value: u32, base: u32)
    requires
        2 <= base <= 16,
    ensures
        final(out)@ == old(out)@ + digits(value as nat, base as nat),
    decreases value,
{
    if value < base {
        out.append(digit(value));
    } else {
        assert(value / base < value) by (nonlinear_arith)
            requires
                2 <= base <= value,
        ;
        append_digits(out, value / base, base);
        out.append(digit(value % base));
    }
}

/// Appends `value` in decimal to `out`.
pub fn append_decimal(out: &mut String, value: u32)
    ensures
        final(out)@ == old(out)@ + decimal(value),
{
    append_digits(out, value, 10);
}

/// Appends `value` in hexadecimal to `out`, as `0x` and lower-case digits.
pub fn append_prefixed_hex(out: &mut String, value: u32)
    ensures
        final(out)@ == old(out)@ + prefixed_hex(value),
{
    proof {
        reveal_strlit("0x");
    }
    out.append("0x");
    append_digits(out, value, 16);
}

/// Joins `parts` with `separator`.
pub fn join(parts: &Vec<String>, separator: &str) -> (text: String)
    ensures
        text@ == joined(string_views(parts@), separator@),
{
    let mut text = String::new();
    let ghost views = string_views(parts@);
    for i in 0..parts.len()
        invariant
            views == string_views(parts@),
            text@ == joined(views.take(i as int), separator@),
    {
        assert(views.take(i + 1).drop_last() == views.take(i as int));
        if i > 0 {
            text.append(separator);
        }
        text.append(parts[i].as_str());
    }
    assert(views.take(parts.len() as int) == views);
    text
}

/// A number below ten is one decimal digit; a larger one is its tenth part,
/// followed by the digit of what is left.
pub proof fn law_decimal_is_positional(value: u32)
    ensures
        value < 10 ==> decimal(value) == seq![(48 + value) as char],
        value >= 10 ==> decimal(value) == decimal((value / 10) as u32).push(
            (48 + value % 10) as char,
        ),
{
}

/// A number below sixteen is `0x` and one digit, of which those from ten are the
/// letters from `a`; a larger one is its sixteenth part, followed by the digit of
/// what is left.
pub proof fn law_hex_is_positional(value: u32)
    ensures
        value < 10 ==> prefixed_hex(value) == seq!['0', 'x', (48 + value) as char],
        10 <= value < 16 ==> prefixed_hex(value) == seq!['0', 'x', (87 + value) as char],
        value >= 16 && value % 16 < 10 ==> prefixed_hex(value) == prefixed_hex(
            (value / 16) as u32,
        ).push((48 + value % 16) as char),
        value >= 16 && value % 16 >= 10 ==> prefixed_hex(value) == prefixed_hex(
            (value / 16) as u32,
        ).push((87 + value % 16) as char),
{
    if value >= 16 {
        assert(prefixed_hex(value) =~= prefixed_hex((value / 16) as u32).push(
            digit_char((value % 16) as nat),
        ));
    }
}

/// Joining nothing gives nothing, and joining one part gives that part.
pub proof fn law_join_of_one_is_itself(part: Seq<char>, separator: Seq<char>)
    ensures
        joined(Seq::empty(), separator) == Seq::<char>::empty(),
        joined(seq![part], separator) == part,
{
}

/// Two lists joined one after the other have one separator between them.
pub proof fn law_join_splits_anywhere(
    left: Seq<Seq<char>>,
    right: Seq<Seq<char>>,
    separator: Seq<char>,
)
    requires
        left.len() > 0,
        right.len() > 0,
    ensures
        joined(left + right, separator) == joined(left, separator) + separator + joined(
            right,
            separator,
        ),
    decreases right.len(),
{
    let all = left + right;
    assert(all.drop_last() =~= left + right.drop_last());
    if right.len() == 1 {
        assert(all.drop_last() =~= left);
        assert(all.last() == right[0]);
    } else {
        law_join_splits_anywhere(left, right.drop_last(), separator);
        assert(all.last() == right.last());
        assert(joined(all, separator) =~= joined(left, separator) + separator + joined(
            right,
            separator,
        ));
    }
}

/// What a list of strings says is what each of them says, one for one.
pub proof fn law_string_views_keep_every_string(strings: Seq<String>)
    ensures
        string_views(strings).len() == strings.len(),
        forall|i: int|
            0 <= i < strings.len() ==> #[trigger] string_views(strings)[i] == strings[i]@,
{
}

} // verus!
