//! How numbers, lists and UUIDs are written.
use vstd::prelude::*;

use crate::text::{
    decimal, digit_char, join, joined, same_text, signed_decimal, texts, to_decimal,
    to_signed_decimal,
};
use crate::uuids::{hex_char, hex_digit, hyphenated};

verus! {

/// The number that the decimal digits of `text` stand for, read from the left.
pub open spec fn value_of(text: Seq<char>) -> int
    decreases text.len(),
{
    if text.len() == 0 {
        0
    } else {
        10 * value_of(text.drop_last()) + (text.last() as int - '0' as int)
    }
}

/// A number is written with the digits that stand for it: what is written is
/// read back as the number, and there is no leading zero.
pub proof fn law_decimal(n: nat)
    ensures
        decimal(n).len() > 0,
        value_of(decimal(n)) == n,
        forall|i: int| 0 <= i < decimal(n).len() ==> '0' <= #[trigger] decimal(n)[i] <= '9',
        decimal(n).len() > 1 ==> decimal(n)[0] != '0',
    decreases n,
{
    if n < 10 {
        assert(decimal(n).drop_last() =~= Seq::empty());
        assert(value_of(decimal(n).drop_last()) == 0);
        assert(digit_char(n) as int - '0' as int == n);
    } else {
        law_decimal(n / 10);
        let text = decimal(n);
        assert(text.drop_last() =~= decimal(n / 10));
        assert(digit_char(n % 10) as int - '0' as int == n % 10);
        assert(text[0] == decimal(n / 10)[0]);
        if n / 10 < 10 {
            assert(decimal(n / 10)[0] == digit_char(n / 10));
        } else {
            law_decimal(n / 10 / 10);
            assert(decimal(n / 10).len() == decimal(n / 10 / 10).len() + 1);
        }
    }
}

/// A negative number is written as a minus sign and its magnitude, another one
/// as it is.
pub proof fn law_signed_decimal(n: int)
    ensures
        n >= 0 ==> signed_decimal(n) == decimal(n as nat),
        n < 0 ==> signed_decimal(n).len() > 0 && signed_decimal(n)[0] == '-' && signed_decimal(
            n,
        ).skip(1) == decimal((-n) as nat),
{
    reveal_strlit("-");
    if n < 0 {
        assert(signed_decimal(n).skip(1) =~= decimal((-n) as nat));
    }
}

/// Numbers are told by what they are written as.
pub proof fn law_numbers_are_written(n: u64, text: String, i: i32, signed: String)
    requires
        call_ensures(to_decimal, (n,), text),
        call_ensures(to_signed_decimal, (i,), signed),
    ensures
        text@ == decimal(n as nat),
        value_of(text@) == n,
        signed@ == signed_decimal(i as int),
        i >= 0 ==> value_of(signed@) == i,
        i < 0 ==> signed@.len() > 0 && signed@[0] == '-' && value_of(signed@.skip(1)) == -i,
{
    law_decimal(n as nat);
    law_signed_decimal(i as int);
    law_decimal(if i < 0 { (-i) as nat } else { i as nat });
}

/// Joining nothing gives nothing, joining one part gives the part, and joining
/// one list after another puts the separator once between what each of them
/// gives.
pub proof fn law_joined(
    part: Seq<char>,
    first: Seq<Seq<char>>,
    second: Seq<Seq<char>>,
    separator: Seq<char>,
)
    requires
        first.len() > 0,
        second.len() > 0,
    ensures
        joined(Seq::empty(), separator) == Seq::<char>::empty(),
        joined(seq![part], separator) == part,
        joined(first + second, separator) == joined(first, separator) + separator + joined(
            second,
            separator,
        ),
    decreases second.len(),
{
    let all = first + second;
    assert(all.drop_last() =~= first + second.drop_last());
    assert(all.last() == second.last());
    if second.len() > 1 {
        law_joined(part, first, second.drop_last(), separator);
        assert(joined(all, separator) =~= joined(first, separator) + separator + joined(
            second,
            separator,
        ));
    } else {
        assert(first + second.drop_last() =~= first);
    }
}

/// The texts that are joined are those of the parts, in their order.
pub proof fn law_join(parts: &Vec<String>, separator: &str, text: String, said: Seq<Seq<char>>)
    requires
        call_ensures(join, (parts, separator), text),
        said.len() == parts@.len(),
        forall|i: int| 0 <= i < said.len() ==> #[trigger] said[i] == parts@[i]@,
    ensures
        text@ == joined(said, separator@),
{
    assert(texts(parts@) =~= said);
}

/// Texts are the same where no place tells them apart.
pub proof fn law_same_text(a: &str, b: &str, same: bool)
    requires
        call_ensures(same_text, (a, b), same),
    ensures
        same == (a@.len() == b@.len() && forall|i: int|
            0 <= i < a@.len() ==> #[trigger] a@[i] == b@[i]),
{
    if a@.len() == b@.len() && forall|i: int|
        0 <= i < a@.len() ==> #[trigger] a@[i] == b@[i] {
        assert(a@ =~= b@);
    }
}

/// The number that a lower-case hexadecimal digit stands for.
pub open spec fn hex_value(c: char) -> int {
    if '0' <= c <= '9' {
        c as int - '0' as int
    } else {
        10 + (c as int - 'a' as int)
    }
}

proof fn lemma_hex_digit(uuid: u128, n: int)
    requires
        0 <= n < 32,
    ensures
        0 <= hex_digit(uuid, n) < 16,
        hex_value(hex_char(hex_digit(uuid, n))) == hex_digit(uuid, n),
{
    let shifted = uuid >> ((124 - 4 * n) as u128);
    assert(shifted & 0xf < 16) by (bit_vector);
}

/// A UUID is written in places: its digits from the highest to the lowest, with
/// a hyphen behind the first eight and behind each of the next three groups of
/// four.
pub proof fn law_uuid_text(uuid: u128, i: int)
    requires
        0 <= i < 36,
    ensures
        hyphenated(uuid).len() == 36,
        (i == 8 || i == 13 || i == 18 || i == 23) ==> hyphenated(uuid)[i] == '-',
        i < 8 ==> hex_value(hyphenated(uuid)[i]) == (uuid >> ((124 - 4 * i) as u128)) & 0xf,
        8 < i < 13 ==> hex_value(hyphenated(uuid)[i]) == (uuid >> ((128 - 4 * i) as u128)) & 0xf,
        13 < i < 18 ==> hex_value(hyphenated(uuid)[i]) == (uuid >> ((132 - 4 * i) as u128)) & 0xf,
        18 < i < 23 ==> hex_value(hyphenated(uuid)[i]) == (uuid >> ((136 - 4 * i) as u128)) & 0xf,
        23 < i ==> hex_value(hyphenated(uuid)[i]) == (uuid >> ((140 - 4 * i) as u128)) & 0xf,
{
    if i < 8 {
        lemma_hex_digit(uuid, i);
    } else if 8 < i < 13 {
        lemma_hex_digit(uuid, i - 1);
    } else if 13 < i < 18 {
        lemma_hex_digit(uuid, i - 2);
    } else if 18 < i < 23 {
        lemma_hex_digit(uuid, i - 3);
    } else if 23 < i {
        lemma_hex_digit(uuid, i - 4);
    }
}

} // verus!
