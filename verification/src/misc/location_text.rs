//! The text form of a source location, as a function on characters, and what holds
//! of reading and writing it.

use vstd::prelude::*;
use crate::misc::SourceLocation;

verus! {

/// One of the ten decimal digits.
pub open spec fn is_digit(c: char) -> bool {
    c == '0' || c == '1' || c == '2' || c == '3' || c == '4' || c == '5' || c == '6' || c == '7'
        || c == '8' || c == '9'
}

/// The number that a decimal digit stands for.
pub open spec fn digit_of(c: char) -> nat {
    if c == '1' {
        1
    } else if c == '2' {
        2
    } else if c == '3' {
        3
    } else if c == '4' {
        4
    } else if c == '5' {
        5
    } else if c == '6' {
        6
    } else if c == '7' {
        7
    } else if c == '8' {
        8
    } else if c == '9' {
        9
    } else {
        0
    }
}

/// The decimal digit for a number below ten.
pub open spec fn digit_char(d: nat) -> char {
    if d == 1 {
        '1'
    } else if d == 2 {
        '2'
    } else if d == 3 {
        '3'
    } else if d == 4 {
        '4'
    } else if d == 5 {
        '5'
    } else if d == 6 {
        '6'
    } else if d == 7 {
        '7'
    } else if d == 8 {
        '8'
    } else if d == 9 {
        '9'
    } else {
        '0'
    }
}

/// Every character of `s` is a decimal digit.
pub open spec fn all_digits(s: Seq<char>) -> bool {
    forall|i: int| 0 <= i < s.len() ==> is_digit(#[trigger] s[i])
}

/// The number that a run of decimal digits stands for, most significant digit first.
pub open spec fn digits_value(s: Seq<char>) -> nat
    decreases s.len(),
{
    if s.len() == 0 {
        0
    } else {
        10 * digits_value(s.drop_last()) + digit_of(s.last())
    }
}

/// The decimal digits of `n`, without leading zeros.
pub open spec fn decimal(n: nat) -> Seq<char>
    decreases n,
{
    if n < 10 {
        seq![digit_char(n)]
    } else {
        decimal(n / 10).push(digit_char(n % 10))
    }
}

/// The machine integer that a field spells, if it spells one: an optional sign,
/// then at least one digit, and a value that a signed machine word can hold.
pub open spec fn signed_value(f: Seq<char>) -> Option<int> {
    let signed = f.len() > 0 && (f[0] == '-' || f[0] == '+');
    let body = if signed { f.drop_first() } else { f };
    let value = if f.len() > 0 && f[0] == '-' {
        -(digits_value(body) as int)
    } else {
        digits_value(body) as int
    };
    if body.len() > 0 && all_digits(body) && isize::MIN <= value <= isize::MAX {
        Some(value)
    } else {
        None
    }
}

/// What a field's integer means: a negative one stands for "unknown".
pub open spec fn slot_of(value: int) -> Option<usize> {
    if value < 0 {
        None
    } else {
        Some(value as usize)
    }
}

/// The position of the first colon of `s`, or the length of `s` if it has none.
pub open spec fn first_colon(s: Seq<char>) -> int
    decreases s.len(),
{
    if s.len() == 0 || s[0] == ':' {
        0
    } else {
        1 + first_colon(s.drop_first())
    }
}

/// The first field of `s`: what stands before its first colon.
pub open spec fn head_field(s: Seq<char>) -> Seq<char> {
    s.subrange(0, first_colon(s))
}

/// What follows the first colon of `s`, if it has a colon.
pub open spec fn after_field(s: Seq<char>) -> Option<Seq<char>> {
    if first_colon(s) < s.len() {
        Some(s.subrange(first_colon(s) + 1, s.len() as int))
    } else {
        None
    }
}

/// Every field of `s` behind its first one spells an integer.
pub open spec fn later_fields_signed(s: Seq<char>) -> bool
    decreases s.len(),
{
    match after_field(s) {
        None => true,
        Some(rest) => {
            proof {
                lemma_first_colon_bounds(s);
            }
            signed_value(head_field(rest)) is Some && later_fields_signed(rest)
        },
    }
}

/// The location that a text spells, if it spells one. The text must hold at
/// least three fields, and every field, also one behind the third, must be an
/// integer. The first three fields are the parts of the location; what further
/// fields hold is not kept.
pub open spec fn decode(s: Seq<char>) -> Option<SourceLocation> {
    match after_field(s) {
        None => None,
        Some(second) => match after_field(second) {
            None => None,
            Some(third) => match (
                signed_value(head_field(s)),
                signed_value(head_field(second)),
                signed_value(head_field(third)),
            ) {
                (Some(a), Some(b), Some(c)) => if later_fields_signed(third) {
                    Some(SourceLocation { start: slot_of(a), length: slot_of(b), index: slot_of(c) })
                } else {
                    None
                },
                _ => None,
            },
        },
    }
}

/// The text of one part of a location.
pub open spec fn encode_slot(slot: Option<usize>) -> Seq<char> {
    match slot {
        Some(n) => decimal(n as nat),
        None => seq!['-', '1'],
    }
}

/// The text of a location.
pub open spec fn encode(l: SourceLocation) -> Seq<char> {
    encode_slot(l.start) + seq![':'] + encode_slot(l.length) + seq![':'] + encode_slot(l.index)
}

/// How a field reads: nothing if it spells no integer, else the part of the
/// location that its integer stands for.
pub open spec fn field_slot(f: Seq<char>) -> Option<Option<usize>> {
    match signed_value(f) {
        Some(value) => Some(slot_of(value)),
        None => None,
    }
}

/// Every part of `l` that is known can be written as a signed machine integer.
pub open spec fn representable(l: SourceLocation) -> bool {
    &&& l.start matches Some(n) ==> n <= isize::MAX
    &&& l.length matches Some(n) ==> n <= isize::MAX
    &&& l.index matches Some(n) ==> n <= isize::MAX
}

/// A field as [`encode`] writes it: `-1`, or a number without sign and without
/// leading zeros that a signed machine integer can hold.
pub open spec fn canonical_field(f: Seq<char>) -> bool {
    ||| f == seq!['-', '1']
    ||| {
        &&& f.len() > 0
        &&& all_digits(f)
        &&& f.len() > 1 ==> f[0] != '0'
        &&& digits_value(f) <= isize::MAX
    }
}

/// A text as [`encode`] writes it: exactly three canonical fields.
pub open spec fn canonical(s: Seq<char>) -> bool {
    &&& after_field(s) matches Some(second)
    &&& after_field(second) matches Some(third)
    &&& after_field(third) is None
    &&& canonical_field(head_field(s))
    &&& canonical_field(head_field(second))
    &&& canonical_field(head_field(third))
}

/// The first colon stands where no colon stands before and a colon, or the end, stands.
pub(crate) proof fn lemma_first_colon(s: Seq<char>, k: int)
    requires
        0 <= k <= s.len(),
        forall|i: int| 0 <= i < k ==> s[i] != ':',
        k < s.len() ==> s[k] == ':',
    ensures
        first_colon(s) == k,
    decreases k,
{
    if k > 0 {
        lemma_first_colon(s.drop_first(), k - 1);
    }
}

/// Before the first colon stands no colon, and at it stands a colon or the text ends.
pub proof fn lemma_first_colon_bounds(s: Seq<char>)
    ensures
        0 <= first_colon(s) <= s.len(),
        forall|i: int| 0 <= i < first_colon(s) ==> s[i] != ':',
        first_colon(s) < s.len() ==> s[first_colon(s)] == ':',
    decreases s.len(),
{
    if s.len() > 0 && s[0] != ':' {
        let t = s.drop_first();
        lemma_first_colon_bounds(t);
        assert forall|i: int| 0 <= i < first_colon(s) implies s[i] != ':' by {
            if i > 0 {
                assert(s[i] == t[i - 1]);
            }
        }
    }
}

/// A text is its first field, then a colon and the rest if there is a colon.
proof fn lemma_fields_join(s: Seq<char>)
    ensures
        match after_field(s) {
            Some(rest) => s == head_field(s) + seq![':'] + rest,
            None => s == head_field(s),
        },
{
    lemma_first_colon_bounds(s);
    match after_field(s) {
        Some(rest) => {
            assert(s =~= head_field(s) + seq![':'] + rest);
        },
        None => {
            assert(s =~= head_field(s));
        },
    }
}

/// What one more digit at the end does to the value of a run of digits.
pub(crate) proof fn lemma_digits_push(s: Seq<char>, c: char)
    ensures
        digits_value(s.push(c)) == 10 * digits_value(s) + digit_of(c),
        all_digits(s.push(c)) <==> all_digits(s) && is_digit(c),
{
    let t = s.push(c);
    assert(t.drop_last() =~= s);
    if all_digits(t) {
        assert(is_digit(t[s.len() as int]));
        assert forall|i: int| 0 <= i < s.len() implies is_digit(#[trigger] s[i]) by {
            assert(t[i] == s[i]);
        }
    }
}

/// The decimal digits of a number are digits, have its value, and begin with no needless zero.
proof fn lemma_decimal(n: nat)
    ensures
        decimal(n).len() >= 1,
        all_digits(decimal(n)),
        digits_value(decimal(n)) == n,
        n >= 10 ==> decimal(n)[0] != '0',
        decimal(n).len() > 1 ==> n >= 10,
    decreases n,
{
    if n < 10 {
        let s = seq![digit_char(n)];
        assert(s.drop_last() =~= Seq::<char>::empty());
        assert(digits_value(s.drop_last()) == 0);
    } else {
        lemma_decimal(n / 10);
        lemma_digits_push(decimal(n / 10), digit_char(n % 10));
    }
}

/// A run of digits that begins with a digit other than zero stands for a number above zero.
proof fn lemma_leading_digit(s: Seq<char>)
    requires
        s.len() > 0,
        all_digits(s),
        s[0] != '0',
    ensures
        digits_value(s) >= 1,
    decreases s.len(),
{
    if s.len() > 1 {
        let t = s.drop_last();
        assert(t[0] == s[0]);
        lemma_leading_digit(t);
    } else {
        assert(s.drop_last() =~= Seq::<char>::empty());
    }
}

/// A run of digits without a needless zero is the decimal form of its value.
proof fn lemma_decimal_of_digits(s: Seq<char>)
    requires
        s.len() > 0,
        all_digits(s),
        s.len() > 1 ==> s[0] != '0',
    ensures
        decimal(digits_value(s)) == s,
    decreases s.len(),
{
    let t = s.drop_last();
    let c = s.last();
    assert(is_digit(c));
    if s.len() == 1 {
        assert(t =~= Seq::<char>::empty());
        assert(digits_value(t) == 0);
        assert(digits_value(s) == digit_of(c));
        assert(seq![digit_char(digit_of(c))] =~= s);
    } else {
        assert(t[0] == s[0]);
        lemma_leading_digit(t);
        lemma_decimal_of_digits(t);
        let n = digits_value(s);
        assert(n == 10 * digits_value(t) + digit_of(c));
        assert(n / 10 == digits_value(t));
        assert(n % 10 == digit_of(c));
        assert(t.push(c) =~= s);
    }
}

/// A part as it is written holds no colon, reads as that part, and is canonical.
proof fn lemma_encode_slot(slot: Option<usize>)
    requires
        slot matches Some(n) ==> n <= isize::MAX,
    ensures
        encode_slot(slot).len() >= 1,
        forall|i: int| 0 <= i < encode_slot(slot).len() ==> encode_slot(slot)[i] != ':',
        field_slot(encode_slot(slot)) == Some(slot),
        canonical_field(encode_slot(slot)),
{
    let f = encode_slot(slot);
    match slot {
        Some(n) => {
            lemma_decimal(n as nat);
            assert(is_digit(f[0]));
            assert forall|i: int| 0 <= i < f.len() implies f[i] != ':' by {
                assert(is_digit(f[i]));
            }
        },
        None => {
            let body = f.drop_first();
            assert(body =~= seq!['1']);
            assert(body.drop_last() =~= Seq::<char>::empty());
            assert(digits_value(body.drop_last()) == 0);
            assert(body.last() == '1');
            assert(digits_value(body) == 1);
            assert(is_digit(body[0]));
        },
    }
}

/// A canonical field is written back as it was read.
proof fn lemma_canonical_field(f: Seq<char>)
    requires
        canonical_field(f),
    ensures
        field_slot(f) matches Some(slot) && encode_slot(slot) == f,
{
    if f == seq!['-', '1'] {
        lemma_encode_slot(None);
    } else {
        assert(is_digit(f[0]));
        lemma_decimal_of_digits(f);
    }
}

/// What [`encode`] writes, [`decode`] reads back: for every location whose known
/// parts can be written as signed machine integers, decoding its text gives the
/// location again.
pub proof fn decode_inverts_encode(l: SourceLocation)
    requires
        representable(l),
    ensures
        decode(encode(l)) == Some(l),
{
    let a = encode_slot(l.start);
    let b = encode_slot(l.length);
    let c = encode_slot(l.index);
    lemma_encode_slot(l.start);
    lemma_encode_slot(l.length);
    lemma_encode_slot(l.index);
    let s = encode(l);
    let second = b + seq![':'] + c;
    lemma_first_colon(s, a.len() as int);
    assert(head_field(s) =~= a);
    assert(after_field(s).unwrap() =~= second);
    lemma_first_colon(second, b.len() as int);
    assert(head_field(second) =~= b);
    assert(after_field(second).unwrap() =~= c);
    lemma_first_colon(c, c.len() as int);
    assert(head_field(c) =~= c);
    assert(after_field(c) is None);
}

/// What [`decode`] reads from a canonical text, [`encode`] writes back letter
/// for letter.
pub proof fn encode_inverts_decode(s: Seq<char>)
    requires
        canonical(s),
    ensures
        decode(s) matches Some(l) && encode(l) == s && representable(l),
{
    let second = after_field(s).unwrap();
    let third = after_field(second).unwrap();
    lemma_canonical_field(head_field(s));
    lemma_canonical_field(head_field(second));
    lemma_canonical_field(head_field(third));
    lemma_fields_join(s);
    lemma_fields_join(second);
    lemma_fields_join(third);
    let l = decode(s).unwrap();
    assert(encode(l) =~= head_field(s) + seq![':'] + (head_field(second) + seq![':'] + head_field(
        third,
    )));
}

/// A text with fewer than three fields, or with a field that is no integer,
/// wherever it stands, spells no location.
pub proof fn malformed_is_refused(s: Seq<char>)
    requires
        ({
            ||| after_field(s) is None
            ||| after_field(after_field(s).unwrap()) is None
            ||| signed_value(head_field(s)) is None
            ||| !later_fields_signed(s)
        }),
    ensures
        decode(s) is None,
{
    if after_field(s) is Some && after_field(after_field(s).unwrap()) is Some {
        let second = after_field(s).unwrap();
        assert(later_fields_signed(s) == (signed_value(head_field(second)) is Some
            && later_fields_signed(second)));
        let third = after_field(second).unwrap();
        assert(later_fields_signed(second) == (signed_value(head_field(third)) is Some
            && later_fields_signed(third)));
    }
}

} // verus!
