//! Source locations and the small closed sets of keywords that the nodes carry.

use vstd::prelude::*;
use vstd::std_specs::iter::IteratorSpec;
use crate::misc::location_text::{
    after_field, all_digits, decimal, decode, digit_char, digit_of, digits_value, encode,
    encode_slot, field_slot, first_colon, head_field, is_digit, later_fields_signed,
    lemma_digits_push, lemma_first_colon, lemma_first_colon_bounds, signed_value,
};
use crate::shape::Shape;

pub mod location_text;

verus! {

/// Where a node stands in the sources: the byte at which it starts, its length
/// in bytes, and the index of the source file. Each of the three may be unknown.
///
/// Its text form is `start:length:index`, with `-1` for an unknown part.
#[derive(Debug, Clone, Copy, PartialEq, Eq)]
pub struct SourceLocation {
    pub start: Option<usize>,
    pub length: Option<usize>,
    pub index: Option<usize>,
}

/// The error of [`SourceLocation::from_str`]: the text was not a location.
#[derive(Debug, PartialEq, Eq)]
pub struct MalformedLocation {
    /// The text that was refused.
    pub text: String,
}

impl Clone for MalformedLocation {
    fn clone(&self) -> (copy: Self)
        ensures
            copy == *self,
    {
        MalformedLocation { text: self.text.clone() }
    }
}

/// Whether a function reads or writes state, and whether it takes payment.
/// Written `payable`, `pure`, `nonpayable`, `view`.
#[derive(Debug, Clone, Copy, PartialEq, Eq)]
pub enum StateMutability {
    Payable,
    Pure,
    Nonpayable,
    View,
}

/// Whether a variable can be written after it was set up.
/// Written `mutable`, `immutable`, `constant`.
#[derive(Debug, Clone, Copy, PartialEq, Eq)]
pub enum Mutability {
    Mutable,
    Immutable,
    Constant,
}

/// Where the data of a variable lives.
/// Written `calldata`, `default`, `memory`, `storage`.
#[derive(Debug, Clone, Copy, PartialEq, Eq)]
pub enum StorageLocation {
    Calldata,
    Default,
    Memory,
    Storage,
}

/// From where a declaration can be reached.
/// Written `external`, `public`, `internal`, `private`.
#[derive(Debug, Clone, Copy, PartialEq, Eq)]
pub enum Visibility {
    External,
    Public,
    Internal,
    Private,
}

/// How the compiler describes the type of a node: an identifier with an inner
/// structure of its own, and a text for people. Both are carried as they came.
#[derive(Debug, PartialEq, Eq)]
pub struct TypeDescriptions {
    pub type_identifier: Option<String>,
    pub type_string: Option<String>,
}

impl Clone for TypeDescriptions {
    fn clone(&self) -> (copy: Self)
        ensures
            copy == *self,
    {
        TypeDescriptions {
            type_identifier: match &self.type_identifier {
                Some(text) => Some(text.clone()),
                None => None,
            },
            type_string: match &self.type_string {
                Some(text) => Some(text.clone()),
                None => None,
            },
        }
    }
}

impl Shape for TypeDescriptions {
    open spec fn depth(&self) -> nat {
        0
    }

    open spec fn same_as(&self, other: &Self) -> bool {
        *self == *other
    }
}

impl MalformedLocation {
    /// What went wrong, as a sentence: the text, and that it is no source location.
    pub fn message(&self) -> (sentence: String)
        ensures
            sentence@ == self.text@ + " invalid source location"@,
    {
        let mut sentence = self.text.clone();
        sentence.append(" invalid source location");
        sentence
    }
}

/// The characters of `s`, in order.
fn chars_of(s: &str) -> (v: Vec<char>)
    ensures
        v@ == s@,
{
    let mut v: Vec<char> = Vec::new();
    for c in it: s.chars()
        invariant
            v@ == it.seq().take(it.index() as int),
            it.seq() == s@,
    {
        v.push(c);
    }
    v
}

/// The value of a decimal digit, or nothing for any other character.
fn digit_value(c: char) -> (d: Option<u8>)
    ensures
        d == (if is_digit(c) { Some(digit_of(c) as u8) } else { None::<u8> }),
{
    if c == '0' {
        Some(0)
    } else if c == '1' {
        Some(1)
    } else if c == '2' {
        Some(2)
    } else if c == '3' {
        Some(3)
    } else if c == '4' {
        Some(4)
    } else if c == '5' {
        Some(5)
    } else if c == '6' {
        Some(6)
    } else if c == '7' {
        Some(7)
    } else if c == '8' {
        Some(8)
    } else if c == '9' {
        Some(9)
    } else {
        None
    }
}

/// Reads the field that begins at `from` and ends before the next colon or at
/// the end of the text. Returns how the field reads and where it ends.
fn read_field(text: &Vec<char>, from: usize) -> (out: (Option<Option<usize>>, usize))
    requires
        from <= text@.len(),
    ensures
        out.1 == from + first_colon(text@.subrange(from as int, text@.len() as int)),
        out.0 == field_slot(head_field(text@.subrange(from as int, text@.len() as int))),
{
    let n = text.len();
    let top: u128 = isize::MAX as u128;
    let mut i: usize = from;
    let mut signed = false;
    let mut negative = false;
    let mut clean = true;
    let mut any = false;
    let mut acc: u128 = 0;
    let ghost tail = text@.subrange(from as int, n as int);
    while i < n && text[i] != ':'
        invariant
            from <= i <= n,
            n == text@.len(),
            top == isize::MAX,
            tail == text@.subrange(from as int, n as int),
            forall|j: int| from <= j < i ==> text@[j] != ':',
            signed == (i > from && (text@[from as int] == '-' || text@[from as int] == '+')),
            negative == (i > from && text@[from as int] == '-'),
            ({
                let f = text@.subrange(from as int, i as int);
                let body = if signed { f.drop_first() } else { f };
                &&& any == (body.len() > 0)
                &&& clean == all_digits(body)
                &&& clean ==> acc == (if digits_value(body) <= top + 1 {
                    digits_value(body)
                } else {
                    (top + 2) as nat
                })
            }),
        decreases n - i,
    {
        let c = text[i];
        let ghost f = text@.subrange(from as int, i as int);
        let ghost body = if signed { f.drop_first() } else { f };
        let ghost g = text@.subrange(from as int, i + 1);
        assert(g =~= f.push(c));
        if i == from && (c == '-' || c == '+') {
            signed = true;
            negative = c == '-';
            assert(g.drop_first() =~= Seq::<char>::empty());
        } else {
            proof {
                let grown = if signed { g.drop_first() } else { g };
                assert(grown =~= body.push(c));
                lemma_digits_push(body, c);
            }
            any = true;
            match digit_value(c) {
                Some(d) => {
                    if clean {
                        let next = acc * 10 + d as u128;
                        acc = if next <= top + 1 { next } else { top + 2 };
                    }
                },
                None => {
                    clean = false;
                },
            }
        }
        i += 1;
    }
    proof {
        assert forall|j: int| 0 <= j < i - from implies tail[j] != ':' by {
            assert(tail[j] == text@[from + j]);
        }
        lemma_first_colon(tail, i - from);
        assert(head_field(tail) =~= text@.subrange(from as int, i as int));
    }
    let slot = if !any || !clean {
        None
    } else if negative {
        if acc == 0 {
            Some(Some(0usize))
        } else if acc <= top + 1 {
            Some(None)
        } else {
            None
        }
    } else if acc <= top {
        Some(Some(acc as usize))
    } else {
        None
    };
    (slot, i)
}

/// One decimal digit as a text.
fn digit_text(d: usize) -> (s: &'static str)
    requires
        d < 10,
    ensures
        s@ == seq![digit_char(d as nat)],
{
    proof {
        reveal_strlit("0");
        reveal_strlit("1");
        reveal_strlit("2");
        reveal_strlit("3");
        reveal_strlit("4");
        reveal_strlit("5");
        reveal_strlit("6");
        reveal_strlit("7");
        reveal_strlit("8");
        reveal_strlit("9");
    }
    let s = if d == 0 {
        "0"
    } else if d == 1 {
        "1"
    } else if d == 2 {
        "2"
    } else if d == 3 {
        "3"
    } else if d == 4 {
        "4"
    } else if d == 5 {
        "5"
    } else if d == 6 {
        "6"
    } else if d == 7 {
        "7"
    } else if d == 8 {
        "8"
    } else {
        "9"
    };
    assert(s@ =~= seq![digit_char(d as nat)]);
    s
}

/// Appends the decimal digits of `n` to `out`.
fn push_decimal(out: &mut String, n: usize)
    ensures
        final(out)@ == old(out)@ + decimal(n as nat),
    decreases n,
{
    if n >= 10 {
        push_decimal(out, n / 10);
    }
    out.append(digit_text(n % 10));
    assert(out@ =~= old(out)@ + decimal(n as nat));
}

/// Appends the text of one part of a location to `out`.
fn push_slot(out: &mut String, slot: Option<usize>)
    ensures
        final(out)@ == old(out)@ + encode_slot(slot),
{
    match slot {
        Some(n) => push_decimal(out, n),
        None => {
            proof {
                reveal_strlit("-1");
            }
            out.append("-1");
            assert(out@ =~= old(out)@ + encode_slot(slot));
        },
    }
}

/// Whether two texts are the same, letter for letter.
fn same_text(a: &str, b: &str) -> (same: bool)
    ensures
        same == (a@ == b@),
{
    let x = chars_of(a);
    let y = chars_of(b);
    if x.len() != y.len() {
        return false;
    }
    let mut i: usize = 0;
    while i < x.len()
        invariant
            i <= x@.len(),
            x@.len() == y@.len(),
            x@ == a@,
            y@ == b@,
            forall|j: int| 0 <= j < i ==> x@[j] == y@[j],
        decreases x@.len() - i,
    {
        if x[i] != y[i] {
            assert(a@[i as int] != b@[i as int]);
            return false;
        }
        i += 1;
    }
    assert(x@ =~= y@);
    true
}

impl StateMutability {
    /// The keyword, letter for letter.
    pub open spec fn spelling(self) -> Seq<char> {
        match self {
            StateMutability::Payable => "payable"@,
            StateMutability::Pure => "pure"@,
            StateMutability::Nonpayable => "nonpayable"@,
            StateMutability::View => "view"@,
        }
    }

    /// The state mutability that a text spells, if it spells one: the keyword in lower case and
    /// nothing else.
    pub open spec fn spelled_by(text: Seq<char>) -> Option<StateMutability> {
        if text == "payable"@ {
            Some(StateMutability::Payable)
        } else if text == "pure"@ {
            Some(StateMutability::Pure)
        } else if text == "nonpayable"@ {
            Some(StateMutability::Nonpayable)
        } else if text == "view"@ {
            Some(StateMutability::View)
        } else {
            None
        }
    }

    /// The keyword as it is written in the source and in the compiler's output.
    pub fn as_str(&self) -> (text: &'static str)
        ensures
            text@ == self.spelling(),
    {
        match self {
            StateMutability::Payable => "payable",
            StateMutability::Pure => "pure",
            StateMutability::Nonpayable => "nonpayable",
            StateMutability::View => "view",
        }
    }

    /// Reads a keyword. Only the exact spellings are read: no capitals, no blanks, no
    /// other names for the same thing.
    pub fn from_str(text: &str) -> (r: Option<StateMutability>)
        ensures
            r == StateMutability::spelled_by(text@),
    {
        if same_text(text, "payable") {
            Some(StateMutability::Payable)
        } else if same_text(text, "pure") {
            Some(StateMutability::Pure)
        } else if same_text(text, "nonpayable") {
            Some(StateMutability::Nonpayable)
        } else if same_text(text, "view") {
            Some(StateMutability::View)
        } else {
            None
        }
    }

    /// Reading the keyword of a state mutability gives it back.
    pub proof fn spelling_is_read_back(self)
        ensures
            StateMutability::spelled_by(self.spelling()) == Some(self),
    {
        reveal_strlit("payable");
        reveal_strlit("pure");
        reveal_strlit("nonpayable");
        reveal_strlit("view");
        assert("pure"@ != "payable"@) by {
            assert("pure"@.len() != "payable"@.len());
        }
        assert("nonpayable"@ != "payable"@) by {
            assert("nonpayable"@.len() != "payable"@.len());
        }
        assert("nonpayable"@ != "pure"@) by {
            assert("nonpayable"@.len() != "pure"@.len());
        }
        assert("view"@ != "payable"@) by {
            assert("view"@.len() != "payable"@.len());
        }
        assert("view"@ != "pure"@) by {
            assert("view"@[0] != "pure"@[0]);
        }
        assert("view"@ != "nonpayable"@) by {
            assert("view"@.len() != "nonpayable"@.len());
        }
    }
}

impl Mutability {
    /// The keyword, letter for letter.
    pub open spec fn spelling(self) -> Seq<char> {
        match self {
            Mutability::Mutable => "mutable"@,
            Mutability::Immutable => "immutable"@,
            Mutability::Constant => "constant"@,
        }
    }

    /// The mutability that a text spells, if it spells one: the keyword in lower case and
    /// nothing else.
    pub open spec fn spelled_by(text: Seq<char>) -> Option<Mutability> {
        if text == "mutable"@ {
            Some(Mutability::Mutable)
        } else if text == "immutable"@ {
            Some(Mutability::Immutable)
        } else if text == "constant"@ {
            Some(Mutability::Constant)
        } else {
            None
        }
    }

    /// The keyword as it is written in the source and in the compiler's output.
    pub fn as_str(&self) -> (text: &'static str)
        ensures
            text@ == self.spelling(),
    {
        match self {
            Mutability::Mutable => "mutable",
            Mutability::Immutable => "immutable",
            Mutability::Constant => "constant",
        }
    }

    /// Reads a keyword. Only the exact spellings are read: no capitals, no blanks, no
    /// other names for the same thing.
    pub fn from_str(text: &str) -> (r: Option<Mutability>)
        ensures
            r == Mutability::spelled_by(text@),
    {
        if same_text(text, "mutable") {
            Some(Mutability::Mutable)
        } else if same_text(text, "immutable") {
            Some(Mutability::Immutable)
        } else if same_text(text, "constant") {
            Some(Mutability::Constant)
        } else {
            None
        }
    }

    /// Reading the keyword of a mutability gives it back.
    pub proof fn spelling_is_read_back(self)
        ensures
            Mutability::spelled_by(self.spelling()) == Some(self),
    {
        reveal_strlit("mutable");
        reveal_strlit("immutable");
        reveal_strlit("constant");
        assert("immutable"@ != "mutable"@) by {
            assert("immutable"@.len() != "mutable"@.len());
        }
        assert("constant"@ != "mutable"@) by {
            assert("constant"@.len() != "mutable"@.len());
        }
        assert("constant"@ != "immutable"@) by {
            assert("constant"@.len() != "immutable"@.len());
        }
    }
}

impl StorageLocation {
    /// The keyword, letter for letter.
    pub open spec fn spelling(self) -> Seq<char> {
        match self {
            StorageLocation::Calldata => "calldata"@,
            StorageLocation::Default => "default"@,
            StorageLocation::Memory => "memory"@,
            StorageLocation::Storage => "storage"@,
        }
    }

    /// The storage location that a text spells, if it spells one: the keyword in lower case and
    /// nothing else.
    pub open spec fn spelled_by(text: Seq<char>) -> Option<StorageLocation> {
        if text == "calldata"@ {
            Some(StorageLocation::Calldata)
        } else if text == "default"@ {
            Some(StorageLocation::Default)
        } else if text == "memory"@ {
            Some(StorageLocation::Memory)
        } else if text == "storage"@ {
            Some(StorageLocation::Storage)
        } else {
            None
        }
    }

    /// The keyword as it is written in the source and in the compiler's output.
    pub fn as_str(&self) -> (text: &'static str)
        ensures
            text@ == self.spelling(),
    {
        match self {
            StorageLocation::Calldata => "calldata",
            StorageLocation::Default => "default",
            StorageLocation::Memory => "memory",
            StorageLocation::Storage => "storage",
        }
    }

    /// Reads a keyword. Only the exact spellings are read: no capitals, no blanks, no
    /// other names for the same thing.
    pub fn from_str(text: &str) -> (r: Option<StorageLocation>)
        ensures
            r == StorageLocation::spelled_by(text@),
    {
        if same_text(text, "calldata") {
            Some(StorageLocation::Calldata)
        } else if same_text(text, "default") {
            Some(StorageLocation::Default)
        } else if same_text(text, "memory") {
            Some(StorageLocation::Memory)
        } else if same_text(text, "storage") {
            Some(StorageLocation::Storage)
        } else {
            None
        }
    }

    /// Reading the keyword of a storage location gives it back.
    pub proof fn spelling_is_read_back(self)
        ensures
            StorageLocation::spelled_by(self.spelling()) == Some(self),
    {
        reveal_strlit("calldata");
        reveal_strlit("default");
        reveal_strlit("memory");
        reveal_strlit("storage");
        assert("default"@ != "calldata"@) by {
            assert("default"@.len() != "calldata"@.len());
        }
        assert("memory"@ != "calldata"@) by {
            assert("memory"@.len() != "calldata"@.len());
        }
        assert("memory"@ != "default"@) by {
            assert("memory"@.len() != "default"@.len());
        }
        assert("storage"@ != "calldata"@) by {
            assert("storage"@.len() != "calldata"@.len());
        }
        assert("storage"@ != "default"@) by {
            assert("storage"@[0] != "default"@[0]);
        }
        assert("storage"@ != "memory"@) by {
            assert("storage"@.len() != "memory"@.len());
        }
    }
}

impl Visibility {
    /// The keyword, letter for letter.
    pub open spec fn spelling(self) -> Seq<char> {
        match self {
            Visibility::External => "external"@,
            Visibility::Public => "public"@,
            Visibility::Internal => "internal"@,
            Visibility::Private => "private"@,
        }
    }

    /// The visibility that a text spells, if it spells one: the keyword in lower case and
    /// nothing else.
    pub open spec fn spelled_by(text: Seq<char>) -> Option<Visibility> {
        if text == "external"@ {
            Some(Visibility::External)
        } else if text == "public"@ {
            Some(Visibility::Public)
        } else if text == "internal"@ {
            Some(Visibility::Internal)
        } else if text == "private"@ {
            Some(Visibility::Private)
        } else {
            None
        }
    }

    /// The keyword as it is written in the source and in the compiler's output.
    pub fn as_str(&self) -> (text: &'static str)
        ensures
            text@ == self.spelling(),
    {
        match self {
            Visibility::External => "external",
            Visibility::Public => "public",
            Visibility::Internal => "internal",
            Visibility::Private => "private",
        }
    }

    /// Reads a keyword. Only the exact spellings are read: no capitals, no blanks, no
    /// other names for the same thing.
    pub fn from_str(text: &str) -> (r: Option<Visibility>)
        ensures
            r == Visibility::spelled_by(text@),
    {
        if same_text(text, "external") {
            Some(Visibility::External)
        } else if same_text(text, "public") {
            Some(Visibility::Public)
        } else if same_text(text, "internal") {
            Some(Visibility::Internal)
        } else if same_text(text, "private") {
            Some(Visibility::Private)
        } else {
            None
        }
    }

    /// Reading the keyword of a visibility gives it back.
    pub proof fn spelling_is_read_back(self)
        ensures
            Visibility::spelled_by(self.spelling()) == Some(self),
    {
        reveal_strlit("external");
        reveal_strlit("public");
        reveal_strlit("internal");
        reveal_strlit("private");
        assert("public"@ != "external"@) by {
            assert("public"@.len() != "external"@.len());
        }
        assert("internal"@ != "external"@) by {
            assert("internal"@[0] != "external"@[0]);
        }
        assert("internal"@ != "public"@) by {
            assert("internal"@.len() != "public"@.len());
        }
        assert("private"@ != "external"@) by {
            assert("private"@.len() != "external"@.len());
        }
        assert("private"@ != "public"@) by {
            assert("private"@.len() != "public"@.len());
        }
        assert("private"@ != "internal"@) by {
            assert("private"@.len() != "internal"@.len());
        }
    }
}

impl SourceLocation {
    /// Reads a location from its text form. The text holds at least three fields
    /// that colons part, and every field is a signed integer. The first three are
    /// the parts of the location, a negative one standing for an unknown part;
    /// further fields are read and not kept. Any other text is refused, and the
    /// error carries it.
    pub fn from_str(s: &str) -> (r: Result<SourceLocation, MalformedLocation>)
        ensures
            decode(s@) matches Some(l) ==> r == Ok::<SourceLocation, MalformedLocation>(l),
            decode(s@) is None ==> (r matches Err(e) && e.text@ == s@),
    {
        let text = chars_of(s);
        let n = text.len();
        assert(text@.subrange(0, n as int) =~= s@);
        let (start, first_end) = read_field(&text, 0);
        if first_end >= n {
            return Err(MalformedLocation { text: s.to_owned() });
        }
        let ghost second = after_field(s@).unwrap();
        assert(second =~= text@.subrange(first_end + 1, n as int));
        let (length, second_end) = read_field(&text, first_end + 1);
        if second_end >= n {
            return Err(MalformedLocation { text: s.to_owned() });
        }
        let ghost third = after_field(second).unwrap();
        proof {
            lemma_first_colon_bounds(second);
            assert(second_end == first_end + 1 + first_colon(second));
            assert(third =~= text@.subrange(second_end + 1, n as int));
        }
        let (index, third_end) = read_field(&text, second_end + 1);
        let mut end = third_end;
        let ghost mut from: int = second_end + 1;
        let ghost mut field = third;
        proof {
            lemma_first_colon_bounds(third);
        }
        while end < n
            invariant
                n == text@.len(),
                decode(s@) is Some ==> later_fields_signed(third),
                0 <= from <= end <= n,
                field == text@.subrange(from, n as int),
                end == from + first_colon(field),
                later_fields_signed(third) == later_fields_signed(field),
            decreases n - end,
        {
            let ghost rest = after_field(field).unwrap();
            proof {
                assert(rest =~= text@.subrange(end + 1, n as int));
                lemma_first_colon_bounds(rest);
            }
            let (further, next_end) = read_field(&text, end + 1);
            assert(later_fields_signed(field) == (signed_value(head_field(rest)) is Some
                && later_fields_signed(rest)));
            match further {
                None => {
                    return Err(MalformedLocation { text: s.to_owned() });
                },
                Some(_) => {},
            }
            proof {
                from = end + 1;
                field = rest;
            }
            end = next_end;
        }
        proof {
            lemma_first_colon_bounds(field);
            assert(after_field(field) is None);
        }
        match (start, length, index) {
            (Some(start), Some(length), Some(index)) => Ok(SourceLocation { start, length, index }),
            _ => Err(MalformedLocation { text: s.to_owned() }),
        }
    }

    /// Writes the location in its text form: the three parts with colons between
    /// them, each known part as its decimal number and each unknown part as `-1`.
    pub fn to_string(&self) -> (text: String)
        ensures
            text@ == encode(*self),
    {
        proof {
            reveal_strlit(":");
        }
        let mut out = String::new();
        push_slot(&mut out, self.start);
        out.append(":");
        push_slot(&mut out, self.length);
        out.append(":");
        push_slot(&mut out, self.index);
        assert(out@ =~= encode(*self));
        out
    }
}

} // verus!
