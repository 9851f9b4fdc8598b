//! What the element readers share: their error and the lookup of attributes
//! by local name.

use vstd::prelude::*;

use crate::xml_parser::{attributes_view, opt_text, AttributeModel, EventModel, OwnedAttribute, XmlEvent};

verus! {

/// Why an element could not be read.
#[derive(Debug, PartialEq, Eq)]
pub enum ReaderError {
    /// The element, or the event stream it stands in, is not as expected.
    XMLReadError,
    /// A number that the element needs is not a decimal number in range.
    NumberParseError,
}

/// The value of the last attribute with the given local name.
pub open spec fn last_value(attributes: Seq<AttributeModel>, key: Seq<char>) -> Option<Seq<char>>
    decreases attributes.len(),
{
    if attributes.len() == 0 {
        None
    } else if attributes.last().name.local_name == key {
        Some(attributes.last().value)
    } else {
        last_value(attributes.drop_last(), key)
    }
}

/// Looking one attribute further: its value wins where its name is the key.
proof fn lemma_last_value_step(attributes: Seq<AttributeModel>, i: int, key: Seq<char>)
    requires
        0 <= i < attributes.len(),
    ensures
        last_value(attributes.take(i + 1), key) == if attributes[i].name.local_name == key {
            Some(attributes[i].value)
        } else {
            last_value(attributes.take(i), key)
        },
{
    assert(attributes.take(i + 1).drop_last() =~= attributes.take(i));
}

/// The text equals the literal.
pub fn is_named(text: &String, literal: &str) -> (b: bool)
    ensures
        b == (text@ == literal@),
{
    let expected = String::from_str(literal);
    *text == expected
}

/// The value of the last attribute whose local name is `key`.
pub fn last_attribute_value(attributes: &[OwnedAttribute], key: &str) -> (r: Option<String>)
    ensures
        opt_text(r) == last_value(attributes_view(attributes@), key@),
{
    let ghost all = attributes_view(attributes@);
    let mut found: Option<String> = None;
    let n = attributes.len();
    let mut i: usize = 0;
    while i < n
        invariant
            n == attributes@.len(),
            all == attributes_view(attributes@),
            i <= n,
            opt_text(found) == last_value(all.take(i as int), key@),
        decreases n - i,
    {
        proof {
            lemma_last_value_step(all, i as int, key@);
        }
        if is_named(&attributes[i].name.local_name, key) {
            found = Some(attributes[i].value.clone());
        }
        i = i + 1;
    }
    assert(all.take(n as int) =~= all);
    found
}


/// The value of the first attribute with the given local name.
pub open spec fn first_value(attributes: Seq<AttributeModel>, key: Seq<char>) -> Option<Seq<char>>
    decreases attributes.len(),
{
    if attributes.len() == 0 {
        None
    } else if attributes[0].name.local_name == key {
        Some(attributes[0].value)
    } else {
        first_value(attributes.drop_first(), key)
    }
}

/// The value of the first attribute with local name `key`.
pub fn first_attribute_value(attributes: &[OwnedAttribute], key: &str) -> (r: Option<String>)
    ensures
        opt_text(r) == first_value(attributes_view(attributes@), key@),
{
    let ghost all = attributes_view(attributes@);
    let n = attributes.len();
    let mut i: usize = 0;
    assert(all.skip(0) =~= all);
    while i < n
        invariant
            n == attributes@.len(),
            all == attributes_view(attributes@),
            i <= n,
            first_value(all, key@) == first_value(all.skip(i as int), key@),
        decreases n - i,
    {
        assert(all.skip(i as int).drop_first() =~= all.skip(i + 1));
        if is_named(&attributes[i].name.local_name, key) {
            return Some(attributes[i].value.clone());
        }
        i = i + 1;
    }
    None
}

/// The `w:val` of an element: its first attribute with local name `val`.
pub fn read_val(attributes: &[OwnedAttribute]) -> (r: Option<String>)
    ensures
        opt_text(r) == first_value(attributes_view(attributes@), "val"@),
{
    first_attribute_value(attributes, "val")
}

/// An on/off property: off where `w:val` is `0` or `false`, on otherwise,
/// also where there is no `w:val`.
pub open spec fn on_off(attributes: Seq<AttributeModel>) -> bool {
    match first_value(attributes, "val"@) {
        Some(v) => v != "0"@ && v != "false"@,
        None => true,
    }
}

/// Reads an on/off property.
pub fn read_bool(attributes: &[OwnedAttribute]) -> (b: bool)
    ensures
        b == on_off(attributes_view(attributes@)),
{
    match read_val(attributes) {
        Some(v) => !is_named(&v, "0") && !is_named(&v, "false"),
        None => true,
    }
}

/// The value of the first attribute, whatever its name.
pub open spec fn leading_value(attributes: Seq<AttributeModel>) -> Option<Seq<char>> {
    if attributes.len() > 0 {
        Some(attributes[0].value)
    } else {
        None
    }
}

/// The value of the first attribute; none for an element without attributes.
pub fn first_value_of(attributes: &[OwnedAttribute]) -> (r: Option<String>)
    ensures
        opt_text(r) == leading_value(attributes_view(attributes@)),
{
    if attributes.len() > 0 {
        Some(attributes[0].value.clone())
    } else {
        None
    }
}

// ---------------------------------------------------------------------------
// Decimal numbers
// ---------------------------------------------------------------------------

pub open spec fn is_digit(c: char) -> bool {
    '0' <= c <= '9'
}

pub open spec fn digit_value(c: char) -> nat {
    (c as u32 - '0' as u32) as nat
}

/// The number that a string of decimal digits stands for.
pub open spec fn digits_value(d: Seq<char>) -> nat
    decreases d.len(),
{
    if d.len() == 0 {
        0
    } else {
        digits_value(d.drop_last()) * 10 + digit_value(d.last())
    }
}

/// The digits of an unsigned number: an optional leading `+` is dropped.
pub open spec fn unsigned_digits(s: Seq<char>) -> Seq<char> {
    if s.len() > 0 && s[0] == '+' {
        s.drop_first()
    } else {
        s
    }
}

/// What `usize::from_str` accepts: an optional `+` and at least one decimal
/// digit, nothing else; the number it stands for, of any size.
pub open spec fn decimal_value(s: Seq<char>) -> Option<nat> {
    let d = unsigned_digits(s);
    if d.len() > 0 && (forall|i: int| 0 <= i < d.len() ==> is_digit(#[trigger] d[i])) {
        Some(digits_value(d))
    } else {
        None
    }
}

/// The number a text stands for, where it fits in a `usize`.
pub open spec fn usize_value(s: Seq<char>) -> Option<usize> {
    match decimal_value(s) {
        Some(v) => if v <= usize::MAX {
            Some(v as usize)
        } else {
            None
        },
        None => None,
    }
}

/// The number a text stands for, where it fits in a `u32`.
pub open spec fn u32_value(s: Seq<char>) -> Option<u32> {
    match decimal_value(s) {
        Some(v) => if v <= u32::MAX {
            Some(v as u32)
        } else {
            None
        },
        None => None,
    }
}

proof fn lemma_digits_value_grows(d: Seq<char>, j: int, k: int)
    requires
        0 <= j <= k <= d.len(),
    ensures
        digits_value(d.take(j)) <= digits_value(d.take(k)),
    decreases k - j,
{
    if j < k {
        lemma_digits_value_grows(d, j, k - 1);
        assert(d.take(k).drop_last() =~= d.take(k - 1));
    }
}

/// Parses an unsigned decimal number as `usize::from_str` does.
pub fn parse_usize(s: &String) -> (r: Option<usize>)
    ensures
        r == usize_value(s@),
{
    broadcast use vstd::string::group_string_axioms;

    let n = s.as_str().unicode_len();
    let mut i: usize = 0;
    if n > 0 && s.as_str().get_char(0) == '+' {
        i = 1;
    }
    let ghost d = unsigned_digits(s@);
    let ghost start = i as int;
    assert(d == s@.skip(start));
    if i == n {
        return None;
    }
    let mut acc: usize = 0;
    while i < n
        invariant
            n == s@.len(),
            d == s@.skip(start),
            d == unsigned_digits(s@),
            0 <= start <= i <= n,
            start < n,
            forall|j: int| 0 <= j < i - start ==> is_digit(#[trigger] d[j]),
            acc == digits_value(d.take(i - start)),
        decreases n - i,
    {
        let c = s.as_str().get_char(i);
        assert(c == d[i - start]);
        if c < '0' || c > '9' {
            assert(!is_digit(d[i - start]));
            assert(decimal_value(s@) is None);
            return None;
        }
        let v = (c as u32 - '0' as u32) as usize;
        assert(d.take(i - start + 1).drop_last() =~= d.take(i - start));
        match acc.checked_mul(10) {
            Some(m) => match m.checked_add(v) {
                Some(a) => {
                    acc = a;
                },
                None => {
                    proof {
                        lemma_overflow_is_none(d, i - start + 1);
                    }
                    return None;
                },
            },
            None => {
                proof {
                    lemma_overflow_is_none(d, i - start + 1);
                }
                return None;
            },
        }
        i = i + 1;
    }
    assert(d.take(n - start) =~= d);
    Some(acc)
}

proof fn lemma_overflow_is_none(d: Seq<char>, k: int)
    requires
        0 < k <= d.len(),
        digits_value(d.take(k)) > usize::MAX,
    ensures
        decimal_value_of_digits(d) is None || digits_value(d) > usize::MAX,
{
    lemma_digits_value_grows(d, k, d.len() as int);
    assert(d.take(d.len() as int) =~= d);
    assert(d.take(k).len() == k);
}

pub open spec fn decimal_value_of_digits(d: Seq<char>) -> Option<nat> {
    if d.len() > 0 && (forall|i: int| 0 <= i < d.len() ==> is_digit(#[trigger] d[i])) {
        Some(digits_value(d))
    } else {
        None
    }
}

/// Parses an unsigned decimal number as `u32::from_str` does.
pub fn parse_u32(s: &String) -> (r: Option<u32>)
    ensures
        r == u32_value(s@),
{
    match parse_usize(s) {
        Some(v) => if v <= u32::MAX as usize {
            Some(v as u32)
        } else {
            None
        },
        None => None,
    }
}

/// A numeric attribute read in order: it is 0 where no attribute has the
/// name, the number of the last one that has it, and an error as soon as one
/// that has it is not a number.
pub open spec fn numeric_attribute(attributes: Seq<AttributeModel>, key: Seq<char>, n: nat) -> Result<usize, ReaderError>
    decreases n,
{
    if n == 0 {
        Ok(0)
    } else {
        match numeric_attribute(attributes, key, (n - 1) as nat) {
            Err(e) => Err(e),
            Ok(v) => if attributes[n - 1].name.local_name == key {
                match usize_value(attributes[n - 1].value) {
                    Some(x) => Ok(x),
                    None => Err(ReaderError::NumberParseError),
                }
            } else {
                Ok(v)
            },
        }
    }
}

proof fn lemma_numeric_attribute_err(attributes: Seq<AttributeModel>, key: Seq<char>, k: nat, n: nat)
    requires
        k <= n,
        numeric_attribute(attributes, key, k) is Err,
    ensures
        numeric_attribute(attributes, key, n) == numeric_attribute(attributes, key, k),
    decreases n - k,
{
    if k < n {
        lemma_numeric_attribute_err(attributes, key, k, (n - 1) as nat);
    }
}

/// Reads a numeric attribute such as `w:abstractNumId` or `w:ilvl`.
pub fn read_numeric_attribute(attributes: &[OwnedAttribute], key: &str) -> (r: Result<usize, ReaderError>)
    ensures
        r == numeric_attribute(attributes_view(attributes@), key@, attributes@.len()),
{
    let ghost all = attributes_view(attributes@);
    let n = attributes.len();
    let mut v: usize = 0;
    let mut i: usize = 0;
    while i < n
        invariant
            n == attributes@.len(),
            all == attributes_view(attributes@),
            i <= n,
            numeric_attribute(all, key@, i as nat) == Ok::<usize, ReaderError>(v),
        decreases n - i,
    {
        if is_named(&attributes[i].name.local_name, key) {
            match parse_usize(&attributes[i].value) {
                Some(x) => {
                    v = x;
                },
                None => {
                    proof {
                        lemma_numeric_attribute_err(all, key@, (i + 1) as nat, n as nat);
                    }
                    return Err(ReaderError::NumberParseError);
                },
            }
        }
        i = i + 1;
    }
    Ok(v)
}


/// What an element reader reads: an event, or `None` where the stream broke.
pub open spec fn event_of<E>(e: Result<XmlEvent, E>) -> Option<EventModel> {
    match e {
        Ok(x) => Some(x@),
        Err(_) => None,
    }
}

/// The event read is a start tag with this local name.
pub open spec fn start_named(ev: Option<EventModel>, n: Seq<char>) -> bool {
    ev matches Some(EventModel::Start { name, .. }) && name.local_name == n
}

/// The event read is an end tag with this local name.
pub open spec fn end_named(ev: Option<EventModel>, n: Seq<char>) -> bool {
    ev matches Some(EventModel::End { name }) && name.local_name == n
}

/// The event read is a start tag.
pub open spec fn is_start(ev: Option<EventModel>) -> bool {
    ev matches Some(EventModel::Start { .. })
}

/// The event read is an end tag.
pub open spec fn is_end(ev: Option<EventModel>) -> bool {
    ev matches Some(EventModel::End { .. })
}

/// The attributes of the start tag read; none for any other event.
pub open spec fn attrs_of(ev: Option<EventModel>) -> Seq<AttributeModel> {
    match ev {
        Some(EventModel::Start { attributes, .. }) => attributes,
        _ => Seq::empty(),
    }
}

// ---------------------------------------------------------------------------
// Laws
// ---------------------------------------------------------------------------

/// Looking an attribute up by its local name from the front: none among no
/// attributes; the first attribute where it has the name, and otherwise the
/// lookup among the rest.
pub proof fn law_first_value(x: AttributeModel, rest: Seq<AttributeModel>, key: Seq<char>)
    ensures
        first_value(Seq::empty(), key) is None,
        first_value(seq![x] + rest, key) == if x.name.local_name == key {
            Some(x.value)
        } else {
            first_value(rest, key)
        },
{
    let all = seq![x] + rest;
    assert(all[0] == x);
    assert(all.drop_first() =~= rest);
}

/// Looking an attribute up by its local name from the back: none among no
/// attributes; the last attribute where it has the name, and otherwise the
/// lookup among those before it.
pub proof fn law_last_value(before: Seq<AttributeModel>, x: AttributeModel, key: Seq<char>)
    ensures
        last_value(Seq::empty(), key) is None,
        last_value(before.push(x), key) == if x.name.local_name == key {
            Some(x.value)
        } else {
            last_value(before, key)
        },
{
    assert(before.push(x).drop_last() =~= before);
}

proof fn lemma_numeric_attribute_prefix(a: Seq<AttributeModel>, x: AttributeModel, key: Seq<char>, n: nat)
    requires
        n <= a.len(),
    ensures
        numeric_attribute(a.push(x), key, n) == numeric_attribute(a, key, n),
    decreases n,
{
    if n > 0 {
        lemma_numeric_attribute_prefix(a, x, key, (n - 1) as nat);
        assert(a.push(x)[n - 1] == a[n - 1]);
    }
}

/// A numeric attribute is 0 among no attributes. One more attribute of the
/// name sets it to the number it holds, or fails with a number error where
/// it holds none; one of another name leaves it; an error stays.
pub proof fn law_numeric_attribute(before: Seq<AttributeModel>, x: AttributeModel, key: Seq<char>)
    ensures
        numeric_attribute(Seq::empty(), key, 0) == Ok::<usize, ReaderError>(0),
        numeric_attribute(before.push(x), key, before.len() + 1) == match numeric_attribute(
            before,
            key,
            before.len(),
        ) {
            Err(e) => Err(e),
            Ok(v) => if x.name.local_name == key {
                match usize_value(x.value) {
                    Some(n) => Ok(n),
                    None => Err(ReaderError::NumberParseError),
                }
            } else {
                Ok(v)
            },
        },
{
    lemma_numeric_attribute_prefix(before, x, key, before.len());
    assert(before.push(x)[before.len() as int] == x);
}

/// Decimal numbers as `usize::from_str` reads them: a single digit stands
/// for its value; one more digit multiplies by ten and adds its value; an
/// empty text, a lone `+` and a text with a character that is not a digit
/// after an optional leading `+` stand for no number; a leading `+` is
/// dropped. A number fits a `usize` or a `u32` exactly where it is at most
/// the largest of the type.
pub proof fn law_decimal_value(d: Seq<char>, c: char)
    ensures
        decimal_value(Seq::empty()) is None,
        decimal_value(seq!['+']) is None,
        '0' <= c <= '9' ==> decimal_value(seq![c]) == Some((c as u32 - 48) as nat),
        '0' <= c <= '9' && decimal_value(d) is Some && d[0] != '+' ==> decimal_value(d.push(c)) == Some(
            (decimal_value(d)->0 * 10 + (c as u32 - 48)) as nat,
        ),
        !('0' <= c <= '9') && c != '+' ==> decimal_value(seq![c] + d) is None,
        !('0' <= c <= '9') && d.len() > 0 && d[0] != '+' ==> decimal_value(d.push(c)) is None,
        d.len() > 0 && d[0] != '+' ==> decimal_value(seq!['+'] + d) == decimal_value(d),
        usize_value(d) == (if decimal_value(d) matches Some(v) && v <= usize::MAX {
            Some(decimal_value(d)->0 as usize)
        } else {
            None
        }),
        u32_value(d) == (if decimal_value(d) matches Some(v) && v <= u32::MAX {
            Some(decimal_value(d)->0 as u32)
        } else {
            None
        }),
{
    let one = seq![c];
    assert(one.drop_last().len() == 0);
    assert(unsigned_digits(Seq::<char>::empty()).len() == 0);
    assert(unsigned_digits(seq!['+']) =~= Seq::<char>::empty());
    if '0' <= c <= '9' {
        assert(one[0] == c);
        assert(unsigned_digits(one) == one);
        assert(one.last() == c);
        assert(digits_value(one.drop_last()) == 0);
        assert forall|i: int| 0 <= i < one.len() implies is_digit(#[trigger] one[i]) by {
            assert(i == 0);
        }
        assert(('0' as u32) == 48);
    }
    if '0' <= c <= '9' && decimal_value(d) is Some && d[0] != '+' {
        let e = d.push(c);
        assert(unsigned_digits(e) == e);
        assert(unsigned_digits(d) == d);
        assert(e.drop_last() =~= d);
        assert forall|i: int| 0 <= i < e.len() implies is_digit(#[trigger] e[i]) by {
            if i < d.len() {
                assert(e[i] == d[i]);
                assert(is_digit(d[i]));
            }
        }
    }
    if !('0' <= c <= '9') && c != '+' {
        let e = seq![c] + d;
        assert(e[0] == c);
        assert(unsigned_digits(e) == e);
        assert(!is_digit(e[0]));
    }
    if !('0' <= c <= '9') && d.len() > 0 && d[0] != '+' {
        let e = d.push(c);
        assert(e[0] == d[0]);
        assert(unsigned_digits(e) == e);
        assert(!is_digit(e[e.len() - 1]));
    }
    if d.len() > 0 && d[0] != '+' {
        let e = seq!['+'] + d;
        assert(e[0] == '+');
        assert(e.drop_first() =~= d);
        assert(unsigned_digits(d) == d);
    }
}

} // verus!
