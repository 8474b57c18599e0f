//! Text: characters in and out of strings, numbers in decimal and hexadecimal, joining and
//! searching.
use vstd::prelude::*;
use vstd::string::*;

verus! {

/// `String::push` appends one character and changes nothing else.
pub assume_specification[ String::push ](s: &mut String, c: char)
    ensures
        final(s)@ == old(s)@.push(c),
;

/// A name for what `str::to_lowercase` makes of a text.
pub uninterp spec fn lowercase(s: Seq<char>) -> Seq<char>;

/// `str::to_lowercase` maps every character to its Unicode lower case, some of them to several
/// characters and one by its neighbours; the result depends on the text alone. Which characters
/// it maps to which is not stated.
#[verifier::external_body]
pub(crate) fn to_lowercase(s: &str) -> (r: String)
    ensures
        r@ == lowercase(s@),
{
    s.to_lowercase()
}

/// `char::from_u32` gives the character with that number, and none for a surrogate or for what lies
/// past the last character.
pub assume_specification[ char::from_u32 ](i: u32) -> (r: Option<char>)
    ensures
        r == if i < 0xD800 || 0xE000 <= i <= 0x10_FFFF {
            Some(i as char)
        } else {
            None
        },
;

/// The characters of a text.
pub fn chars_of(s: &str) -> (v: Vec<char>)
    ensures
        v@ == s@,
{
    let mut v: Vec<char> = Vec::new();
    for c in it: s.chars()
        invariant
            v@ == it.seq().take(it.index() as int),
            it.seq() == s@,
    {
        v.push(c);
        assert(v@ =~= it.seq().take(it.index() + 1));
    }
    assert(s@.take(s@.len() as int) =~= s@);
    v
}

/// The text of a row of characters.
pub fn string_of(v: &Vec<char>) -> (s: String)
    ensures
        s@ == v@,
{
    let mut s: String = String::new();
    let mut i: usize = 0;
    while i < v.len()
        invariant
            i <= v@.len(),
            s@ == v@.take(i as int),
        decreases v@.len() - i,
    {
        s.push(v[i]);
        i = i + 1;
        assert(s@ =~= v@.take(i as int));
    }
    assert(v@.take(v@.len() as int) =~= v@);
    s
}

/// A digit.
pub open spec fn digit(d: int) -> char {
    if d == 0 {
        '0'
    } else if d == 1 {
        '1'
    } else if d == 2 {
        '2'
    } else if d == 3 {
        '3'
    } else if d == 4 {
        '4'
    } else if d == 5 {
        '5'
    } else if d == 6 {
        '6'
    } else if d == 7 {
        '7'
    } else if d == 8 {
        '8'
    } else if d == 9 {
        '9'
    } else if d == 10 {
        'A'
    } else if d == 11 {
        'B'
    } else if d == 12 {
        'C'
    } else if d == 13 {
        'D'
    } else if d == 14 {
        'E'
    } else {
        'F'
    }
}

/// A number in decimal, without leading zeros.
pub open spec fn decimal(n: nat) -> Seq<char>
    decreases n,
{
    if n < 10 {
        seq![digit(n as int)]
    } else {
        decimal(n / 10).push(digit((n % 10) as int))
    }
}

/// An integer in decimal, with a sign where it is negative.
pub open spec fn signed_decimal(n: int) -> Seq<char> {
    if n < 0 {
        seq!['-'] + decimal((-n) as nat)
    } else {
        decimal(n as nat)
    }
}

/// A 32-bit number in eight hexadecimal digits.
pub open spec fn hex8(x: u32) -> Seq<char> {
    seq![
        digit((x / 0x1000_0000) as int),
        digit((x / 0x100_0000 % 16) as int),
        digit((x / 0x10_0000 % 16) as int),
        digit((x / 0x1_0000 % 16) as int),
        digit((x / 0x1000 % 16) as int),
        digit((x / 0x100 % 16) as int),
        digit((x / 0x10 % 16) as int),
        digit((x % 16) as int),
    ]
}

/// Texts one after the other, with a separator between two.
pub open spec fn joined(parts: Seq<Seq<char>>, sep: Seq<char>) -> Seq<char>
    decreases parts.len(),
{
    if parts.len() == 0 {
        Seq::empty()
    } else if parts.len() == 1 {
        parts[0]
    } else {
        joined(parts.drop_last(), sep) + sep + parts.last()
    }
}

/// The texts of a row of strings.
pub open spec fn texts(v: Seq<String>) -> Seq<Seq<char>> {
    Seq::new(v.len(), |i: int| v[i]@)
}

/// Whether `needle` stands at `i` of `hay`.
pub open spec fn stands_at(hay: Seq<char>, needle: Seq<char>, i: int) -> bool {
    0 <= i && i + needle.len() <= hay.len() && hay.subrange(i, i + needle.len()) == needle
}

/// Whether `needle` stands anywhere in `hay`.
pub open spec fn is_part(hay: Seq<char>, needle: Seq<char>) -> bool {
    exists|i: int| stands_at(hay, needle, i)
}

/// An ASCII capital letter as the small one, any other character as it is.
pub open spec fn ascii_lower(c: char) -> char {
    if 'A' <= c && c <= 'Z' {
        (c as u32 + 32) as char
    } else {
        c
    }
}

/// Two texts that differ at most in the case of ASCII letters.
pub open spec fn same_but_case(a: Seq<char>, b: Seq<char>) -> bool {
    a.len() == b.len() && forall|i: int|
        0 <= i < a.len() ==> ascii_lower(#[trigger] a[i]) == ascii_lower(b[i])
}

/// A text without the zero characters at its end.
pub open spec fn without_nuls(s: Seq<char>) -> Seq<char>
    decreases s.len(),
{
    if s.len() > 0 && s.last() == '\0' {
        without_nuls(s.drop_last())
    } else {
        s
    }
}

/// The 16-bit units of a character: itself, or two surrogates.
pub open spec fn char_units(c: char) -> Seq<u16> {
    let n = c as u32;
    if n < 0x1_0000 {
        seq![n as u16]
    } else {
        seq![
            (0xD800 + (n - 0x1_0000) / 0x400) as u16,
            (0xDC00 + (n - 0x1_0000) % 0x400) as u16,
        ]
    }
}

/// The 16-bit units of a text.
pub open spec fn utf16(s: Seq<char>) -> Seq<u16>
    decreases s.len(),
{
    if s.len() == 0 {
        Seq::empty()
    } else {
        utf16(s.drop_last()) + char_units(s.last())
    }
}

/// The first half of a pair of surrogates.
pub open spec fn is_high(unit: u16) -> bool {
    0xD800 <= unit < 0xDC00
}

/// The second half of a pair of surrogates.
pub open spec fn is_low(unit: u16) -> bool {
    0xDC00 <= unit < 0xE000
}

/// The character that two surrogates stand for.
pub open spec fn pair_char(high: u16, low: u16) -> char {
    (0x1_0000 + (high - 0xD800) * 0x400 + (low - 0xDC00)) as char
}

/// The text of a row of 16-bit units: a character for each unit or pair of surrogates, and the
/// replacement character for each surrogate that is in no pair.
pub open spec fn decoded_utf16(units: Seq<u16>) -> Seq<char>
    decreases units.len(),
{
    if units.len() == 0 {
        Seq::empty()
    } else if units.len() >= 2 && is_high(units[0]) && is_low(units[1]) {
        seq![pair_char(units[0], units[1])] + decoded_utf16(units.skip(2))
    } else if is_high(units[0]) || is_low(units[0]) {
        seq!['\u{FFFD}'] + decoded_utf16(units.skip(1))
    } else {
        seq![units[0] as char] + decoded_utf16(units.skip(1))
    }
}

/// The digit `d`.
pub fn digit_char(d: u32) -> (c: char)
    requires
        d < 16,
    ensures
        c == digit(d as int),
{
    match d {
        0 => '0',
        1 => '1',
        2 => '2',
        3 => '3',
        4 => '4',
        5 => '5',
        6 => '6',
        7 => '7',
        8 => '8',
        9 => '9',
        10 => 'A',
        11 => 'B',
        12 => 'C',
        13 => 'D',
        14 => 'E',
        _ => 'F',
    }
}

/// Appends a text.
pub fn push_str(s: &mut String, t: &str)
    ensures
        final(s)@ == old(s)@ + t@,
{
    s.append(t);
}

/// Appends a number in decimal.
pub fn push_decimal(s: &mut String, n: u64)
    ensures
        final(s)@ == old(s)@ + decimal(n as nat),
    decreases n,
{
    if n >= 10 {
        push_decimal(s, n / 10);
    }
    s.push(digit_char((n % 10) as u32));
    assert(s@ =~= old(s)@ + decimal(n as nat));
}

/// Appends an integer in decimal.
pub fn push_signed(s: &mut String, n: i64)
    requires
        n > i64::MIN,
    ensures
        final(s)@ == old(s)@ + signed_decimal(n as int),
{
    if n < 0 {
        s.push('-');
        push_decimal(s, (-n) as u64);
    } else {
        push_decimal(s, n as u64);
    }
    assert(s@ =~= old(s)@ + signed_decimal(n as int));
}

/// Appends a number in eight hexadecimal digits.
pub fn push_hex8(s: &mut String, x: u32)
    ensures
        final(s)@ == old(s)@ + hex8(x),
{
    s.push(digit_char(x / 0x1000_0000));
    s.push(digit_char(x / 0x100_0000 % 16));
    s.push(digit_char(x / 0x10_0000 % 16));
    s.push(digit_char(x / 0x1_0000 % 16));
    s.push(digit_char(x / 0x1000 % 16));
    s.push(digit_char(x / 0x100 % 16));
    s.push(digit_char(x / 0x10 % 16));
    s.push(digit_char(x % 16));
    assert(s@ =~= old(s)@ + hex8(x));
}

/// Joins texts.
pub fn join(parts: &Vec<String>, sep: &str) -> (s: String)
    ensures
        s@ == joined(texts(parts@), sep@),
{
    let mut s: String = String::new();
    let mut i: usize = 0;
    while i < parts.len()
        invariant
            i <= parts@.len(),
            s@ == joined(texts(parts@).take(i as int), sep@),
        decreases parts@.len() - i,
    {
        let ghost before = texts(parts@).take(i as int);
        let ghost after = texts(parts@).take(i + 1);
        assert(after.drop_last() =~= before);
        assert(after.last() == parts@[i as int]@);
        if i > 0 {
            s.append(sep);
        }
        s.append(parts[i].as_str());
        i = i + 1;
        assert(s@ =~= joined(after, sep@));
    }
    assert(texts(parts@).take(parts@.len() as int) =~= texts(parts@));
    s
}

/// Whether two rows of characters are equal.
pub fn same_chars(a: &Vec<char>, b: &Vec<char>) -> (same: bool)
    ensures
        same == (a@ == b@),
{
    if a.len() != b.len() {
        return false;
    }
    chars_stand_at(a, b, 0)
}

/// Whether `needle` stands at `at` of `hay`.
fn chars_stand_at(hay: &Vec<char>, needle: &Vec<char>, at: usize) -> (yes: bool)
    requires
        at + needle@.len() <= hay@.len(),
    ensures
        yes == stands_at(hay@, needle@, at as int),
        at == 0 && hay@.len() == needle@.len() ==> yes == (hay@ == needle@),
{
    let mut i: usize = 0;
    assert(at + needle.len() <= hay.len());
    while i < needle.len()
        invariant
            i <= needle@.len(),
            at + needle@.len() <= hay@.len(),
            hay@.len() <= usize::MAX,
            forall|k: int| 0 <= k < i ==> hay@[at + k] == #[trigger] needle@[k],
        decreases needle@.len() - i,
    {
        if hay[at + i] != needle[i] {
            assert(hay@.subrange(at as int, at + needle@.len())[i as int] != needle@[i as int]);
            return false;
        }
        i = i + 1;
    }
    assert(hay@.subrange(at as int, at + needle@.len()) =~= needle@);
    assert(at == 0 && hay@.len() == needle@.len() ==> hay@ =~= needle@);
    true
}

/// Whether `needle` stands anywhere in `hay`.
pub fn contains(hay: &str, needle: &str) -> (yes: bool)
    ensures
        yes == is_part(hay@, needle@),
{
    let h: Vec<char> = chars_of(hay);
    let n: Vec<char> = chars_of(needle);
    if n.len() > h.len() {
        return false;
    }
    let last: usize = h.len() - n.len();
    let mut i: usize = 0;
    while i < last
        invariant
            i <= last,
            last + n@.len() == h@.len(),
            h@ == hay@,
            n@ == needle@,
            forall|k: int| 0 <= k < i ==> !stands_at(h@, n@, k),
        decreases last - i,
    {
        if chars_stand_at(&h, &n, i) {
            return true;
        }
        i = i + 1;
    }
    chars_stand_at(&h, &n, last)
}

/// Whether a text starts with `prefix`.
pub fn starts_with(s: &str, prefix: &str) -> (yes: bool)
    ensures
        yes == stands_at(s@, prefix@, 0),
{
    let h: Vec<char> = chars_of(s);
    let p: Vec<char> = chars_of(prefix);
    if p.len() > h.len() {
        return false;
    }
    chars_stand_at(&h, &p, 0)
}

/// Whether two texts are equal.
pub fn same_text(a: &str, b: &str) -> (same: bool)
    ensures
        same == (a@ == b@),
{
    let x: Vec<char> = chars_of(a);
    let y: Vec<char> = chars_of(b);
    same_chars(&x, &y)
}

/// An ASCII capital letter as the small one.
pub fn ascii_lower_char(c: char) -> (r: char)
    ensures
        r == ascii_lower(c),
{
    if 'A' <= c && c <= 'Z' {
        let small: u8 = (c as u8) + 32;
        small as char
    } else {
        c
    }
}

/// Whether two texts differ at most in the case of ASCII letters.
pub fn eq_ignore_ascii_case(a: &str, b: &str) -> (same: bool)
    ensures
        same == same_but_case(a@, b@),
{
    let x: Vec<char> = chars_of(a);
    let y: Vec<char> = chars_of(b);
    if x.len() != y.len() {
        return false;
    }
    let mut i: usize = 0;
    while i < x.len()
        invariant
            i <= x@.len(),
            x@.len() == y@.len(),
            x@ == a@,
            y@ == b@,
            forall|k: int| 0 <= k < i ==> ascii_lower(#[trigger] x@[k]) == ascii_lower(y@[k]),
        decreases x@.len() - i,
    {
        if ascii_lower_char(x[i]) != ascii_lower_char(y[i]) {
            return false;
        }
        i = i + 1;
    }
    true
}

/// A text without the zero characters at its end.
pub fn trim_end_nuls(s: &str) -> (r: String)
    ensures
        r@ == without_nuls(s@),
{
    let mut v: Vec<char> = chars_of(s);
    while v.len() > 0 && v[v.len() - 1] == '\0'
        invariant
            without_nuls(v@) == without_nuls(s@),
        decreases v@.len(),
    {
        assert(v@.drop_last() =~= v@.take(v@.len() - 1));
        v.pop();
    }
    string_of(&v)
}

/// The character with a number that is one.
fn char_of(n: u32) -> (c: char)
    requires
        n < 0xD800 || 0xE000 <= n <= 0x10_FFFF,
    ensures
        c == n as char,
{
    match char::from_u32(n) {
        Some(c) => c,
        None => '\u{FFFD}',
    }
}

/// The text of a row of 16-bit units, with the replacement character for what is no text.
pub fn from_utf16_lossy(units: &[u16]) -> (s: String)
    ensures
        s@ == decoded_utf16(units@),
{
    let mut s: String = String::new();
    let mut i: usize = 0;
    assert(units@.skip(0) =~= units@);
    assert(s@ + decoded_utf16(units@) =~= decoded_utf16(units@));
    while i < units.len()
        invariant
            i <= units@.len(),
            s@ + decoded_utf16(units@.skip(i as int)) == decoded_utf16(units@),
        decreases units@.len() - i,
    {
        let ghost before = s@;
        let ghost left = units@.skip(i as int);
        let unit: u16 = units[i];
        let high: bool = 0xD800 <= unit && unit < 0xDC00;
        let low: bool = 0xDC00 <= unit && unit < 0xE000;
        if high && units.len() - i >= 2 && 0xDC00 <= units[i + 1] && units[i + 1] < 0xE000 {
            let n: u32 = 0x1_0000 + (unit as u32 - 0xD800) * 0x400 + (units[i + 1] as u32 - 0xDC00);
            s.push(char_of(n));
            assert(left.skip(2) =~= units@.skip(i + 2));
            i = i + 2;
        } else {
            if high || low {
                s.push('\u{FFFD}');
            } else {
                s.push(char_of(unit as u32));
            }
            assert(left.skip(1) =~= units@.skip(i + 1));
            i = i + 1;
        }
        assert(s@ + decoded_utf16(units@.skip(i as int)) =~= before + decoded_utf16(left));
    }
    assert(s@ + Seq::<char>::empty() =~= s@);
    s
}

/// The units of a text are those of its first character and those of the rest.
proof fn lemma_utf16_front(s: Seq<char>)
    requires
        s.len() > 0,
    ensures
        utf16(s) == char_units(s[0]) + utf16(s.drop_first()),
    decreases s.len(),
{
    if s.len() == 1 {
        assert(s.drop_last() =~= Seq::<char>::empty());
        assert(s.drop_first() =~= Seq::<char>::empty());
        assert(utf16(s.drop_last()) =~= Seq::<u16>::empty());
        assert(utf16(s.drop_first()) =~= Seq::<u16>::empty());
    } else {
        lemma_utf16_front(s.drop_last());
        assert(s.drop_last().drop_first() =~= s.drop_first().drop_last());
    }
    assert(utf16(s) =~= char_units(s[0]) + utf16(s.drop_first()));
}

/// What was encoded is decoded to the same text, whatever stands behind it.
pub proof fn law_encoded_text_is_read_back(s: Seq<char>, behind: Seq<u16>)
    ensures
        decoded_utf16(utf16(s)) == s,
        decoded_utf16(utf16(s) + behind) == s + decoded_utf16(behind),
{
    lemma_encoded_prefix(s, behind);
    lemma_encoded_prefix(s, Seq::empty());
    assert(utf16(s) + Seq::<u16>::empty() =~= utf16(s));
    assert(s + Seq::<char>::empty() =~= s);
}

/// The units of one character.
proof fn lemma_char_units(c: char)
    ensures
        char_units(c).len() == 1 ==> {
            let u = char_units(c)[0];
            !is_high(u) && !is_low(u) && u as char == c
        },
        char_units(c).len() != 1 ==> {
            let u = char_units(c);
            u.len() == 2 && is_high(u[0]) && is_low(u[1]) && pair_char(u[0], u[1]) == c
        },
        c != '\0' ==> forall|i: int|
            0 <= i < char_units(c).len() ==> #[trigger] char_units(c)[i] != 0,
{
}

proof fn lemma_encoded_prefix(s: Seq<char>, behind: Seq<u16>)
    ensures
        decoded_utf16(utf16(s) + behind) == s + decoded_utf16(behind),
    decreases s.len(),
{
    let units = utf16(s) + behind;
    if s.len() == 0 {
        assert(units =~= behind);
        assert(s + decoded_utf16(behind) =~= decoded_utf16(behind));
    } else {
        let c = s[0];
        let rest = s.drop_first();
        lemma_utf16_front(s);
        lemma_encoded_prefix(rest, behind);
        lemma_char_units(c);
        assert(units =~= char_units(c) + (utf16(rest) + behind));
        assert(units.skip(char_units(c).len() as int) =~= utf16(rest) + behind);
        assert(decoded_utf16(units) =~= s + decoded_utf16(behind));
    }
}

/// The units of a text are zero only where it has that character.
pub proof fn lemma_utf16_without_zero(s: Seq<char>)
    requires
        !s.contains('\0'),
    ensures
        forall|i: int| 0 <= i < utf16(s).len() ==> utf16(s)[i] != 0,
    decreases s.len(),
{
    if s.len() > 0 {
        let rest = s.drop_last();
        assert forall|i: int| 0 <= i < rest.len() implies rest[i] != '\0' by {
            assert(rest[i] == s[i]);
        }
        lemma_utf16_without_zero(rest);
        assert(s[s.len() - 1] != '\0');
        lemma_char_units(s.last());
        assert forall|i: int| 0 <= i < utf16(s).len() implies utf16(s)[i] != 0 by {
            if i < utf16(rest).len() {
                assert(utf16(s)[i] == utf16(rest)[i]);
            } else {
                assert(utf16(s)[i] == char_units(s.last())[i - utf16(rest).len()]);
            }
        }
    }
}

/// The 16-bit units of a text.
pub fn encode_utf16(s: &str) -> (units: Vec<u16>)
    ensures
        units@ == utf16(s@),
{
    let v: Vec<char> = chars_of(s);
    let mut units: Vec<u16> = Vec::new();
    let mut i: usize = 0;
    while i < v.len()
        invariant
            i <= v@.len(),
            v@ == s@,
            units@ == utf16(v@.take(i as int)),
        decreases v@.len() - i,
    {
        let n: u32 = v[i] as u32;
        proof {
            assert(v@.take(i + 1).drop_last() =~= v@.take(i as int));
        }
        if n < 0x1_0000 {
            units.push(n as u16);
        } else {
            units.push((0xD800 + (n - 0x1_0000) / 0x400) as u16);
            units.push((0xDC00 + (n - 0x1_0000) % 0x400) as u16);
        }
        i = i + 1;
        assert(units@ =~= utf16(v@.take(i as int)));
    }
    assert(v@.take(v@.len() as int) =~= v@);
    units
}

/// A text in UTF-16 with a closing zero.
pub fn zero_terminated(s: &str) -> (units: Vec<u16>)
    ensures
        units@ == utf16(s@).push(0),
{
    let mut units: Vec<u16> = encode_utf16(s);
    units.push(0);
    units
}

/// A character that counts as blank: those that Unicode calls white space.
pub open spec fn is_space(c: char) -> bool {
    ||| 0x9 <= c as u32 <= 0xD
    ||| c as u32 == 0x20
    ||| c as u32 == 0x85
    ||| c as u32 == 0xA0
    ||| c as u32 == 0x1680
    ||| 0x2000 <= c as u32 <= 0x200A
    ||| c as u32 == 0x2028
    ||| c as u32 == 0x2029
    ||| c as u32 == 0x202F
    ||| c as u32 == 0x205F
    ||| c as u32 == 0x3000
}

/// A text without the blanks in front of it.
pub open spec fn without_leading(s: Seq<char>) -> Seq<char>
    decreases s.len(),
{
    if s.len() > 0 && is_space(s[0]) {
        without_leading(s.drop_first())
    } else {
        s
    }
}

/// A text without the blanks behind it.
pub open spec fn without_trailing(s: Seq<char>) -> Seq<char>
    decreases s.len(),
{
    if s.len() > 0 && is_space(s.last()) {
        without_trailing(s.drop_last())
    } else {
        s
    }
}

/// A text without the blanks around it.
pub open spec fn trimmed(s: Seq<char>) -> Seq<char> {
    without_trailing(without_leading(s))
}

/// Whether a character counts as blank.
pub fn is_blank_char(c: char) -> (yes: bool)
    ensures
        yes == is_space(c),
{
    let n: u32 = c as u32;
    (0x9 <= n && n <= 0xD) || n == 0x20 || n == 0x85 || n == 0xA0 || n == 0x1680 || (0x2000 <= n
        && n <= 0x200A) || n == 0x2028 || n == 0x2029 || n == 0x202F || n == 0x205F || n == 0x3000
}

/// The text without the blanks around it.
pub fn trim(s: &str) -> (r: String)
    ensures
        r@ == trimmed(s@),
{
    let v: Vec<char> = chars_of(s);
    let mut from: usize = 0;
    assert(v@.skip(0) =~= v@);
    while from < v.len() && is_blank_char(v[from])
        invariant
            from <= v@.len(),
            without_leading(v@) == without_leading(v@.skip(from as int)),
        decreases v@.len() - from,
    {
        assert(v@.skip(from as int).drop_first() =~= v@.skip(from + 1));
        from = from + 1;
    }
    let mut to: usize = v.len();
    assert(v@.subrange(from as int, to as int) =~= v@.skip(from as int));
    while to > from && is_blank_char(v[to - 1])
        invariant
            from <= to <= v@.len(),
            trimmed(v@) == without_trailing(v@.subrange(from as int, to as int)),
        decreases to,
    {
        assert(v@.subrange(from as int, to as int).drop_last() =~= v@.subrange(
            from as int,
            to - 1,
        ));
        to = to - 1;
    }
    let mut out: String = String::new();
    let mut i: usize = from;
    assert(out@ =~= v@.subrange(from as int, i as int));
    while i < to
        invariant
            from <= i <= to <= v@.len(),
            out@ == v@.subrange(from as int, i as int),
        decreases to - i,
    {
        out.push(v[i]);
        i = i + 1;
        assert(out@ =~= v@.subrange(from as int, i as int));
    }
    out
}

/// A digit, the ones above nine as small letters.
pub open spec fn small_digit(d: int) -> char {
    if d < 10 {
        digit(d)
    } else {
        ascii_lower(digit(d))
    }
}

/// A number in hexadecimal with small letters, without leading zeros.
pub open spec fn small_hex(n: nat) -> Seq<char>
    decreases n,
{
    if n < 16 {
        seq![small_digit(n as int)]
    } else {
        small_hex(n / 16).push(small_digit((n % 16) as int))
    }
}

/// The last `width` digits of a number in hexadecimal with small letters.
pub open spec fn padded_hex(n: nat, width: nat) -> Seq<char>
    decreases width,
{
    if width == 0 {
        Seq::empty()
    } else {
        padded_hex(n / 16, (width - 1) as nat).push(small_digit((n % 16) as int))
    }
}

/// A digit, the ones above nine as small letters.
pub fn small_digit_char(d: u32) -> (c: char)
    requires
        d < 16,
    ensures
        c == small_digit(d as int),
{
    let c: char = digit_char(d);
    if d < 10 {
        c
    } else {
        ascii_lower_char(c)
    }
}

/// Appends a number in hexadecimal with small letters.
pub fn push_small_hex(s: &mut String, n: u64)
    ensures
        final(s)@ == old(s)@ + small_hex(n as nat),
    decreases n,
{
    if n >= 16 {
        push_small_hex(s, n / 16);
    }
    s.push(small_digit_char((n % 16) as u32));
    assert(s@ =~= old(s)@ + small_hex(n as nat));
}

/// Appends the last `width` digits of a number in hexadecimal with small letters.
pub fn push_padded_hex(s: &mut String, n: u64, width: u32)
    ensures
        final(s)@ == old(s)@ + padded_hex(n as nat, width as nat),
    decreases width,
{
    if width == 0 {
        assert(s@ =~= old(s)@ + padded_hex(n as nat, width as nat));
        return;
    }
    push_padded_hex(s, n / 16, width - 1);
    s.push(small_digit_char((n % 16) as u32));
    assert(s@ =~= old(s)@ + padded_hex(n as nat, width as nat));
}

// ---- what the texts say ----

/// The value of a digit, a capital or a small letter among them.
pub open spec fn digit_value(c: char) -> int {
    if 'a' <= c {
        c as int - 'a' as int + 10
    } else if 'A' <= c {
        c as int - 'A' as int + 10
    } else {
        c as int - '0' as int
    }
}

/// The number that a row of digits is read as.
pub open spec fn number(s: Seq<char>, base: int) -> int
    decreases s.len(),
{
    if s.len() == 0 {
        0
    } else {
        number(s.drop_last(), base) * base + digit_value(s.last())
    }
}

proof fn lemma_digit(d: int)
    requires
        0 <= d < 16,
    ensures
        digit_value(digit(d)) == d,
        digit_value(small_digit(d)) == d,
        digit(d) == '0' <==> d == 0,
        small_digit(d) == '0' <==> d == 0,
        d < 10 ==> '0' <= digit(d) <= '9' && small_digit(d) == digit(d),
        d >= 10 ==> 'A' <= digit(d) <= 'F' && 'a' <= small_digit(d) <= 'f',
{
    let low = ascii_lower(digit(d));
    assert(d >= 10 ==> low as int == digit(d) as int + 32);
}

proof fn lemma_one_more_digit(s: Seq<char>, c: char, base: int)
    ensures
        number(s.push(c), base) == number(s, base) * base + digit_value(c),
{
    assert(s.push(c).drop_last() =~= s);
}

/// A number in decimal is read as that number, has only decimal digits, and has no zero in front
/// but for zero itself, so no two numbers have the same text.
pub proof fn law_decimal_is_read_back(n: nat)
    ensures
        number(decimal(n), 10) == n,
        decimal(n).len() > 0,
        n > 0 ==> decimal(n)[0] != '0',
        forall|i: int| 0 <= i < decimal(n).len() ==> '0' <= #[trigger] decimal(n)[i] <= '9',
    decreases n,
{
    let none = Seq::<char>::empty();
    if n < 10 {
        lemma_digit(n as int);
        lemma_one_more_digit(none, digit(n as int), 10);
        assert(decimal(n) =~= none.push(digit(n as int)));
        assert(number(none, 10) == 0);
    } else {
        law_decimal_is_read_back(n / 10);
        lemma_digit((n % 10) as int);
        lemma_one_more_digit(decimal(n / 10), digit((n % 10) as int), 10);
        assert forall|i: int| 0 <= i < decimal(n).len() implies '0' <= #[trigger] decimal(n)[i]
            <= '9' by {
            if i < decimal(n / 10).len() {
                assert(decimal(n)[i] == decimal(n / 10)[i]);
            }
        }
    }
}

/// A negative number is a minus sign and the number without it.
pub proof fn law_sign_stands_in_front(n: int)
    ensures
        n >= 0 ==> number(signed_decimal(n), 10) == n && signed_decimal(n)[0] != '-',
        n < 0 ==> signed_decimal(n)[0] == '-' && number(signed_decimal(n).drop_first(), 10) == -n,
{
    if n >= 0 {
        law_decimal_is_read_back(n as nat);
        assert('0' <= decimal(n as nat)[0]);
    } else {
        law_decimal_is_read_back((-n) as nat);
        assert(signed_decimal(n).drop_first() =~= decimal((-n) as nat));
    }
}

/// A number in hexadecimal with small letters is read as that number and has no zero in front but
/// for zero itself.
pub proof fn law_small_hex_is_read_back(n: nat)
    ensures
        number(small_hex(n), 16) == n,
        small_hex(n).len() > 0,
        n > 0 ==> small_hex(n)[0] != '0',
    decreases n,
{
    let none = Seq::<char>::empty();
    if n < 16 {
        lemma_digit(n as int);
        lemma_one_more_digit(none, small_digit(n as int), 16);
        assert(small_hex(n) =~= none.push(small_digit(n as int)));
        assert(number(none, 16) == 0);
    } else {
        law_small_hex_is_read_back(n / 16);
        lemma_digit((n % 16) as int);
        lemma_one_more_digit(small_hex(n / 16), small_digit((n % 16) as int), 16);
    }
}

/// Sixteen to the power of `k`.
pub open spec fn power16(k: nat) -> int
    decreases k,
{
    if k == 0 {
        1
    } else {
        16 * power16((k - 1) as nat)
    }
}

/// A number in hexadecimal of a fixed width has that many digits and is read as that number, where
/// it fits.
pub proof fn law_padded_hex_is_read_back(n: nat, width: nat)
    ensures
        padded_hex(n, width).len() == width,
        n < power16(width) ==> number(padded_hex(n, width), 16) == n,
    decreases width,
{
    if width > 0 {
        law_padded_hex_is_read_back(n / 16, (width - 1) as nat);
        lemma_digit((n % 16) as int);
        lemma_one_more_digit(
            padded_hex(n / 16, (width - 1) as nat),
            small_digit((n % 16) as int),
            16,
        );
    }
}

/// A 32-bit number in eight digits is read as that number.
pub proof fn law_hex8_is_read_back(x: u32)
    ensures
        hex8(x).len() == 8,
        number(hex8(x), 16) == x,
{
    let n0 = x as nat;
    let n1 = n0 / 16;
    let n2 = n1 / 16;
    let n3 = n2 / 16;
    let n4 = n3 / 16;
    let n5 = n4 / 16;
    let n6 = n5 / 16;
    let n7 = n6 / 16;
    assert(n1 == x / 0x10 && n2 == x / 0x100 && n3 == x / 0x1000 && n4 == x / 0x1_0000);
    assert(n5 == x / 0x10_0000 && n6 == x / 0x100_0000 && n7 == x / 0x1000_0000);
    reveal_with_fuel(lead, 9);
    assert(hex8(x) =~= lead(n0, 8));
    assert(power16(8) == 0x1_0000_0000) by {
        reveal_with_fuel(power16, 9);
    }
    lemma_lead_read_back(n0, 8);
}

/// The last `width` digits of a number in hexadecimal with capital letters.
spec fn lead(n: nat, width: nat) -> Seq<char>
    decreases width,
{
    if width == 0 {
        Seq::empty()
    } else {
        lead(n / 16, (width - 1) as nat).push(digit((n % 16) as int))
    }
}

proof fn lemma_lead_read_back(n: nat, width: nat)
    ensures
        lead(n, width).len() == width,
        n < power16(width) ==> number(lead(n, width), 16) == n,
    decreases width,
{
    if width > 0 {
        lemma_lead_read_back(n / 16, (width - 1) as nat);
        lemma_digit((n % 16) as int);
        lemma_one_more_digit(lead(n / 16, (width - 1) as nat), digit((n % 16) as int), 16);
    }
}

/// Joining goes part by part: nothing comes out for no part, a part for itself, and for two rows
/// of parts the one, a separator and the other.
pub proof fn law_parts_are_joined_in_order(
    a: Seq<Seq<char>>,
    b: Seq<Seq<char>>,
    part: Seq<char>,
    sep: Seq<char>,
)
    ensures
        joined(Seq::<Seq<char>>::empty(), sep).len() == 0,
        joined(seq![part], sep) == part,
        a.len() > 0 && b.len() > 0 ==> joined(a + b, sep) == joined(a, sep) + sep + joined(b, sep),
    decreases b.len(),
{
    if a.len() > 0 && b.len() > 0 {
        assert((a + b).drop_last() =~= a + b.drop_last());
        if b.len() == 1 {
            assert(a + b.drop_last() =~= a);
            assert(joined(b, sep) == b[0]);
            assert(joined(a + b, sep) =~= joined(a, sep) + sep + joined(b, sep));
        } else {
            law_parts_are_joined_in_order(a, b.drop_last(), part, sep);
            assert(joined(a + b, sep) =~= joined(a, sep) + sep + joined(b, sep));
        }
    }
}

/// Trimming takes away blanks, from both ends and only from there, and leaves none at either end:
/// what is left, with blanks before and behind it, is the text.
pub proof fn law_trimming_takes_only_blanks_away(s: Seq<char>)
    ensures
        ({
            let t = trimmed(s);
            &&& t.len() > 0 ==> !is_space(t[0]) && !is_space(t.last())
            &&& exists|from: int|
                {
                    &&& 0 <= from <= from + t.len() <= s.len()
                    &&& t == #[trigger] s.subrange(from, from + t.len())
                    &&& forall|i: int| 0 <= i < from ==> is_space(#[trigger] s[i])
                    &&& forall|i: int| from + t.len() <= i < s.len() ==> is_space(#[trigger] s[i])
                }
        }),
{
    lemma_leading(s);
    let l = without_leading(s);
    lemma_trailing(l);
    let t = trimmed(s);
    let from = s.len() - l.len();
    assert(t =~= s.subrange(from, from + t.len()));
    assert forall|i: int| from + t.len() <= i < s.len() implies is_space(#[trigger] s[i]) by {
        assert(l[i - from] == s[i]);
    }
    if t.len() > 0 {
        assert(t[0] == l[0]);
    }
}

proof fn lemma_leading(s: Seq<char>)
    ensures
        ({
            let t = without_leading(s);
            let from = s.len() - t.len();
            &&& 0 <= from
            &&& t == s.subrange(from, s.len() as int)
            &&& t.len() > 0 ==> !is_space(t[0])
            &&& forall|i: int| 0 <= i < from ==> is_space(#[trigger] s[i])
        }),
    decreases s.len(),
{
    let t = without_leading(s);
    if s.len() > 0 && is_space(s[0]) {
        let rest = s.drop_first();
        lemma_leading(rest);
        let from = s.len() - t.len();
        assert(t =~= s.subrange(from, s.len() as int));
        assert forall|i: int| 0 <= i < from implies is_space(#[trigger] s[i]) by {
            if i > 0 {
                assert(rest[i - 1] == s[i]);
            }
        }
    } else {
        assert(t =~= s.subrange(0, s.len() as int));
    }
}

proof fn lemma_trailing(s: Seq<char>)
    ensures
        ({
            let t = without_trailing(s);
            &&& t.len() <= s.len()
            &&& t == s.subrange(0, t.len() as int)
            &&& t.len() > 0 ==> !is_space(t.last())
            &&& forall|i: int| t.len() <= i < s.len() ==> is_space(#[trigger] s[i])
        }),
    decreases s.len(),
{
    let t = without_trailing(s);
    if s.len() > 0 && is_space(s.last()) {
        let rest = s.drop_last();
        lemma_trailing(rest);
        assert(t =~= s.subrange(0, t.len() as int));
        assert forall|i: int| t.len() <= i < s.len() implies is_space(#[trigger] s[i]) by {
            if i < rest.len() {
                assert(rest[i] == s[i]);
            }
        }
    } else {
        assert(t =~= s.subrange(0, s.len() as int));
    }
}

/// Zero characters are taken from the end of a text, all of them, and nothing else is.
pub proof fn law_only_zeros_are_taken_from_the_end(s: Seq<char>)
    ensures
        ({
            let t = without_nuls(s);
            &&& t.len() <= s.len()
            &&& t == s.subrange(0, t.len() as int)
            &&& t.len() > 0 ==> t.last() != '\0'
            &&& forall|i: int| t.len() <= i < s.len() ==> #[trigger] s[i] == '\0'
        }),
    decreases s.len(),
{
    let t = without_nuls(s);
    if s.len() > 0 && s.last() == '\0' {
        let rest = s.drop_last();
        law_only_zeros_are_taken_from_the_end(rest);
        assert(t =~= s.subrange(0, t.len() as int));
        assert forall|i: int| t.len() <= i < s.len() implies #[trigger] s[i] == '\0' by {
            if i < rest.len() {
                assert(rest[i] == s[i]);
            }
        }
    } else {
        assert(t =~= s.subrange(0, s.len() as int));
    }
}

/// Only the twenty-six capital letters of ASCII have another character as the small one, which
/// stands 32 places behind them.
pub proof fn law_only_capitals_change(c: char)
    ensures
        ascii_lower(c) as int == if 65 <= c as int <= 90 {
            c as int + 32
        } else {
            c as int
        },
        ascii_lower(ascii_lower(c)) == ascii_lower(c),
{
}

/// A text has another in it exactly where that stands between two further texts, which may be
/// empty: at the beginning, at the end or anywhere between.
pub proof fn law_part_stands_between(front: Seq<char>, part: Seq<char>, behind: Seq<char>, hay: Seq<char>)
    ensures
        is_part(front + part + behind, part),
        stands_at(front + part + behind, part, front.len() as int),
        is_part(hay, part) ==> exists|i: int|
            0 <= i <= hay.len() && hay == #[trigger] hay.take(i) + part + hay.skip(
                i + part.len(),
            ),
        stands_at(hay, part, 0) <==> part.len() <= hay.len() && hay.take(part.len() as int) == part,
{
    let all = front + part + behind;
    let n = front.len() as int;
    assert(all.subrange(n, n + part.len()) =~= part);
    assert(stands_at(all, part, n));
    if is_part(hay, part) {
        let i = choose|i: int| stands_at(hay, part, i);
        assert(hay =~= hay.take(i) + hay.subrange(i, i + part.len()) + hay.skip(i + part.len()));
    }
    if part.len() <= hay.len() {
        assert(hay.subrange(0, part.len() as int) =~= hay.take(part.len() as int));
    }
}

} // verus!
