//! Text as sequences of characters: conversions, comparison and small builders.

use vstd::prelude::*;
use vstd::utf8;

use crate::order;
use crate::views;

verus! {

/// `String::push` appends one character.
pub assume_specification[ String::push ](s: &mut String, c: char)
    ensures
        final(s)@ == old(s)@.push(c),
;

/// `String::pop` removes and returns the last character; it returns `None` for empty text.
pub assume_specification[ String::pop ](s: &mut String) -> (r: Option<char>)
    ensures
        old(s)@.len() == 0 ==> r == None::<char> && final(s)@ == old(s)@,
        old(s)@.len() > 0 ==> r == Some(old(s)@.last()) && final(s)@ == old(s)@.drop_last(),
;

/// `String::from_utf8` succeeds exactly on valid UTF-8, and yields the characters that it encodes.
#[verifier::external_body]
pub(crate) fn decoded(bytes: Vec<u8>) -> (r: Option<String>)
    ensures
        r is Some <==> utf8::valid_utf8(bytes@),
        r is Some ==> r->0@ == utf8::decode_utf8(bytes@),
{
    String::from_utf8(bytes).ok()
}

/// What `String::from_utf8_lossy` makes of bytes that are not UTF-8.
pub uninterp spec fn replaced_text(bytes: Seq<u8>) -> Seq<char>;

/// Bytes as text, with a stand-in for what is not UTF-8.
pub open spec fn lossy_text(bytes: Seq<u8>) -> Seq<char> {
    if utf8::valid_utf8(bytes) {
        utf8::decode_utf8(bytes)
    } else {
        replaced_text(bytes)
    }
}

/// `String::from_utf8_lossy` decodes valid UTF-8 exactly. What stands in for an invalid
/// sequence is left to the named function.
#[verifier::external_body]
pub(crate) fn lossy(bytes: &Vec<u8>) -> (r: String)
    ensures
        utf8::valid_utf8(bytes@) ==> r@ == utf8::decode_utf8(bytes@),
        !utf8::valid_utf8(bytes@) ==> r@ == replaced_text(bytes@),
{
    String::from_utf8_lossy(bytes).into_owned()
}

/// What `str::to_lowercase` makes of a text.
pub uninterp spec fn lowercase_text(text: Seq<char>) -> Seq<char>;

/// `str::to_lowercase` maps a text to its Unicode lowercase equivalent.
#[verifier::external_body]
pub(crate) fn lowercase(text: &str) -> (r: String)
    ensures
        r@ == lowercase_text(text@),
{
    text.to_lowercase()
}

/// What the `Debug` formatting of `str` makes of a text: quoted and escaped.
pub uninterp spec fn quoted_text(text: Seq<char>) -> Seq<char>;

/// The `Debug` formatting of `str` quotes a text and escapes what would not print.
#[verifier::external_body]
pub(crate) fn quoted(text: &str) -> (r: String)
    ensures
        r@ == quoted_text(text@),
{
    format!("{:?}", text)
}

/// A character that Unicode counts as white space.
pub open spec fn white_space(c: char) -> bool {
    let n = c as u32;
    ||| 0x9 <= n <= 0xd || n == 0x20 || n == 0x85 || n == 0xa0 || n == 0x1680
    ||| 0x2000 <= n <= 0x200a || n == 0x2028 || n == 0x2029 || n == 0x202f || n == 0x205f
    ||| n == 0x3000
}

/// A text without the white space that it begins with.
pub open spec fn without_leading_space(text: Seq<char>) -> Seq<char>
    decreases text.len(),
{
    if text.len() > 0 && white_space(text[0]) {
        without_leading_space(text.skip(1))
    } else {
        text
    }
}

/// A text without the white space that it ends with.
pub open spec fn without_trailing_space(text: Seq<char>) -> Seq<char>
    decreases text.len(),
{
    if text.len() > 0 && white_space(text.last()) {
        without_trailing_space(text.drop_last())
    } else {
        text
    }
}

/// A text without the white space around it.
pub open spec fn trimmed_text(text: Seq<char>) -> Seq<char> {
    without_trailing_space(without_leading_space(text))
}

/// The characters of a text.
pub fn chars_of(text: &str) -> (r: Vec<char>)
    ensures
        r@ == text@,
{
    let mut r: Vec<char> = Vec::new();
    for c in iter: text.chars()
        invariant
            iter.seq() == text@,
            r@ == text@.take(iter.index() as int),
    {
        r.push(c);
        assert(r@ =~= text@.take(iter.index() + 1));
    }
    assert(text@.take(text@.len() as int) =~= text@);
    r
}

/// The text made of the characters from `start` up to `end`.
pub fn slice_of(chars: &Vec<char>, start: usize, end: usize) -> (r: String)
    requires
        start <= end <= chars@.len(),
    ensures
        r@ == chars@.subrange(start as int, end as int),
{
    let mut r = String::new();
    let mut i: usize = start;
    assert(r@ =~= chars@.subrange(start as int, start as int));
    while i < end
        invariant
            start <= i <= end <= chars@.len(),
            r@ == chars@.subrange(start as int, i as int),
        decreases end - i,
    {
        r.push(chars[i]);
        i = i + 1;
        assert(r@ =~= chars@.subrange(start as int, i as int));
    }
    r
}

/// The text made of some characters.
pub fn text_of(chars: &Vec<char>) -> (r: String)
    ensures
        r@ == chars@,
{
    let r = slice_of(chars, 0, chars.len());
    assert(chars@.subrange(0, chars@.len() as int) =~= chars@);
    r
}

/// Two texts hold the same characters.
pub fn same(a: &str, b: &str) -> (r: bool)
    ensures
        r == (a@ == b@),
{
    let a = a.to_owned();
    let b = b.to_owned();
    a == b
}

/// A copy of a text with another appended.
pub fn joined(a: &str, b: &str) -> (r: String)
    ensures
        r@ == a@ + b@,
{
    let mut r = a.to_owned();
    r.append(b);
    r
}

/// Three texts in a row.
pub fn joined3(a: &str, b: &str, c: &str) -> (r: String)
    ensures
        r@ == a@ + b@ + c@,
{
    let mut r = a.to_owned();
    r.append(b);
    r.append(c);
    r
}

/// The index of a character at or after `from`, if it occurs there.
pub open spec fn first_index(s: Seq<char>, from: int, c: char) -> Option<int>
    decreases s.len() - from,
{
    if from >= s.len() {
        None
    } else if s[from] == c {
        Some(from)
    } else {
        first_index(s, from + 1, c)
    }
}

/// Whether a character occurs in a text.
pub fn contains(text: &str, c: char) -> (r: bool)
    ensures
        r == text@.contains(c),
{
    let chars = chars_of(text);
    let mut i: usize = 0;
    while i < chars.len()
        invariant
            i <= chars@.len(),
            chars@ == text@,
            forall|j: int| 0 <= j < i ==> chars@[j] != c,
        decreases chars.len() - i,
    {
        if chars[i] == c {
            assert(text@[i as int] == c);
            return true;
        }
        i = i + 1;
    }
    assert(!text@.contains(c));
    false
}

/// `needle` occurs in `hay` at index `i`.
pub open spec fn occurs_at(hay: Seq<char>, needle: Seq<char>, i: int) -> bool {
    0 <= i && i + needle.len() <= hay.len() && hay.subrange(i, i + needle.len() as int) == needle
}

/// `needle` occurs somewhere in `hay`.
pub open spec fn occurs(hay: Seq<char>, needle: Seq<char>) -> bool {
    exists|i: int| occurs_at(hay, needle, i)
}

/// Whether one text occurs within another.
pub fn contains_text(hay: &str, needle: &str) -> (r: bool)
    ensures
        r == occurs(hay@, needle@),
{
    let h = chars_of(hay);
    let n = chars_of(needle);
    if n.len() > h.len() {
        return false;
    }
    let mut i: usize = 0;
    while i <= h.len() - n.len()
        invariant
            h@ == hay@,
            n@ == needle@,
            n@.len() <= h@.len(),
            i <= h@.len() - n@.len() + 1,
            forall|k: int| 0 <= k < i ==> !occurs_at(hay@, needle@, k),
        decreases h.len() - n.len() + 1 - i,
    {
        let mut j: usize = 0;
        while j < n.len() && h[i + j] == n[j]
            invariant
                h@ == hay@,
                n@ == needle@,
                i + n.len() <= h.len(),
                j <= n@.len(),
                forall|k: int| 0 <= k < j ==> h@[i + k] == n@[k],
            decreases n.len() - j,
        {
            j = j + 1;
        }
        if j == n.len() {
            assert(hay@.subrange(i as int, i + needle@.len()) =~= needle@);
            assert(occurs_at(hay@, needle@, i as int));
            return true;
        }
        assert(!occurs_at(hay@, needle@, i as int)) by {
            assert(hay@[i + j] != needle@[j as int]);
            if occurs_at(hay@, needle@, i as int) {
                assert(hay@.subrange(i as int, i + needle@.len())[j as int] == needle@[j as int]);
            }
        }
        i = i + 1;
    }
    assert forall|k: int| !occurs_at(hay@, needle@, k) by {
        if occurs_at(hay@, needle@, k) {
            assert(k < i);
        }
    }
    false
}

/// The text behind a prefix, if the text starts with it.
pub fn without_prefix(text: &str, prefix: &str) -> (r: Option<String>)
    ensures
        r is Some <==> prefix@.is_prefix_of(text@),
        r is Some ==> r->0@ == text@.skip(prefix@.len() as int),
{
    let t = chars_of(text);
    let p = chars_of(prefix);
    if p.len() > t.len() {
        return None;
    }
    let mut i: usize = 0;
    while i < p.len()
        invariant
            t@ == text@,
            p@ == prefix@,
            i <= p@.len() <= t@.len(),
            forall|k: int| 0 <= k < i ==> t@[k] == p@[k],
        decreases p.len() - i,
    {
        if t[i] != p[i] {
            assert(!prefix@.is_prefix_of(text@));
            return None;
        }
        i = i + 1;
    }
    assert(prefix@.is_prefix_of(text@)) by {
        assert(prefix@ =~= text@.subrange(0, prefix@.len() as int));
    }
    let r = slice_of(&t, p.len(), t.len());
    assert(r@ =~= text@.skip(prefix@.len() as int));
    Some(r)
}

/// Characters are ordered by code point.
pub open spec fn char_order() -> spec_fn(char, char) -> bool {
    |a: char, b: char| a < b
}

/// Texts are ordered lexicographically by code point.
pub open spec fn text_order() -> spec_fn(Seq<char>, Seq<char>) -> bool {
    order::lexicographic(char_order())
}

/// The order of texts is strict and total.
pub proof fn text_order_is_strict()
    ensures
        order::strict_order(text_order()),
{
    order::lexicographic_order_is_strict(char_order());
}

/// Whether one text comes before another.
pub fn less(a: &str, b: &str) -> (r: bool)
    ensures
        r == text_order()(a@, b@),
{
    let x = chars_of(a);
    let y = chars_of(b);
    let mut i: usize = 0;
    while i < x.len() && i < y.len() && x[i] == y[i]
        invariant
            i <= x@.len(),
            i <= y@.len(),
            forall|j: int| 0 <= j < i ==> x@[j] == y@[j],
        decreases x.len() - i,
    {
        i = i + 1;
    }
    let r = i < y.len() && (i == x.len() || x[i] < y[i]);
    proof {
        if r {
            assert(order::falls_below_at(char_order(), a@, b@, i as int));
        } else {
            assert forall|k: int| !order::falls_below_at(char_order(), a@, b@, k) by {
                if order::falls_below_at(char_order(), a@, b@, k) {
                    if k < i {
                        assert(x@[k] == y@[k]);
                    } else if k > i {
                        assert(a@[i as int] == b@[i as int]);
                    }
                }
            }
        }
    }
    r
}

/// The decimal digits of a number.
pub open spec fn decimal(n: nat) -> Seq<char>
    decreases n,
{
    let last = seq![(48 + n % 10) as char];
    if n < 10 {
        last
    } else {
        decimal(n / 10) + last
    }
}

/// A number in decimal.
pub fn decimal_of(n: u128) -> (r: String)
    ensures
        r@ == decimal(n as nat),
    decreases n,
{
    let digit: u8 = 48u8 + (n % 10) as u8;
    let mut r = if n < 10 {
        String::new()
    } else {
        decimal_of(n / 10)
    };
    r.push(digit as char);
    assert(r@ =~= decimal(n as nat));
    r
}

/// Texts with a separator between neighbours.
pub open spec fn separated(parts: Seq<Seq<char>>, separator: Seq<char>) -> Seq<char>
    decreases parts.len(),
{
    if parts.len() == 0 {
        Seq::empty()
    } else if parts.len() == 1 {
        parts[0]
    } else {
        separated(parts.drop_last(), separator) + separator + parts.last()
    }
}

/// Texts with a separator between neighbours.
pub fn separate(parts: &Vec<String>, separator: &str) -> (r: String)
    ensures
        r@ == separated(views::views(parts@), separator@),
{
    let ghost all = views::views(parts@);
    let mut r = String::new();
    let mut i: usize = 0;
    assert(r@ =~= separated(all.take(0), separator@));
    while i < parts.len()
        invariant
            i <= parts@.len(),
            all == views::views(parts@),
            r@ == separated(all.take(i as int), separator@),
        decreases parts.len() - i,
    {
        assert(all.take(i + 1).drop_last() =~= all.take(i as int));
        assert(all.take(i + 1).last() == parts@[i as int]@);
        if i > 0 {
            r.append(separator);
        }
        r.append(&parts[i]);
        assert(i == 0 ==> r@ =~= parts@[0]@);
        i = i + 1;
    }
    assert(all.take(i as int) =~= all);
    r
}

/// A text without a carriage return at its end.
pub open spec fn without_return(s: Seq<char>) -> Seq<char> {
    if s.len() > 0 && s.last() == '\r' {
        s.drop_last()
    } else {
        s
    }
}

/// The lines of a text from some place on: each ends with a line feed, or a carriage return and a
/// line feed, but for the last one, which may end with the text.
pub open spec fn lines_from(s: Seq<char>, from: int) -> Seq<Seq<char>>
    decreases s.len() - from,
{
    if from < 0 || from >= s.len() {
        Seq::empty()
    } else {
        match first_index(s, from, '\n') {
            Some(i) => if from <= i < s.len() {
                seq![without_return(s.subrange(from, i))] + lines_from(s, i + 1)
            } else {
                Seq::empty()
            },
            None => seq![s.subrange(from, s.len() as int)],
        }
    }
}

/// The lines of a text.
pub open spec fn lines_of(s: Seq<char>) -> Seq<Seq<char>> {
    lines_from(s, 0)
}

proof fn absent_characters_are_not_found(s: Seq<char>, from: int, c: char)
    requires
        0 <= from <= s.len(),
        !s.contains(c),
    ensures
        first_index(s, from, c) is None,
    decreases s.len() - from,
{
    if from < s.len() {
        assert(s.contains(s[from]));
        absent_characters_are_not_found(s, from + 1, c);
    }
}

/// A text without line feeds is one line, unless it is empty.
pub proof fn one_line_without_line_feeds(s: Seq<char>)
    requires
        s.len() > 0,
        !s.contains('\n'),
    ensures
        lines_of(s) == seq![s],
{
    absent_characters_are_not_found(s, 0, '\n');
    assert(s.subrange(0, s.len() as int) =~= s);
}

fn is_white_space(c: char) -> (r: bool)
    ensures
        r == white_space(c),
{
    let n: u32 = c as u32;
    (0x9 <= n && n <= 0xd) || n == 0x20 || n == 0x85 || n == 0xa0 || n == 0x1680 || (0x2000 <= n
        && n <= 0x200a) || n == 0x2028 || n == 0x2029 || n == 0x202f || n == 0x205f || n == 0x3000
}

/// A text without the white space around it.
pub fn trimmed(text: &str) -> (r: String)
    ensures
        r@ == trimmed_text(text@),
{
    let chars = chars_of(text);
    let ghost s = text@;
    let mut start: usize = 0;
    assert(s.skip(0) =~= s);
    while start < chars.len() && is_white_space(chars[start])
        invariant
            start <= chars@.len(),
            chars@ == s,
            without_leading_space(s.skip(start as int)) == without_leading_space(s),
        decreases chars.len() - start,
    {
        assert(s.skip(start as int).skip(1) =~= s.skip(start + 1));
        start = start + 1;
    }
    let ghost rest = s.skip(start as int);
    let mut end: usize = chars.len();
    assert(s.subrange(start as int, end as int) =~= rest);
    while end > start && is_white_space(chars[end - 1])
        invariant
            start <= end <= chars@.len(),
            chars@ == s,
            without_trailing_space(s.subrange(start as int, end as int)) == without_trailing_space(
                rest,
            ),
        decreases end,
    {
        assert(s.subrange(start as int, end as int).drop_last() =~= s.subrange(
            start as int,
            end - 1,
        ));
        end = end - 1;
    }
    slice_of(&chars, start, end)
}

/// The lines of a text.
pub fn lines(text: &str) -> (r: Vec<String>)
    ensures
        views::views(r@) == lines_of(text@),
{
    let chars = chars_of(text);
    let ghost s = text@;
    let mut r: Vec<String> = Vec::new();
    let mut from: usize = 0;
    let mut i: usize = 0;
    assert(views::views(r@) + lines_from(s, 0) =~= lines_of(s));
    while i < chars.len()
        invariant
            from <= i <= chars@.len(),
            chars@ == s,
            from < s.len() ==> first_index(s, from as int, '\n') == first_index(
                s,
                i as int,
                '\n',
            ),
            views::views(r@) + lines_from(s, from as int) == lines_of(s),
        decreases chars.len() - i,
    {
        if chars[i] == '\n' {
            let ghost before = r@;
            let end: usize = if i > from && chars[i - 1] == '\r' {
                i - 1
            } else {
                i
            };
            let line = slice_of(&chars, from, end);
            assert(line@ =~= without_return(s.subrange(from as int, i as int)));
            r.push(line);
            assert(views::views(r@) =~= views::views(before).push(line@));
            assert(views::views(r@) + lines_from(s, i + 1) =~= views::views(before) + lines_from(
                s,
                from as int,
            ));
            from = i + 1;
        }
        i = i + 1;
    }
    if from < chars.len() {
        let ghost before = r@;
        let line = slice_of(&chars, from, chars.len());
        assert(line@ =~= s.subrange(from as int, s.len() as int));
        r.push(line);
        assert(views::views(r@) =~= views::views(before).push(line@));
        assert(views::views(r@) =~= views::views(before) + lines_from(s, from as int));
    } else {
        assert(views::views(r@) =~= views::views(r@) + lines_from(s, from as int));
    }
    r
}

/// The UTF-8 bytes of a text.
pub fn bytes_of(text: &str) -> (r: Vec<u8>)
    ensures
        r@ == utf8::encode_utf8(text@),
{
    let bytes = text.as_bytes();
    let mut r: Vec<u8> = Vec::new();
    let mut i: usize = 0;
    while i < bytes.len()
        invariant
            i <= bytes@.len(),
            bytes@ == utf8::encode_utf8(text@),
            r@ == bytes@.take(i as int),
        decreases bytes.len() - i,
    {
        r.push(bytes[i]);
        i = i + 1;
        assert(r@ =~= bytes@.take(i as int));
    }
    assert(bytes@.take(bytes@.len() as int) =~= bytes@);
    r
}

proof fn scalar_bytes(u: u32)
    requires
        utf8::is_scalar(u),
    ensures
        u < 0x80 ==> utf8::encode_scalar(u) == seq![u as u8],
        u >= 0x80 ==> forall|i: int|
            0 <= i < utf8::encode_scalar(u).len() ==> #[trigger] utf8::encode_scalar(u)[i] >= 0x80,
{
    if u < 0x80 {
        assert((u & 0x7f) as u8 == u as u8) by (bit_vector)
            requires
                u < 0x80,
        ;
        assert(utf8::encode_scalar(u) =~= seq![u as u8]);
    } else {
        assert(0xc0u8 | ((u >> 6) & 0x1f) as u8 >= 0x80) by (bit_vector);
        assert(0xe0u8 | ((u >> 12) & 0x0f) as u8 >= 0x80) by (bit_vector);
        assert(0xf0u8 | ((u >> 18) & 0x07) as u8 >= 0x80) by (bit_vector);
        assert(0x80u8 | (u & 0x3f) as u8 >= 0x80) by (bit_vector);
        assert(0x80u8 | ((u >> 6) & 0x3f) as u8 >= 0x80) by (bit_vector);
        assert(0x80u8 | ((u >> 12) & 0x3f) as u8 >= 0x80) by (bit_vector);
    }
}

/// An ASCII byte stands in the encoding of a text exactly where its character stands in the text.
pub proof fn ascii_bytes_of_text(s: Seq<char>, b: u8)
    requires
        b < 0x80,
    ensures
        utf8::encode_utf8(s).contains(b) <==> s.contains(b as char),
    decreases s.len(),
{
    let bytes = utf8::encode_utf8(s);
    if s.len() == 0 {
        assert(!bytes.contains(b));
    } else {
        let u = s[0] as u32;
        utf8::char_is_scalar(s[0]);
        scalar_bytes(u);
        let first = utf8::encode_scalar(u);
        let rest = utf8::encode_utf8(s.drop_first());
        ascii_bytes_of_text(s.drop_first(), b);
        assert(bytes == first + rest);
        if bytes.contains(b) {
            let i = choose|i: int| 0 <= i < bytes.len() && bytes[i] == b;
            if i < first.len() {
                assert(first[i] == b);
                assert(u < 0x80 ==> u as u8 as u32 == u) by (bit_vector);
                assert(u == b as u32);
                utf8::char_u32_cast(s[0], u);
                assert(s[0] == b as char);
            } else {
                assert(rest[i - first.len()] == b);
                assert(s.drop_first().contains(b as char));
                let j = choose|j: int|
                    0 <= j < s.drop_first().len() && s.drop_first()[j] == b as char;
                assert(s[j + 1] == b as char);
            }
        }
        if s.contains(b as char) {
            let j = choose|j: int| 0 <= j < s.len() && s[j] == b as char;
            if j == 0 {
                assert(u == b as u32);
                assert(first[0] == b);
                assert(bytes[0] == b);
            } else {
                assert(s.drop_first()[j - 1] == b as char);
                let i = choose|i: int| 0 <= i < rest.len() && rest[i] == b;
                assert(bytes[i + first.len()] == b);
            }
        }
    }
}

/// Texts one after the other are encoded one after the other.
pub proof fn encoding_of_appended(a: Seq<char>, b: Seq<char>)
    ensures
        utf8::encode_utf8(a + b) == utf8::encode_utf8(a) + utf8::encode_utf8(b),
    decreases a.len(),
{
    if a.len() == 0 {
        assert(a + b =~= b);
        assert(utf8::encode_utf8(a) + utf8::encode_utf8(b) =~= utf8::encode_utf8(b));
    } else {
        assert((a + b).drop_first() =~= a.drop_first() + b);
        encoding_of_appended(a.drop_first(), b);
        assert(utf8::encode_utf8(a + b) =~= utf8::encode_utf8(a) + utf8::encode_utf8(b));
    }
}

/// The encoding of one ASCII character in front of a text.
pub proof fn encoding_of_ascii(c: char, rest: Seq<char>)
    requires
        (c as u32) < 0x80,
    ensures
        utf8::encode_utf8(seq![c] + rest) == seq![c as u8] + utf8::encode_utf8(rest),
{
    let s = seq![c] + rest;
    utf8::char_is_scalar(c);
    scalar_bytes(c as u32);
    assert(s.drop_first() =~= rest);
    assert(s[0] == c);
}

} // verus!
