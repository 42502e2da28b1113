//! Text helpers shared by the other modules: splitting, joining, trimming and
//! rendering numbers, each stated over the characters of the text.
use vstd::prelude::*;
use vstd::string::{StrSliceExecFns, StringExecFns};

verus! {

/// The characters of each string, in order.
pub open spec fn views(items: Seq<String>) -> Seq<Seq<char>> {
    items.map_values(|s: String| s@)
}

/// The characters of the string, if there is one.
pub open spec fn option_view(item: Option<String>) -> Option<Seq<char>> {
    match item {
        Some(s) => Some(s@),
        None => None,
    }
}

/// The characters of each string that is there.
pub open spec fn option_views(items: Seq<Option<String>>) -> Seq<Option<Seq<char>>> {
    items.map_values(|o: Option<String>| option_view(o))
}

/// The pieces laid end to end with `sep` between each two neighbours.
pub open spec fn joined(pieces: Seq<Seq<char>>, sep: Seq<char>) -> Seq<char>
    decreases pieces.len(),
{
    if pieces.len() == 0 {
        Seq::empty()
    } else if pieces.len() == 1 {
        pieces[0]
    } else {
        joined(pieces.drop_last(), sep) + sep + pieces.last()
    }
}

/// The pieces of `text` between the occurrences of `sep`: always one more than
/// there are separators, so the empty text has one empty piece.
pub open spec fn split(text: Seq<char>, sep: char) -> Seq<Seq<char>>
    decreases text.len(),
{
    if text.len() == 0 {
        seq![Seq::empty()]
    } else {
        let before = split(text.drop_last(), sep);
        if text.last() == sep {
            before.push(Seq::empty())
        } else {
            before.drop_last().push(before.last().push(text.last()))
        }
    }
}

/// The characters with the Unicode property White_Space.
pub open spec fn white_space(c: char) -> bool {
    let n = c as u32;
    ||| 0x09 <= n <= 0x0d
    ||| n == 0x20
    ||| n == 0x85
    ||| n == 0xa0
    ||| n == 0x1680
    ||| 0x2000 <= n <= 0x200a
    ||| n == 0x2028
    ||| n == 0x2029
    ||| n == 0x202f
    ||| n == 0x205f
    ||| n == 0x3000
}

/// `text` without the white space at either end.
pub open spec fn trimmed(text: Seq<char>) -> Seq<char>
    decreases text.len(),
{
    if text.len() > 0 && white_space(text.first()) {
        trimmed(text.drop_first())
    } else if text.len() > 0 && white_space(text.last()) {
        trimmed(text.drop_last())
    } else {
        text
    }
}

/// The decimal digit with the value `n`.
pub open spec fn digit(n: nat) -> char {
    (48 + n) as char
}

/// `n` in decimal, without leading zeros.
pub open spec fn decimal(n: nat) -> Seq<char>
    decreases n,
{
    if n < 10 {
        seq![digit(n)]
    } else {
        decimal(n / 10).push(digit(n % 10))
    }
}

/// `n` in decimal, with zeros in front up to `width` digits.
pub open spec fn zero_padded(n: nat, width: nat) -> Seq<char> {
    let digits = decimal(n);
    if digits.len() < width {
        Seq::new((width - digits.len()) as nat, |i: int| '0') + digits
    } else {
        digits
    }
}

/// `n` in decimal, with the sign in front where it is negative.
pub open spec fn signed_decimal(n: int) -> Seq<char> {
    if n < 0 {
        "-"@ + decimal((-n) as nat)
    } else {
        decimal(n as nat)
    }
}

/// `String::push` of the standard library puts one character behind the text.
pub assume_specification[ String::push ](s: &mut String, c: char)
    ensures
        final(s)@ == old(s)@.push(c),
;

/// The text that the standard library's `{:?}` makes of a string: the string in
/// double quotes, with escapes.
pub uninterp spec fn debug_text(text: Seq<char>) -> Seq<char>;

/// `format!` with `{:?}`, the `Debug` form of a string. It is claimed that the
/// form depends on the characters of the string alone.
#[verifier::external_body]
pub(crate) fn quoted(text: &str) -> (r: String)
    ensures
        r@ == debug_text(text@),
{
    format!("{:?}", text)
}

/// The characters of `text` as a vector.
pub fn chars_of(text: &str) -> (r: Vec<char>)
    ensures
        r@ == text@,
{
    let mut r: Vec<char> = Vec::new();
    let mut it = text.chars();
    loop
        invariant
            vstd::std_specs::iter::IteratorSpec::obeys_prophetic_iter_laws(&it),
            vstd::std_specs::iter::IteratorSpec::decrease(&it) is Some,
            r@ + vstd::std_specs::iter::IteratorSpec::remaining(&it) == text@,
        ensures
            r@ == text@,
        decreases vstd::std_specs::iter::IteratorSpec::decrease(&it)->0,
    {
        match it.next() {
            Some(c) => {
                r.push(c);
            },
            None => {
                break;
            },
        }
    }
    r
}

/// The given text as an owned string made of its characters from `from` to `to`.
fn string_of(chars: &Vec<char>, from: usize, to: usize) -> (r: String)
    requires
        from <= to <= chars@.len(),
    ensures
        r@ == chars@.subrange(from as int, to as int),
{
    let mut r = String::new();
    let mut i: usize = from;
    while i < to
        invariant
            from <= i <= to <= chars@.len(),
            r@ == chars@.subrange(from as int, i as int),
        decreases to - i,
    {
        r.push(chars[i]);
        i += 1;
    }
    r
}

/// `a` followed by `b`.
pub fn concat2(a: &str, b: &str) -> (r: String)
    ensures
        r@ == a@ + b@,
{
    let mut r = a.to_owned();
    r.append(b);
    r
}

/// `a` followed by `b` and `c`.
pub fn concat3(a: &str, b: &str, c: &str) -> (r: String)
    ensures
        r@ == a@ + b@ + c@,
{
    let mut r = a.to_owned();
    r.append(b);
    r.append(c);
    r
}

/// Whether two texts hold the same characters.
pub fn same_text(a: &str, b: &str) -> (r: bool)
    ensures
        r == (a@ == b@),
{
    a.to_owned() == b.to_owned()
}

/// Lays the pieces end to end with `sep` between each two neighbours.
pub fn join(pieces: &[String], sep: &str) -> (r: String)
    ensures
        r@ == joined(views(pieces@), sep@),
{
    let mut r = String::new();
    let mut i: usize = 0;
    while i < pieces.len()
        invariant
            i <= pieces@.len(),
            r@ == joined(views(pieces@).take(i as int), sep@),
        decreases pieces@.len() - i,
    {
        if i > 0 {
            r.append(sep);
        }
        r.append(pieces[i].as_str());
        proof {
            let next = views(pieces@).take(i + 1);
            assert(next.drop_last() =~= views(pieces@).take(i as int));
            assert(next.last() == pieces@[i as int]@);
        }
        i += 1;
    }
    proof {
        assert(views(pieces@).take(i as int) =~= views(pieces@));
    }
    r
}

/// Cuts `text` at every `sep`.
pub fn split_text(text: &str, sep: char) -> (r: Vec<String>)
    ensures
        views(r@) == split(text@, sep),
{
    let chars = chars_of(text);
    let mut done: Vec<String> = Vec::new();
    let mut current = String::new();
    let mut i: usize = 0;
    proof {
        assert(views(done@).push(current@) =~= split(text@.take(0), sep));
    }
    while i < chars.len()
        invariant
            i <= chars@.len(),
            chars@ == text@,
            views(done@).push(current@) == split(text@.take(i as int), sep),
        decreases chars@.len() - i,
    {
        let ghost before = split(text@.take(i as int), sep);
        proof {
            let next = text@.take(i + 1);
            assert(next.drop_last() =~= text@.take(i as int));
            assert(next.last() == chars@[i as int]);
            assert(before.drop_last() =~= views(done@));
            assert(before.last() == current@);
        }
        if chars[i] == sep {
            let piece = current;
            let ghost filled = views(done@).push(piece@);
            done.push(piece);
            current = String::new();
            assert(views(done@) =~= filled);
        } else {
            current.push(chars[i]);
        }
        i += 1;
    }
    let ghost filled = views(done@).push(current@);
    done.push(current);
    proof {
        assert(views(done@) =~= filled);
        assert(text@.take(i as int) =~= text@);
    }
    done
}

/// Whether `text` begins with `prefix`.
pub fn starts_with(text: &str, prefix: &str) -> (r: bool)
    ensures
        r == prefix@.is_prefix_of(text@),
{
    let t = chars_of(text);
    let p = chars_of(prefix);
    if p.len() > t.len() {
        return false;
    }
    let mut i: usize = 0;
    while i < p.len()
        invariant
            i <= p@.len() <= t@.len(),
            t@ == text@,
            p@ == prefix@,
            p@.take(i as int) == t@.take(i as int),
        decreases p@.len() - i,
    {
        if t[i] != p[i] {
            proof {
                if prefix@.is_prefix_of(text@) {
                    assert(text@.subrange(0, prefix@.len() as int)[i as int] == text@[i as int]);
                }
            }
            return false;
        }
        proof {
            assert(p@.take(i + 1) =~= p@.take(i as int).push(p@[i as int]));
            assert(t@.take(i + 1) =~= t@.take(i as int).push(t@[i as int]));
        }
        i += 1;
    }
    proof {
        assert(p@.take(i as int) =~= p@);
    }
    true
}

/// Whether `c` is white space.
pub fn is_white_space(c: char) -> (r: bool)
    ensures
        r == white_space(c),
{
    let n: u32 = c as u32;
    (0x09 <= n && n <= 0x0d) || n == 0x20 || n == 0x85 || n == 0xa0 || n == 0x1680 || (0x2000 <= n
        && n <= 0x200a) || n == 0x2028 || n == 0x2029 || n == 0x202f || n == 0x205f || n == 0x3000
}

/// Removes the white space at either end of `text`.
pub fn trim(text: &str) -> (r: String)
    ensures
        r@ == trimmed(text@),
{
    let chars = chars_of(text);
    let mut from: usize = 0;
    let mut to: usize = chars.len();
    proof {
        assert(chars@.subrange(0, to as int) =~= text@);
    }
    while from < to && is_white_space(chars[from])
        invariant
            from <= to <= chars@.len(),
            trimmed(chars@.subrange(from as int, to as int)) == trimmed(text@),
        decreases to - from,
    {
        proof {
            let now = chars@.subrange(from as int, to as int);
            assert(now.drop_first() =~= chars@.subrange(from + 1, to as int));
            assert(now.first() == chars@[from as int]);
        }
        from += 1;
    }
    while from < to && is_white_space(chars[to - 1])
        invariant
            from <= to <= chars@.len(),
            from < to ==> !white_space(chars@[from as int]),
            trimmed(chars@.subrange(from as int, to as int)) == trimmed(text@),
        decreases to - from,
    {
        proof {
            let now = chars@.subrange(from as int, to as int);
            assert(now.drop_last() =~= chars@.subrange(from as int, to - 1));
            assert(now.last() == chars@[to - 1]);
            assert(now.first() == chars@[from as int]);
        }
        to -= 1;
    }
    proof {
        let now = chars@.subrange(from as int, to as int);
        if now.len() > 0 {
            assert(now.first() == chars@[from as int]);
            assert(now.last() == chars@[to - 1]);
        }
    }
    string_of(&chars, from, to)
}

/// Renders `n` in decimal.
pub fn decimal_text(n: u128) -> (r: String)
    ensures
        r@ == decimal(n as nat),
    decreases n,
{
    let d: u8 = (n % 10) as u8;
    let c: char = (48u8 + d) as char;
    let mut r = if n < 10 {
        String::new()
    } else {
        decimal_text(n / 10)
    };
    r.push(c);
    proof {
        assert(c == digit((n % 10) as nat));
        if n < 10 {
            assert(r@ =~= seq![digit(n as nat)]);
        }
    }
    r
}

/// Renders `n` in decimal, with its sign where it is negative.
pub fn signed_decimal_text(n: i64) -> (r: String)
    ensures
        r@ == signed_decimal(n as int),
{
    if n < 0 {
        let magnitude: i128 = -(n as i128);
        let digits = decimal_text(magnitude as u128);
        concat2("-", digits.as_str())
    } else {
        decimal_text(n as u128)
    }
}

/// Renders `n` in decimal with zeros in front up to `width` digits.
pub fn zero_padded_text(n: u128, width: usize) -> (r: String)
    ensures
        r@ == zero_padded(n as nat, width as nat),
{
    let digits = decimal_text(n);
    let len: usize = digits.as_str().unicode_len();
    if len >= width {
        return digits;
    }
    let mut r = String::new();
    let mut i: usize = 0;
    while i < width - len
        invariant
            i <= width - len,
            len < width,
            r@ == Seq::new(i as nat, |j: int| '0'),
        decreases width - len - i,
    {
        r.push('0');
        proof {
            assert(r@ =~= Seq::new((i + 1) as nat, |j: int| '0'));
        }
        i += 1;
    }
    r.append(digits.as_str());
    r
}

/// Cutting a text and joining the pieces with the separator gives the text back.
pub proof fn split_then_joined(text: Seq<char>, sep: char)
    ensures
        joined(split(text, sep), seq![sep]) == text,
        split(text, sep).len() > 0,
    decreases text.len(),
{
    if text.len() > 0 {
        let before = split(text.drop_last(), sep);
        split_then_joined(text.drop_last(), sep);
        let pieces = split(text, sep);
        if text.last() == sep {
            assert(pieces.drop_last() =~= before);
            assert(joined(pieces, seq![sep]) =~= text.drop_last() + seq![sep] + Seq::<char>::empty());
            assert(text =~= text.drop_last() + seq![sep]);
        } else {
            assert(pieces.drop_last() =~= before.drop_last());
            if before.len() == 1 {
                assert(joined(pieces, seq![sep]) =~= before.last().push(text.last()));
            } else {
                assert(joined(pieces, seq![sep]) =~= joined(before, seq![sep]).push(text.last()));
            }
            assert(text =~= text.drop_last().push(text.last()));
        }
    }
}

/// No piece of a cut text holds the separator.
pub proof fn split_pieces_lack_separator(text: Seq<char>, sep: char)
    ensures
        forall|i: int|
            0 <= i < split(text, sep).len() ==> !(#[trigger] split(text, sep)[i]).contains(sep),
        split(text, sep).len() > 0,
    decreases text.len(),
{
    if text.len() > 0 {
        let before = split(text.drop_last(), sep);
        split_pieces_lack_separator(text.drop_last(), sep);
        let pieces = split(text, sep);
        assert forall|i: int| 0 <= i < pieces.len() implies !(#[trigger] pieces[i]).contains(sep) by {
            if i < before.len() - 1 {
                assert(pieces[i] == before[i]);
            } else if text.last() != sep {
                assert(!before.last().contains(sep));
                if pieces[i].contains(sep) {
                    let k = choose|k: int| 0 <= k < pieces[i].len() && pieces[i][k] == sep;
                    assert(before.last()[k] == sep);
                }
            } else if i < before.len() {
                assert(pieces[i] == before[i]);
            }
        }
    }
}

/// `needle` stands somewhere in `hay`.
pub open spec fn occurs(needle: Seq<char>, hay: Seq<char>) -> bool {
    exists|before: Seq<char>, after: Seq<char>| #[trigger] (before + needle + after) == hay
}

/// What occurs in a part occurs in the whole.
pub proof fn occurs_in_whole(
    needle: Seq<char>,
    part: Seq<char>,
    front: Seq<char>,
    back: Seq<char>,
)
    requires
        occurs(needle, part),
    ensures
        occurs(needle, front + part + back),
{
    let (b, a) = choose|b: Seq<char>, a: Seq<char>| #[trigger] (b + needle + a) == part;
    assert((front + b) + needle + (a + back) =~= front + part + back);
}

/// Each piece occurs in the joined text.
pub proof fn piece_occurs_in_joined(pieces: Seq<Seq<char>>, sep: Seq<char>, i: int)
    requires
        0 <= i < pieces.len(),
    ensures
        occurs(pieces[i], joined(pieces, sep)),
    decreases pieces.len(),
{
    let whole = joined(pieces, sep);
    if pieces.len() == 1 {
        assert(Seq::<char>::empty() + pieces[i] + Seq::<char>::empty() =~= whole);
    } else if i == pieces.len() - 1 {
        let front = joined(pieces.drop_last(), sep) + sep;
        assert(front + pieces[i] + Seq::<char>::empty() =~= whole);
    } else {
        piece_occurs_in_joined(pieces.drop_last(), sep, i);
        let part = joined(pieces.drop_last(), sep);
        occurs_in_whole(pieces[i], part, Seq::empty(), sep + pieces.last());
        assert(Seq::<char>::empty() + part + (sep + pieces.last()) =~= whole);
    }
}

/// Nothing joins to nothing, one piece to itself, and two rows of pieces to what
/// each joins to with one separator between.
pub proof fn joined_rows(a: Seq<Seq<char>>, b: Seq<Seq<char>>, sep: Seq<char>)
    ensures
        joined(Seq::empty(), sep) == Seq::<char>::empty(),
        a.len() == 1 ==> joined(a, sep) == a[0],
        a.len() > 0 && b.len() > 0 ==> joined(a + b, sep) == joined(a, sep) + sep + joined(b, sep),
    decreases b.len(),
{
    if a.len() > 0 && b.len() > 0 {
        let all = a + b;
        assert(all.drop_last() =~= a + b.drop_last());
        assert(all.last() == b.last());
        if b.len() == 1 {
            assert(a + b.drop_last() =~= a);
        } else {
            joined_rows(a, b.drop_last(), sep);
            assert(joined(all, sep) =~= joined(a, sep) + sep + joined(b, sep));
        }
    }
}

/// Each string keeps its place and its characters.
pub proof fn views_keep_their_places(items: Seq<String>, maybe: Seq<Option<String>>)
    ensures
        views(items).len() == items.len(),
        forall|i: int| 0 <= i < items.len() ==> #[trigger] views(items)[i] == items[i]@,
        option_views(maybe).len() == maybe.len(),
        forall|i: int|
            0 <= i < maybe.len() ==> (#[trigger] option_views(maybe)[i] == match maybe[i] {
                Some(s) => Some(s@),
                None => None,
            }),
{
}

/// White space is the tab, the four line breaks behind it, the blank, and the
/// blanks and breaks that Unicode adds; no other character is.
pub proof fn white_space_is(c: char)
    ensures
        white_space(c) <==> seq![
            '\t',
            '\n',
            '\u{b}',
            '\u{c}',
            '\r',
            ' ',
            '\u{85}',
            '\u{a0}',
            '\u{1680}',
            '\u{2000}',
            '\u{2001}',
            '\u{2002}',
            '\u{2003}',
            '\u{2004}',
            '\u{2005}',
            '\u{2006}',
            '\u{2007}',
            '\u{2008}',
            '\u{2009}',
            '\u{200a}',
            '\u{2028}',
            '\u{2029}',
            '\u{202f}',
            '\u{205f}',
            '\u{3000}',
        ].contains(c),
{
    let all = seq![
        '\t',
        '\n',
        '\u{b}',
        '\u{c}',
        '\r',
        ' ',
        '\u{85}',
        '\u{a0}',
        '\u{1680}',
        '\u{2000}',
        '\u{2001}',
        '\u{2002}',
        '\u{2003}',
        '\u{2004}',
        '\u{2005}',
        '\u{2006}',
        '\u{2007}',
        '\u{2008}',
        '\u{2009}',
        '\u{200a}',
        '\u{2028}',
        '\u{2029}',
        '\u{202f}',
        '\u{205f}',
        '\u{3000}',
    ];
    if white_space(c) {
        let n = c as int;
        let i = if n <= 0x0d {
            n - 0x09
        } else if n == 0x20 {
            5
        } else if n == 0x85 {
            6
        } else if n == 0xa0 {
            7
        } else if n == 0x1680 {
            8
        } else if n <= 0x200a {
            n - 0x2000 + 9
        } else if n == 0x2028 {
            20
        } else if n == 0x2029 {
            21
        } else if n == 0x202f {
            22
        } else if n == 0x205f {
            23
        } else {
            24
        };
        assert(all[i] == c);
    }
}

/// What is trimmed off is white space at either end, and all of it: between the
/// two places lies the trimmed text, which neither begins nor ends with any.
pub proof fn trimming_takes_the_ends(text: Seq<char>) -> (ends: (int, int))
    ensures
        0 <= ends.0 <= ends.1 <= text.len(),
        trimmed(text) == text.subrange(ends.0, ends.1),
        forall|i: int| 0 <= i < ends.0 ==> white_space(#[trigger] text[i]),
        forall|i: int| ends.1 <= i < text.len() ==> white_space(#[trigger] text[i]),
        trimmed(text).len() > 0 ==> !white_space(trimmed(text).first()) && !white_space(
            trimmed(text).last(),
        ),
    decreases text.len(),
{
    if text.len() > 0 && white_space(text.first()) {
        let rest = text.drop_first();
        let (from, to) = trimming_takes_the_ends(rest);
        assert(rest.subrange(from, to) =~= text.subrange(from + 1, to + 1));
        assert forall|i: int| 0 <= i < from + 1 implies white_space(#[trigger] text[i]) by {
            if i > 0 {
                assert(rest[i - 1] == text[i]);
            }
        }
        assert forall|i: int| to + 1 <= i < text.len() implies white_space(#[trigger] text[i]) by {
            assert(rest[i - 1] == text[i]);
        }
        (from + 1, to + 1)
    } else if text.len() > 0 && white_space(text.last()) {
        let rest = text.drop_last();
        let (from, to) = trimming_takes_the_ends(rest);
        assert(rest.subrange(from, to) =~= text.subrange(from, to));
        assert forall|i: int| 0 <= i < from implies white_space(#[trigger] text[i]) by {
            assert(rest[i] == text[i]);
        }
        assert forall|i: int| to <= i < text.len() implies white_space(#[trigger] text[i]) by {
            if i < rest.len() {
                assert(rest[i] == text[i]);
            }
        }
        (from, to)
    } else {
        assert(text.subrange(0, text.len() as int) =~= text);
        (0, text.len() as int)
    }
}

/// The number that a row of decimal digits stands for.
pub open spec fn number_of(digits: Seq<char>) -> int
    decreases digits.len(),
{
    if digits.len() == 0 {
        0
    } else {
        number_of(digits.drop_last()) * 10 + (digits.last() as int - '0' as int)
    }
}

/// A number in decimal is made of the ten digits, has no zero in front, and stands
/// for the number.
pub proof fn decimal_reads_back(n: nat)
    ensures
        number_of(decimal(n)) == n,
        decimal(n).len() > 0,
        forall|i: int|
            0 <= i < decimal(n).len() ==> '0' as int <= #[trigger] decimal(n)[i] as int
                && decimal(n)[i] as int <= '9' as int,
        n > 0 ==> decimal(n)[0] != '0',
        n == 0 ==> decimal(n) == seq!['0'],
    decreases n,
{
    reveal_with_fuel(number_of, 2);
    let digits = decimal(n);
    if n < 10 {
        assert(digits.drop_last() =~= Seq::empty());
    } else {
        decimal_reads_back(n / 10);
        assert(digits.drop_last() =~= decimal(n / 10));
        assert(decimal(n / 10)[0] == digits[0]);
        assert forall|i: int| 0 <= i < digits.len() implies '0' as int <= #[trigger] digits[i] as int
            && digits[i] as int <= '9' as int by {
            if i < digits.len() - 1 {
                assert(decimal(n / 10)[i] == digits[i]);
            }
        }
    }
}

/// A padded number stands for the same number, takes the width where it fits, and
/// is padded with nothing but zeros.
pub proof fn padding_reads_back(n: nat, width: nat)
    ensures
        number_of(zero_padded(n, width)) == n,
        zero_padded(n, width).len() == if decimal(n).len() < width {
            width
        } else {
            decimal(n).len()
        },
        decimal(n).is_suffix_of(zero_padded(n, width)),
        forall|i: int|
            0 <= i < zero_padded(n, width).len() - decimal(n).len() ==> #[trigger] zero_padded(
                n,
                width,
            )[i] == '0',
{
    let digits = decimal(n);
    let padded = zero_padded(n, width);
    decimal_reads_back(n);
    let zeros = (padded.len() - digits.len()) as nat;
    assert(padded =~= Seq::new(zeros, |i: int| '0') + digits);
    zeros_in_front(digits, zeros);
    assert(padded.subrange(padded.len() - digits.len(), padded.len() as int) =~= digits);
}

/// Zeros in front change no number.
proof fn zeros_in_front(digits: Seq<char>, zeros: nat)
    ensures
        number_of(Seq::new(zeros, |i: int| '0') + digits) == number_of(digits),
    decreases digits.len() + zeros,
{
    let all = Seq::new(zeros, |i: int| '0') + digits;
    if digits.len() > 0 {
        zeros_in_front(digits.drop_last(), zeros);
        assert(all.drop_last() =~= Seq::new(zeros, |i: int| '0') + digits.drop_last());
    } else if zeros > 0 {
        let fewer = (zeros - 1) as nat;
        zeros_in_front(digits, fewer);
        assert(all.drop_last() =~= Seq::new(fewer, |i: int| '0') + digits);
    }
}

/// A number that is not negative is written as it is, and one that is as a minus
/// sign and the number without it.
pub proof fn signs_stand_in_front(n: int)
    ensures
        n >= 0 ==> signed_decimal(n) == decimal(n as nat),
        n < 0 ==> signed_decimal(n) == seq!['-'] + decimal((-n) as nat),
{
    reveal_strlit("-");
    assert("-"@ =~= seq!['-']);
}

} // verus!
