//! Text helpers with contracts over `Seq<char>`.
//!
//! Cutting, trimming, reading and writing of numbers are done here and
//! proved. Three functions are left to the standard library and marked
//! `external_body`: what is whitespace, what a text is in lower case, and
//! what `{:?}` writes.

use vstd::prelude::*;
use vstd::std_specs::iter::IteratorSpec;
use vstd::string::StringExecFns;
use vstd::string::StrSliceExecFns;

verus! {

/// Whether a character is one of the first 128.
pub open spec fn is_ascii(c: char) -> bool {
    (c as int) < 128
}

/// The blanks among the first 128 characters: the space, and the controls
/// from the tab to the carriage return.
pub open spec fn is_ascii_blank(c: char) -> bool {
    c == ' ' || c == '\t' || c == '\n' || c == '\u{b}' || c == '\u{c}' || c == '\r'
}

/// Whether `char::is_whitespace` holds of a character beyond the first 128.
pub uninterp spec fn is_wide_whitespace(c: char) -> bool;

/// Whether a character is whitespace.
pub open spec fn is_whitespace(c: char) -> bool {
    if is_ascii(c) {
        is_ascii_blank(c)
    } else {
        is_wide_whitespace(c)
    }
}

/// A text without its leading whitespace.
pub open spec fn trim_start(s: Seq<char>) -> Seq<char>
    decreases s.len(),
{
    if s.len() > 0 && is_whitespace(s[0]) {
        trim_start(s.drop_first())
    } else {
        s
    }
}

/// A text without its trailing whitespace.
pub open spec fn trim_end(s: Seq<char>) -> Seq<char>
    decreases s.len(),
{
    if s.len() > 0 && is_whitespace(s.last()) {
        trim_end(s.drop_last())
    } else {
        s
    }
}

/// A text without leading and trailing whitespace.
pub open spec fn trimmed(s: Seq<char>) -> Seq<char> {
    trim_end(trim_start(s))
}

/// The small letter of a capital among the first 128 characters; any other
/// character itself.
pub open spec fn ascii_lower(c: char) -> char {
    if 'A' <= c && c <= 'Z' {
        ((c as u8) + 32) as char
    } else {
        c
    }
}

/// Whether every character of a text is one of the first 128.
pub open spec fn all_ascii(s: Seq<char>) -> bool {
    forall|i: int| 0 <= i < s.len() ==> is_ascii(#[trigger] s[i])
}

/// What `str::to_lowercase` makes of a text that has a character beyond
/// the first 128.
pub uninterp spec fn wide_lowercased(s: Seq<char>) -> Seq<char>;

/// A text in lower case.
pub open spec fn lowercased(s: Seq<char>) -> Seq<char> {
    if all_ascii(s) {
        Seq::new(s.len(), |i: int| ascii_lower(s[i]))
    } else {
        wide_lowercased(s)
    }
}

/// The part of a text before the first occurrence of a delimiter; the whole
/// text where it does not occur.
pub open spec fn before_first(s: Seq<char>, delimiter: char) -> Seq<char>
    decreases s.len(),
{
    if s.len() == 0 || s[0] == delimiter {
        Seq::<char>::empty()
    } else {
        seq![s[0]] + before_first(s.drop_first(), delimiter)
    }
}

/// The part of a text after the first occurrence of a delimiter; nothing
/// where it does not occur.
pub open spec fn after_first(s: Seq<char>, delimiter: char) -> Seq<char>
    decreases s.len(),
{
    if s.len() == 0 {
        Seq::<char>::empty()
    } else if s[0] == delimiter {
        s.drop_first()
    } else {
        after_first(s.drop_first(), delimiter)
    }
}

/// The pieces of a text between the occurrences of the delimiters. A text
/// without a delimiter is one piece, the empty text included.
pub open spec fn split_text(s: Seq<char>, delimiters: Seq<char>) -> Seq<Seq<char>>
    decreases s.len(),
{
    if s.len() == 0 {
        seq![Seq::<char>::empty()]
    } else {
        let rest = split_text(s.drop_first(), delimiters);
        if delimiters.contains(s[0]) {
            seq![Seq::<char>::empty()] + rest
        } else {
            seq![seq![s[0]] + rest[0]] + rest.drop_first()
        }
    }
}

/// The text of an optional string.
pub open spec fn text_of(value: Option<String>) -> Option<Seq<char>> {
    match value {
        Some(v) => Some(v@),
        None => None,
    }
}

/// An optional text, or the empty text where there is none.
pub open spec fn value_or_empty(value: Option<Seq<char>>) -> Seq<char> {
    match value {
        Some(v) => v,
        None => Seq::<char>::empty(),
    }
}

/// The texts that a sequence of strings holds.
pub open spec fn text_views(v: Seq<String>) -> Seq<Seq<char>> {
    Seq::new(v.len(), |i: int| v[i]@)
}

/// Whether a character is one of the ten ASCII digits.
pub open spec fn is_digit(c: char) -> bool {
    '0' <= c && c <= '9'
}

/// Whether a text holds ASCII digits only.
pub open spec fn all_digits(s: Seq<char>) -> bool {
    forall|i: int| 0 <= i < s.len() ==> is_digit(#[trigger] s[i])
}

/// The number that a run of decimal digits writes.
pub open spec fn digits_value(s: Seq<char>) -> nat
    decreases s.len(),
{
    if s.len() == 0 {
        0
    } else {
        (digits_value(s.drop_last()) * 10 + (s.last() as int - '0' as int)) as nat
    }
}

/// The index that a text writes: decimal digits, at least one, after an
/// optional `+`, as far as the number fits the machine word.
pub open spec fn parsed_index(s: Seq<char>) -> Option<usize> {
    let digits = if s.len() > 0 && s[0] == '+' {
        s.drop_first()
    } else {
        s
    };
    if digits.len() > 0 && all_digits(digits) && digits_value(digits) <= usize::MAX {
        Some(digits_value(digits) as usize)
    } else {
        None
    }
}

/// `char::is_whitespace`: among the first 128 characters it holds of the
/// space and of the controls from the tab to the carriage return; beyond
/// them it is a function of the character, named `is_wide_whitespace`.
#[verifier::external_body]
pub(crate) fn char_is_whitespace(c: char) -> (r: bool)
    ensures
        is_ascii(c) ==> r == is_ascii_blank(c),
        !is_ascii(c) ==> r == is_wide_whitespace(c),
{
    c.is_whitespace()
}

/// Whitespace up to a character that is none is what `trim_start` drops.
pub proof fn lemma_trim_start(s: Seq<char>, from: int)
    requires
        0 <= from <= s.len(),
        forall|j: int| 0 <= j < from ==> is_whitespace(s[j]),
        from < s.len() ==> !is_whitespace(s[from]),
    ensures
        trim_start(s) == s.skip(from),
    decreases from,
{
    if from == 0 {
        assert(s.skip(0) =~= s);
    } else {
        assert(is_whitespace(s[0]));
        let rest = s.drop_first();
        assert forall|j: int| 0 <= j < from - 1 implies is_whitespace(rest[j]) by {
            assert(rest[j] == s[j + 1]);
        }
        lemma_trim_start(rest, from - 1);
        assert(rest.skip(from - 1) =~= s.skip(from));
    }
}

/// Whitespace after a character that is none is what `trim_end` drops.
pub proof fn lemma_trim_end(s: Seq<char>, to: int)
    requires
        0 <= to <= s.len(),
        forall|j: int| to <= j < s.len() ==> is_whitespace(s[j]),
        to > 0 ==> !is_whitespace(s[to - 1]),
    ensures
        trim_end(s) == s.take(to),
    decreases s.len() - to,
{
    if to == s.len() {
        assert(s.take(to) =~= s);
    } else {
        assert(is_whitespace(s.last()));
        let rest = s.drop_last();
        lemma_trim_end(rest, to);
        assert(rest.take(to) =~= s.take(to));
    }
}

/// The slice that is left of a text when the whitespace at both ends is
/// taken away.
pub fn trim(s: &str) -> (r: &str)
    ensures
        r@ == trimmed(s@),
{
    let chars = chars_of(s);
    let n = chars.len();
    let mut from: usize = 0;
    while from < n && char_is_whitespace(chars[from])
        invariant
            from <= n,
            n == chars@.len(),
            forall|j: int| 0 <= j < from ==> is_whitespace(chars@[j]),
        decreases n - from,
    {
        from = from + 1;
    }
    let mut to: usize = n;
    while to > from && char_is_whitespace(chars[to - 1])
        invariant
            from <= to <= n,
            n == chars@.len(),
            forall|j: int| to <= j < n ==> is_whitespace(chars@[j]),
        decreases to,
    {
        to = to - 1;
    }
    proof {
        lemma_trim_start(s@, from as int);
        let rest = s@.skip(from as int);
        assert forall|j: int| to - from <= j < rest.len() implies is_whitespace(rest[j]) by {
            assert(rest[j] == chars@[from + j]);
        }
        if to > from {
            assert(rest[to - from - 1] == chars@[to - 1]);
        }
        lemma_trim_end(rest, to - from);
        assert(rest.take(to - from) =~= s@.subrange(from as int, to as int));
    }
    s.substring_char(from, to)
}

/// `str::to_lowercase`: in a text of the first 128 characters every
/// capital becomes its small letter and nothing else changes; of any other
/// text the result is a function of the text alone, named
/// `wide_lowercased`.
#[verifier::external_body]
pub(crate) fn to_lowercase(s: &str) -> (r: String)
    ensures
        all_ascii(s@) ==> r@ == Seq::new(s@.len(), |i: int| ascii_lower(s@[i])),
        !all_ascii(s@) ==> r@ == wide_lowercased(s@),
{
    s.to_lowercase()
}

/// The characters of a text.
pub fn chars_of(s: &str) -> (r: Vec<char>)
    ensures
        r@ == s@,
{
    broadcast use vstd::string::group_string_axioms;

    let mut out: Vec<char> = Vec::new();
    let mut it = s.chars();
    loop
        invariant
            out@ + it.remaining() == s@,
            it.decrease() is Some,
        ensures
            out@ == s@,
        decreases it.decrease()->0,
    {
        let ghost before = it.remaining();
        match it.next() {
            Some(c) => {
                out.push(c);
                assert(out@ + it.remaining() =~= out@.drop_last() + before);
            },
            None => {
                assert(out@ + before =~= out@);
                break ;
            },
        }
    }
    out
}

/// Whether a list of characters holds the given one.
pub fn holds_char(chars: &Vec<char>, c: char) -> (r: bool)
    ensures
        r == chars@.contains(c),
{
    let mut i: usize = 0;
    while i < chars.len()
        invariant
            i <= chars@.len(),
            forall|j: int| 0 <= j < i ==> chars@[j] != c,
        decreases chars@.len() - i,
    {
        if chars[i] == c {
            return true;
        }
        i = i + 1;
    }
    false
}

/// The parts of a text before and after the first occurrence of a
/// delimiter, or `None` where it does not occur.
pub fn split_once<'a>(s: &'a str, delimiter: char) -> (r: Option<(&'a str, &'a str)>)
    ensures
        match r {
            None => !s@.contains(delimiter),
            Some((head, tail)) => !head@.contains(delimiter) && s@ == head@.push(delimiter)
                + tail@,
        },
{
    let chars = chars_of(s);
    let n = chars.len();
    let mut i: usize = 0;
    while i < n
        invariant
            i <= n,
            n == chars@.len(),
            chars@ == s@,
            forall|j: int| 0 <= j < i ==> chars@[j] != delimiter,
        decreases n - i,
    {
        if chars[i] == delimiter {
            let head = s.substring_char(0, i);
            let tail = s.substring_char(i + 1, n);
            assert(s@ =~= head@.push(delimiter) + tail@);
            return Some((head, tail));
        }
        i = i + 1;
    }
    None
}

/// A run of characters without a delimiter, closed by one, is the first
/// piece of a text.
pub proof fn lemma_split_piece(
    piece: Seq<char>,
    delimiter: char,
    rest: Seq<char>,
    delimiters: Seq<char>,
)
    requires
        forall|j: int| 0 <= j < piece.len() ==> !delimiters.contains(piece[j]),
        delimiters.contains(delimiter),
    ensures
        split_text(piece.push(delimiter) + rest, delimiters) == seq![piece] + split_text(
            rest,
            delimiters,
        ),
    decreases piece.len(),
{
    let s = piece.push(delimiter) + rest;
    if piece.len() == 0 {
        assert(s[0] == delimiter);
        assert(s.drop_first() =~= rest);
        assert(piece =~= Seq::<char>::empty());
    } else {
        assert(s[0] == piece[0]);
        let tail = piece.drop_first();
        assert(s.drop_first() =~= tail.push(delimiter) + rest);
        assert forall|j: int| 0 <= j < tail.len() implies !delimiters.contains(tail[j]) by {
            assert(tail[j] == piece[j + 1]);
        }
        lemma_split_piece(tail, delimiter, rest, delimiters);
        let r = split_text(s.drop_first(), delimiters);
        assert(r[0] == tail);
        assert(r.drop_first() =~= split_text(rest, delimiters));
        assert(seq![s[0]] + r[0] =~= piece);
    }
}

/// A text without a delimiter is one piece.
pub proof fn lemma_split_whole(piece: Seq<char>, delimiters: Seq<char>)
    requires
        forall|j: int| 0 <= j < piece.len() ==> !delimiters.contains(piece[j]),
    ensures
        split_text(piece, delimiters) == seq![piece],
    decreases piece.len(),
{
    if piece.len() > 0 {
        let tail = piece.drop_first();
        assert forall|j: int| 0 <= j < tail.len() implies !delimiters.contains(tail[j]) by {
            assert(tail[j] == piece[j + 1]);
        }
        lemma_split_whole(tail, delimiters);
        assert(seq![piece[0]] + tail =~= piece);
        assert(seq![tail].drop_first() =~= Seq::<Seq<char>>::empty());
        assert(seq![piece] + Seq::<Seq<char>>::empty() =~= seq![piece]);
    } else {
        assert(piece =~= Seq::<char>::empty());
    }
}

/// The pieces of a text between the occurrences of the delimiters, the
/// empty ones too, in their order.
pub fn split(s: &str, delimiters: &Vec<char>) -> (r: Vec<String>)
    ensures
        text_views(r@) == split_text(s@, delimiters@),
{
    let chars = chars_of(s);
    let n = chars.len();
    let mut pieces: Vec<String> = Vec::new();
    let mut start: usize = 0;
    let mut i: usize = 0;
    assert(s@.skip(0) =~= s@);
    assert(text_views(pieces@) + split_text(s@, delimiters@) =~= split_text(s@, delimiters@));
    while i < n
        invariant
            start <= i <= n,
            n == chars@.len(),
            chars@ == s@,
            forall|j: int| start <= j < i ==> !delimiters@.contains(chars@[j]),
            split_text(s@, delimiters@) == text_views(pieces@) + split_text(
                s@.skip(start as int),
                delimiters@,
            ),
        decreases n - i,
    {
        if holds_char(delimiters, chars[i]) {
            let piece = s.substring_char(start, i);
            let ghost done = text_views(pieces@);
            proof {
                let rest = s@.skip(i as int + 1);
                assert(s@.skip(start as int) =~= piece@.push(chars@[i as int]) + rest);
                assert forall|j: int| 0 <= j < piece@.len() implies !delimiters@.contains(
                    piece@[j],
                ) by {
                    assert(piece@[j] == chars@[start + j]);
                }
                lemma_split_piece(piece@, chars@[i as int], rest, delimiters@);
            }
            push_text(&mut pieces, piece.to_owned());
            proof {
                assert(done.push(piece@) + split_text(s@.skip(i as int + 1), delimiters@)
                    =~= done + (seq![piece@] + split_text(s@.skip(i as int + 1), delimiters@)));
            }
            start = i + 1;
        }
        i = i + 1;
    }
    let piece = s.substring_char(start, n);
    let ghost done = text_views(pieces@);
    proof {
        assert(piece@ =~= s@.skip(start as int));
        assert forall|j: int| 0 <= j < piece@.len() implies !delimiters@.contains(piece@[j]) by {
            assert(piece@[j] == chars@[start + j]);
        }
        lemma_split_whole(piece@, delimiters@);
    }
    push_text(&mut pieces, piece.to_owned());
    assert(done.push(piece@) =~= done + seq![piece@]);
    pieces
}

/// What `{:?}` writes of an optional text.
pub uninterp spec fn debug_text(value: Option<Seq<char>>) -> Seq<char>;

/// `Debug::fmt` of an `Option<&String>`: the result is a function of the
/// text alone.
#[verifier::external_body]
pub(crate) fn debug_of(value: &Option<String>) -> (r: String)
    ensures
        r@ == debug_text(text_of(*value)),
{
    format!("{:?}", value.as_ref())
}

/// A text without the occurrences of a pattern, found from the left and not
/// overlapping. The empty pattern occurs nowhere.
pub open spec fn without_all(s: Seq<char>, pattern: Seq<char>) -> Seq<char>
    decreases s.len(),
{
    if s.len() == 0 || pattern.len() == 0 {
        s
    } else if pattern.is_prefix_of(s) {
        without_all(s.skip(pattern.len() as int), pattern)
    } else {
        seq![s[0]] + without_all(s.drop_first(), pattern)
    }
}

/// Whether the pattern stands at the given place of the text.
fn stands_at(chars: &Vec<char>, at: usize, pattern: &Vec<char>) -> (r: bool)
    requires
        at <= chars@.len(),
    ensures
        r == pattern@.is_prefix_of(chars@.skip(at as int)),
{
    let rest: usize = chars.len() - at;
    if pattern.len() > rest {
        return false;
    }
    let mut i: usize = 0;
    while i < pattern.len()
        invariant
            i <= pattern@.len(),
            at + pattern@.len() <= chars@.len(),
            chars@.len() <= usize::MAX,
            forall|j: int| 0 <= j < i ==> chars@[at + j] == pattern@[j],
        decreases pattern@.len() - i,
    {
        if chars[at + i] != pattern[i] {
            assert(chars@.skip(at as int).subrange(0, pattern@.len() as int)[i as int]
                == chars@[at + i]);
            return false;
        }
        i = i + 1;
    }
    assert(pattern@ =~= chars@.skip(at as int).subrange(0, pattern@.len() as int));
    true
}

/// A text without every occurrence of a pattern. The occurrences are found
/// from the left and do not overlap.
pub fn remove_all(s: &str, pattern: &str) -> (r: String)
    ensures
        r@ == without_all(s@, pattern@),
{
    let chars = chars_of(s);
    let wanted = chars_of(pattern);
    let n = chars.len();
    let m = wanted.len();
    if m == 0 {
        return s.to_owned();
    }
    let mut out = String::new();
    let mut start: usize = 0;
    let mut i: usize = 0;
    assert(s@.skip(0) =~= s@);
    assert(s@.subrange(0, 0) =~= Seq::<char>::empty());
    while i < n
        invariant
            start <= i <= n,
            n == chars@.len(),
            m == wanted@.len(),
            m > 0,
            chars@ == s@,
            wanted@ == pattern@,
            without_all(s@, pattern@) == out@ + s@.subrange(start as int, i as int) + without_all(
                s@.skip(i as int),
                pattern@,
            ),
        decreases n - i,
    {
        let ghost kept = s@.subrange(start as int, i as int);
        let ghost here = s@.skip(i as int);
        if stands_at(&chars, i, &wanted) {
            out.append(s.substring_char(start, i));
            proof {
                assert(here.skip(m as int) =~= s@.skip(i + m));
                assert(s@.subrange(i + m, i + m) =~= Seq::<char>::empty());
            }
            i = i + m;
            start = i;
        } else {
            proof {
                assert(here.drop_first() =~= s@.skip(i as int + 1));
                assert(here[0] == s@[i as int]);
                assert(kept + (seq![here[0]] + without_all(here.drop_first(), pattern@)) =~= kept.push(
                    s@[i as int],
                ) + without_all(here.drop_first(), pattern@));
                assert(kept.push(s@[i as int]) =~= s@.subrange(start as int, i as int + 1));
            }
            i = i + 1;
        }
    }
    out.append(s.substring_char(start, n));
    assert(s@.skip(n as int) =~= Seq::<char>::empty());
    out
}

/// Whether a text begins with the given prefix.
pub fn starts_with(s: &str, prefix: &str) -> (r: bool)
    ensures
        r == prefix@.is_prefix_of(s@),
{
    let chars = chars_of(s);
    let wanted = chars_of(prefix);
    assert(chars@.skip(0) =~= chars@);
    stands_at(&chars, 0, &wanted)
}

/// The number that a run of digits writes grows with the run.
pub proof fn lemma_digits_grow(digits: Seq<char>, i: int)
    requires
        0 <= i <= digits.len(),
        all_digits(digits),
    ensures
        digits_value(digits.take(i)) <= digits_value(digits),
    decreases digits.len() - i,
{
    if i < digits.len() {
        lemma_digits_grow(digits, i + 1);
        let next = digits.take(i + 1);
        assert(next.drop_last() =~= digits.take(i));
        assert(is_digit(digits[i]));
        assert(next.last() == digits[i]);
    } else {
        assert(digits.take(i) =~= digits);
    }
}

/// The index that a text writes: decimal digits, at least one, after an
/// optional `+`. A number too large for `usize` is none.
pub fn parse_index(s: &str) -> (r: Option<usize>)
    ensures
        r == parsed_index(s@),
{
    let chars = chars_of(s);
    let n = chars.len();
    let first: usize = if n > 0 && chars[0] == '+' {
        1
    } else {
        0
    };
    let ghost digits = if s@.len() > 0 && s@[0] == '+' {
        s@.drop_first()
    } else {
        s@
    };
    assert(digits =~= s@.skip(first as int));
    if first == n {
        return None;
    }
    let mut value: usize = 0;
    let mut i: usize = first;
    assert(digits.take(0) =~= Seq::<char>::empty());
    while i < n
        invariant
            first <= i <= n,
            n == chars@.len(),
            chars@ == s@,
            digits == s@.skip(first as int),
            digits == if s@.len() > 0 && s@[0] == '+' {
                s@.drop_first()
            } else {
                s@
            },
            digits.len() > 0,
            all_digits(digits.take(i - first)),
            value == digits_value(digits.take(i - first)),
        decreases n - i,
    {
        let c = chars[i];
        let ghost seen = digits.take(i - first);
        let ghost next = digits.take(i - first + 1);
        proof {
            assert(next.drop_last() =~= seen);
            assert(next.last() == c);
            assert(digits[i - first] == c);
        }
        if !(c >= '0' && c <= '9') {
            assert(!all_digits(digits));
            return None;
        }
        let digit: usize = (c as u32 - '0' as u32) as usize;
        assert(digit == c as int - '0' as int);
        assert(all_digits(next)) by {
            assert forall|j: int| 0 <= j < next.len() implies is_digit(#[trigger] next[j]) by {
                if j < seen.len() {
                    assert(next[j] == seen[j]);
                }
            }
        }
        if value > (usize::MAX - digit) / 10 {
            proof {
                assert(digits_value(next) > usize::MAX) by (nonlinear_arith)
                    requires
                        digits_value(next) == value * 10 + digit,
                        value > (usize::MAX - digit) / 10,
                        0 <= digit < 10,
                ;
                if all_digits(digits) {
                    lemma_digits_grow(digits, i - first + 1);
                }
            }
            return None;
        }
        value = value * 10 + digit;
        i = i + 1;
    }
    assert(digits.take(n - first) =~= digits);
    Some(value)
}

/// The character of a decimal digit.
pub open spec fn digit_char(d: int) -> char
    recommends
        0 <= d < 10,
{
    if d == 0 {
        '0'
    } else if d == 1 {
        '1'
    } else if d == 2 {
        '2'
    } else if d == 3 {
        '3'
    } else if d == 4 {
        '4'
    } else if d == 5 {
        '5'
    } else if d == 6 {
        '6'
    } else if d == 7 {
        '7'
    } else if d == 8 {
        '8'
    } else {
        '9'
    }
}

/// The decimal text of a natural number, without leading zeros.
pub open spec fn nat_text(n: nat) -> Seq<char>
    decreases n,
{
    if n < 10 {
        seq![digit_char(n as int)]
    } else {
        nat_text(n / 10).push(digit_char((n % 10) as int))
    }
}

/// The decimal text of an integer: a minus sign for a negative one, then
/// its digits.
pub open spec fn decimal_text(n: int) -> Seq<char> {
    if n < 0 {
        seq!['-'] + nat_text((-n) as nat)
    } else {
        nat_text(n as nat)
    }
}

/// The decimal text of an integer in two characters at least: a single
/// digit has a zero before it.
pub open spec fn two_digit_text(n: int) -> Seq<char> {
    if decimal_text(n).len() < 2 {
        seq!['0'] + decimal_text(n)
    } else {
        decimal_text(n)
    }
}

/// The text of a decimal digit.
fn digit_text(d: u64) -> (r: &'static str)
    requires
        d < 10,
    ensures
        r@ == seq![digit_char(d as int)],
{
    proof {
        reveal_strlit("0");
        reveal_strlit("1");
        reveal_strlit("2");
        reveal_strlit("3");
        reveal_strlit("4");
        reveal_strlit("5");
        reveal_strlit("6");
        reveal_strlit("7");
        reveal_strlit("8");
        reveal_strlit("9");
    }
    let r = if d == 0 {
        "0"
    } else if d == 1 {
        "1"
    } else if d == 2 {
        "2"
    } else if d == 3 {
        "3"
    } else if d == 4 {
        "4"
    } else if d == 5 {
        "5"
    } else if d == 6 {
        "6"
    } else if d == 7 {
        "7"
    } else if d == 8 {
        "8"
    } else {
        "9"
    };
    assert(r@ =~= seq![digit_char(d as int)]);
    r
}

/// The decimal text of a natural number.
fn nat_decimal(n: u64) -> (r: String)
    ensures
        r@ == nat_text(n as nat),
    decreases n,
{
    if n < 10 {
        digit_text(n).to_owned()
    } else {
        let mut s = nat_decimal(n / 10);
        s.append(digit_text(n % 10));
        assert(s@ =~= nat_text(n as nat));
        s
    }
}

/// The decimal text of an integer.
pub fn decimal(n: i64) -> (r: String)
    ensures
        r@ == decimal_text(n as int),
{
    if n < 0 {
        let size: u64 = (-(n as i128)) as u64;
        let mut s = String::from_str("-");
        proof {
            reveal_strlit("-");
            assert("-"@ =~= seq!['-']);
        }
        s.append(nat_decimal(size).as_str());
        s
    } else {
        nat_decimal(n as u64)
    }
}

/// The decimal text of an integer in two characters at least.
pub fn two_digits(n: i64) -> (r: String)
    ensures
        r@ == two_digit_text(n as int),
{
    if 0 <= n && n < 10 {
        let mut s = String::from_str("0");
        proof {
            reveal_strlit("0");
            assert("0"@ =~= seq!['0']);
        }
        s.append(decimal(n).as_str());
        s
    } else {
        proof {
            lemma_decimal_length(n as int);
        }
        decimal(n)
    }
}

/// Only the numbers from 0 to 9 have a decimal text of one character.
pub proof fn lemma_decimal_length(n: int)
    ensures
        decimal_text(n).len() >= 1,
        decimal_text(n).len() == 1 <==> 0 <= n < 10,
{
    if n < 0 {
        lemma_nat_length((-n) as nat);
    } else {
        lemma_nat_length(n as nat);
    }
}

/// The decimal text of a natural number is not empty, and has more than one
/// character from 10 on.
proof fn lemma_nat_length(n: nat)
    ensures
        nat_text(n).len() >= 1,
        n >= 10 ==> nat_text(n).len() >= 2,
        n < 10 ==> nat_text(n).len() == 1,
    decreases n,
{
    if n >= 10 {
        lemma_nat_length(n / 10);
    }
}

/// Whether two texts hold the same characters.
pub fn same_text(a: &str, b: &str) -> (r: bool)
    ensures
        r == (a@ == b@),
{
    let left = a.to_owned();
    let right = b.to_owned();
    left == right
}

/// Whether a text begins with the given character.
pub fn starts_with_char(s: &str, c: char) -> (r: bool)
    ensures
        r == (s@.len() > 0 && s@[0] == c),
{
    !s.is_empty() && s.get_char(0) == c
}

/// A text without its first character. The empty text stays empty.
pub fn without_first(s: &str) -> (r: &str)
    ensures
        r@ == if s@.len() > 0 {
            s@.drop_first()
        } else {
            s@
        },
{
    let n: usize = s.unicode_len();
    if n == 0 {
        s
    } else {
        s.substring_char(1, n)
    }
}

/// Where a text is cut at a delimiter that its head does not hold, the cut
/// is at the first occurrence.
pub proof fn lemma_first_split(s: Seq<char>, head: Seq<char>, tail: Seq<char>, delimiter: char)
    requires
        !head.contains(delimiter),
        s == head.push(delimiter) + tail,
    ensures
        s.contains(delimiter),
        before_first(s, delimiter) == head,
        after_first(s, delimiter) == tail,
    decreases head.len(),
{
    assert(s[head.len() as int] == delimiter);
    if head.len() == 0 {
        assert(s.drop_first() =~= tail);
        assert(head =~= Seq::<char>::empty());
    } else {
        assert(head[0] != delimiter) by {
            if head[0] == delimiter {
                assert(head.contains(delimiter));
            }
        }
        assert(s[0] == head[0]);
        let h = head.drop_first();
        assert(!h.contains(delimiter)) by {
            if h.contains(delimiter) {
                let i = choose|i: int| 0 <= i < h.len() && h[i] == delimiter;
                assert(head[i + 1] == delimiter);
                assert(head.contains(delimiter));
            }
        }
        assert(s.drop_first() =~= h.push(delimiter) + tail);
        lemma_first_split(s.drop_first(), h, tail, delimiter);
        assert(seq![s[0]] + h =~= head);
    }
}

/// The three texts joined in their order.
pub fn concat3(a: &str, b: &str, c: &str) -> (r: String)
    ensures
        r@ == a@ + b@ + c@,
{
    let mut out = String::from_str(a);
    out.append(b);
    out.append(c);
    out
}

/// Adds a string to a list of strings.
pub fn push_text(out: &mut Vec<String>, s: String)
    ensures
        text_views(final(out)@) == text_views(old(out)@).push(s@),
{
    out.push(s);
    assert(text_views(out@) =~= text_views(old(out)@).push(s@));
}

/// Adds copies of the strings of one list to another.
pub fn extend_texts(out: &mut Vec<String>, more: &Vec<String>)
    ensures
        text_views(final(out)@) == text_views(old(out)@) + text_views(more@),
{
    let ghost start = text_views(out@);
    assert(text_views(more@).take(0) =~= Seq::<Seq<char>>::empty());
    assert(start + Seq::<Seq<char>>::empty() =~= start);
    let mut i: usize = 0;
    while i < more.len()
        invariant
            i <= more@.len(),
            text_views(out@) == start + text_views(more@).take(i as int),
        decreases more@.len() - i,
    {
        let copy = more[i].clone();
        push_text(out, copy);
        assert(text_views(more@).take(i as int + 1) =~= text_views(more@).take(i as int).push(
            more@[i as int]@,
        ));
        assert(start + text_views(more@).take(i as int + 1) =~= (start + text_views(more@).take(
            i as int,
        )).push(more@[i as int]@));
        i = i + 1;
    }
    assert(text_views(more@).take(i as int) =~= text_views(more@));
}

/// Whether a list of strings holds the given text.
pub fn holds_text(words: &Vec<String>, word: &str) -> (r: bool)
    ensures
        r == text_views(words@).contains(word@),
{
    let mut i: usize = 0;
    while i < words.len()
        invariant
            i <= words@.len(),
            forall|j: int| 0 <= j < i ==> text_views(words@)[j] != word@,
        decreases words@.len() - i,
    {
        if same_text(words[i].as_str(), word) {
            assert(text_views(words@)[i as int] == word@);
            return true;
        }
        i = i + 1;
    }
    false
}

} // verus!
