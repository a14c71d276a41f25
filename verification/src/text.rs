//! Text: decimal numbers, comparison, search, and the pieces of a name that a
//! game card shows.

use vstd::prelude::*;
use vstd::string::*;

verus! {

/// What `str::to_lowercase` makes of a text.
pub uninterp spec fn lowercase(text: Seq<char>) -> Seq<char>;

/// Whether a character has the Unicode property `White_Space`.
pub open spec fn whitespace(c: char) -> bool {
    ||| '\u{9}' <= c <= '\u{d}'
    ||| c == ' '
    ||| c == '\u{85}'
    ||| c == '\u{a0}'
    ||| c == '\u{1680}'
    ||| '\u{2000}' <= c <= '\u{200a}'
    ||| c == '\u{2028}'
    ||| c == '\u{2029}'
    ||| c == '\u{202f}'
    ||| c == '\u{205f}'
    ||| c == '\u{3000}'
}

/// `str::to_lowercase`: the result depends on the text alone.
pub assume_specification[ str::to_lowercase ](text: &str) -> (lower: String)
    ensures
        lower@ == lowercase(text@),
;

/// `char::is_whitespace`: whether the character has the Unicode property
/// `White_Space`.
pub assume_specification[ char::is_whitespace ](c: char) -> (answer: bool)
    ensures
        answer == whitespace(c),
;

/// `String::push` appends one character.
pub assume_specification[ String::push ](text: &mut String, c: char)
    ensures
        final(text)@ == old(text)@.push(c),
;

/// `String::push_str` appends a text.
pub assume_specification[ String::push_str ](text: &mut String, more: &str)
    ensures
        final(text)@ == old(text)@ + more@,
;

/// `String::pop` takes off the last character, if there is one.
pub assume_specification[ String::pop ](text: &mut String) -> (last: Option<char>)
    ensures
        old(text)@.len() == 0 ==> last is None && final(text)@ == old(text)@,
        old(text)@.len() > 0 ==> last == Some(old(text)@.last()) && final(text)@
            == old(text)@.drop_last(),
;

/// The decimal digits.
pub open spec fn digits() -> Seq<char> {
    seq!['0', '1', '2', '3', '4', '5', '6', '7', '8', '9']
}

/// A number in decimal notation, without leading zeros.
pub open spec fn decimal(n: nat) -> Seq<char>
    decreases n,
{
    if n < 10 {
        seq![digits()[n as int]]
    } else {
        decimal(n / 10).push(digits()[(n % 10) as int])
    }
}

fn digit_char(digit: u8) -> (c: char)
    requires
        digit < 10,
    ensures
        c == digits()[digit as int],
{
    match digit {
        0 => '0',
        1 => '1',
        2 => '2',
        3 => '3',
        4 => '4',
        5 => '5',
        6 => '6',
        7 => '7',
        8 => '8',
        _ => '9',
    }
}

/// Append a number in decimal notation.
pub fn push_decimal(text: &mut String, n: u128)
    ensures
        final(text)@ == old(text)@ + decimal(n as nat),
    decreases n,
{
    if n >= 10 {
        push_decimal(text, n / 10);
    }
    text.push(digit_char((n % 10) as u8));
    assert(text@ =~= old(text)@ + decimal(n as nat));
}

/// `before`, the number in decimal notation, `after`.
pub fn numbered(before: &str, n: u128, after: &str) -> (text: String)
    ensures
        text@ == before@ + decimal(n as nat) + after@,
{
    let mut text = String::new();
    text.push_str(before);
    push_decimal(&mut text, n);
    text.push_str(after);
    assert(text@ =~= before@ + decimal(n as nat) + after@);
    text
}

/// `before`, `middle`, `after`.
pub fn joined(before: &str, middle: &str, after: &str) -> (text: String)
    ensures
        text@ == before@ + middle@ + after@,
{
    let mut text = String::new();
    text.push_str(before);
    text.push_str(middle);
    text.push_str(after);
    assert(text@ =~= before@ + middle@ + after@);
    text
}

/// The characters of a text.
pub fn chars_of(text: &str) -> (chars: Vec<char>)
    ensures
        chars@ == text@,
{
    let mut chars: Vec<char> = Vec::new();
    for c in iter: text.chars()
        invariant
            iter.seq() == text@,
            chars@ == text@.take(iter.index() as int),
    {
        assert(text@.take(iter.index() + 1) =~= text@.take(iter.index() as int).push(c));
        chars.push(c);
    }
    assert(text@.take(text@.len() as int) =~= text@);
    chars
}

/// Whether two texts are the same.
pub fn same_text(a: &str, b: &str) -> (answer: bool)
    ensures
        answer == (a@ == b@),
{
    let left = chars_of(a);
    let right = chars_of(b);
    if left.len() != right.len() {
        return false;
    }
    let mut i: usize = 0;
    while i < left.len()
        invariant
            i <= left.len(),
            left.len() == right.len(),
            left@ == a@,
            right@ == b@,
            left@.take(i as int) =~= right@.take(i as int),
        decreases left.len() - i,
    {
        if left[i] != right[i] {
            return false;
        }
        assert(left@.take(i + 1) =~= left@.take(i as int).push(left@[i as int]));
        assert(right@.take(i + 1) =~= right@.take(i as int).push(right@[i as int]));
        i += 1;
    }
    assert(left@.take(i as int) =~= left@);
    assert(right@.take(i as int) =~= right@);
    true
}

/// Whether `a` comes no later than `b` in the order of texts: by the first
/// character in which they differ, a text coming before its continuations.
pub open spec fn text_at_most(a: Seq<char>, b: Seq<char>) -> bool
    decreases a.len(),
{
    if a.len() == 0 {
        true
    } else if b.len() == 0 {
        false
    } else if a[0] != b[0] {
        (a[0] as int) < (b[0] as int)
    } else {
        text_at_most(a.drop_first(), b.drop_first())
    }
}

/// Any two texts are ordered, only equal ones both ways.
pub proof fn law_texts_totally_ordered(a: Seq<char>, b: Seq<char>)
    ensures
        text_at_most(a, b) || text_at_most(b, a),
        text_at_most(a, b) && text_at_most(b, a) ==> a == b,
        text_at_most(a, a),
    decreases a.len(),
{
    if a.len() > 0 {
        law_texts_totally_ordered(a.drop_first(), a.drop_first());
        if b.len() > 0 {
            law_texts_totally_ordered(a.drop_first(), b.drop_first());
            if a[0] == b[0] && a.drop_first() == b.drop_first() {
                assert(a =~= seq![a[0]] + a.drop_first());
                assert(b =~= seq![b[0]] + b.drop_first());
            }
        }
    } else if b.len() == 0 {
        assert(a =~= b);
    }
}

/// The order of texts is transitive.
pub proof fn law_text_order_transitive(a: Seq<char>, b: Seq<char>, c: Seq<char>)
    requires
        text_at_most(a, b),
        text_at_most(b, c),
    ensures
        text_at_most(a, c),
    decreases a.len(),
{
    if a.len() > 0 && a[0] == b[0] && b[0] == c[0] {
        law_text_order_transitive(a.drop_first(), b.drop_first(), c.drop_first());
    }
}

fn char_less(x: char, y: char) -> (answer: bool)
    ensures
        answer == ((x as int) < (y as int)),
{
    (x as u32) < (y as u32)
}

/// Whether `a` comes no later than `b` in the order of texts.
pub fn comes_no_later(a: &Vec<char>, b: &Vec<char>) -> (answer: bool)
    ensures
        answer == text_at_most(a@, b@),
{
    let mut i: usize = 0;
    assert(a@.skip(0) =~= a@ && b@.skip(0) =~= b@);
    while i < a.len() && i < b.len()
        invariant
            i <= a.len(),
            i <= b.len(),
            text_at_most(a@, b@) == text_at_most(a@.skip(i as int), b@.skip(i as int)),
        decreases a.len() - i,
    {
        assert(a@.skip(i as int)[0] == a@[i as int]);
        assert(b@.skip(i as int)[0] == b@[i as int]);
        if a[i] != b[i] {
            return char_less(a[i], b[i]);
        }
        assert(a@.skip(i as int).drop_first() =~= a@.skip(i + 1));
        assert(b@.skip(i as int).drop_first() =~= b@.skip(i + 1));
        i += 1;
    }
    i == a.len()
}

/// Whether `needle` stands somewhere in `hay`.
pub open spec fn occurs(needle: Seq<char>, hay: Seq<char>) -> bool {
    exists|i: int| #[trigger] occurs_at(needle, hay, i)
}

/// Whether `needle` stands in `hay` from `i` on.
pub open spec fn occurs_at(needle: Seq<char>, hay: Seq<char>, i: int) -> bool {
    0 <= i && i + needle.len() <= hay.len() && hay.subrange(i, i + needle.len()) == needle
}

fn stands_at(needle: &Vec<char>, hay: &Vec<char>, start: usize) -> (answer: bool)
    requires
        start + needle@.len() <= hay@.len(),
    ensures
        answer == occurs_at(needle@, hay@, start as int),
{
    let mut k: usize = 0;
    while k < needle.len()
        invariant
            k <= needle.len(),
            start + needle.len() <= hay.len(),
            forall|j: int| 0 <= j < k ==> hay@[start + j] == #[trigger] needle@[j],
        decreases needle.len() - k,
    {
        if hay[start + k] != needle[k] {
            assert(hay@.subrange(start as int, start + needle@.len())[k as int] != needle@[k as int]);
            return false;
        }
        k += 1;
    }
    assert(hay@.subrange(start as int, start + needle@.len()) =~= needle@);
    true
}

/// Whether `needle` stands somewhere in `hay`.
pub fn contains_text(hay: &str, needle: &str) -> (answer: bool)
    ensures
        answer == occurs(needle@, hay@),
{
    let hay_chars = chars_of(hay);
    let needle_chars = chars_of(needle);
    if needle_chars.len() > hay_chars.len() {
        return false;
    }
    let last: usize = hay_chars.len() - needle_chars.len();
    let mut start: usize = 0;
    while start <= last
        invariant
            needle_chars@ == needle@,
            hay_chars@ == hay@,
            last + needle@.len() == hay@.len(),
            start <= last + 1,
            hay@.len() <= usize::MAX,
            forall|i: int| 0 <= i < start ==> !#[trigger] occurs_at(needle@, hay@, i),
        decreases last + 1 - start,
    {
        if stands_at(&needle_chars, &hay_chars, start) {
            return true;
        }
        if start == last {
            return false;
        }
        start += 1;
    }
    false
}

/// A text without the whitespace at its start.
pub open spec fn trimmed_start(text: Seq<char>) -> Seq<char>
    decreases text.len(),
{
    if text.len() > 0 && whitespace(text[0]) {
        trimmed_start(text.drop_first())
    } else {
        text
    }
}

/// A text without the whitespace at its end.
pub open spec fn trimmed_end(text: Seq<char>) -> Seq<char>
    decreases text.len(),
{
    if text.len() > 0 && whitespace(text.last()) {
        trimmed_end(text.drop_last())
    } else {
        text
    }
}

/// A text without the whitespace at its start and end.
pub fn trim(text: &str) -> (inner: String)
    ensures
        inner@ == trimmed_end(trimmed_start(text@)),
{
    let chars = chars_of(text);
    let mut start: usize = 0;
    assert(chars@.skip(0) =~= chars@);
    while start < chars.len() && chars[start].is_whitespace()
        invariant
            start <= chars.len(),
            trimmed_start(chars@) == trimmed_start(chars@.skip(start as int)),
        decreases chars.len() - start,
    {
        assert(chars@.skip(start as int)[0] == chars@[start as int]);
        assert(chars@.skip(start as int).drop_first() =~= chars@.skip(start + 1));
        start += 1;
    }
    if start < chars.len() {
        assert(chars@.skip(start as int)[0] == chars@[start as int]);
    }
    let ghost rest = chars@.skip(start as int);
    assert(trimmed_start(text@) == rest);
    let mut end: usize = chars.len();
    assert(chars@.subrange(start as int, end as int) =~= rest);
    while end > start && chars[end - 1].is_whitespace()
        invariant
            start <= end <= chars.len(),
            trimmed_end(rest) == trimmed_end(chars@.subrange(start as int, end as int)),
        decreases end,
    {
        assert(chars@.subrange(start as int, end as int).drop_last() =~= chars@.subrange(
            start as int,
            end - 1,
        ));
        end -= 1;
    }
    let mut inner = String::new();
    let mut i: usize = start;
    while i < end
        invariant
            start <= i <= end <= chars.len(),
            inner@ =~= chars@.subrange(start as int, i as int),
        decreases end - i,
    {
        inner.push(chars[i]);
        i += 1;
    }
    inner
}

/// The first character of each word, words being parted by whitespace.
pub open spec fn word_starts(text: Seq<char>) -> Seq<char>
    decreases text.len(),
{
    if text.len() == 0 {
        Seq::empty()
    } else {
        let before = word_starts(text.drop_last());
        if !whitespace(text.last()) && (text.len() == 1 || whitespace(text[text.len() - 2])) {
            before.push(text.last())
        } else {
            before
        }
    }
}

/// The first characters of the first two words.
pub open spec fn initials_of(name: Seq<char>) -> Seq<char> {
    let starts = word_starts(name);
    if starts.len() <= 2 {
        starts
    } else {
        starts.take(2)
    }
}

/// The first characters of the first two words of a name.
pub fn initials(name: &str) -> (text: String)
    ensures
        text@ == initials_of(name@),
{
    let chars = chars_of(name);
    let mut starts: Vec<char> = Vec::new();
    let mut i: usize = 0;
    while i < chars.len()
        invariant
            i <= chars.len(),
            starts@ == word_starts(chars@.take(i as int)),
        decreases chars.len() - i,
    {
        let ghost next = chars@.take(i + 1);
        assert(next.drop_last() =~= chars@.take(i as int));
        let fresh = i == 0 || chars[i - 1].is_whitespace();
        if !chars[i].is_whitespace() && fresh {
            starts.push(chars[i]);
        }
        i += 1;
    }
    assert(chars@.take(i as int) =~= chars@);
    let mut text = String::new();
    if starts.len() > 0 {
        text.push(starts[0]);
    }
    if starts.len() > 1 {
        text.push(starts[1]);
    }
    assert(text@ =~= initials_of(name@));
    text
}

/// A polynomial hash of bytes, modulo the range of `u32`.
pub open spec fn byte_hash(bytes: Seq<u8>) -> int
    decreases bytes.len(),
{
    if bytes.len() == 0 {
        0
    } else {
        (byte_hash(bytes.drop_last()) * 31 + bytes.last()) % 0x1_0000_0000
    }
}

/// The hash of a name's UTF-8 bytes.
pub fn name_hash(name: &str) -> (hash: u32)
    ensures
        hash == byte_hash(name.spec_bytes()),
{
    let bytes = name.as_bytes();
    let mut hash: u32 = 0;
    let mut i: usize = 0;
    while i < bytes.len()
        invariant
            i <= bytes.len(),
            bytes@ == name.spec_bytes(),
            hash == byte_hash(bytes@.take(i as int)),
        decreases bytes.len() - i,
    {
        assert(bytes@.take(i + 1).drop_last() =~= bytes@.take(i as int));
        let next: u64 = (hash as u64 * 31 + bytes[i] as u64) % 0x1_0000_0000;
        hash = next as u32;
        i += 1;
    }
    assert(bytes@.take(i as int) =~= bytes@);
    hash
}

proof fn lemma_decimal_length(n: nat)
    ensures
        decimal(n).len() >= 1,
        n < 10 <==> decimal(n).len() == 1,
    decreases n,
{
    if n >= 10 {
        lemma_decimal_length(n / 10);
    }
}

proof fn lemma_digits_differ(i: int, j: int)
    requires
        0 <= i < 10,
        0 <= j < 10,
        digits()[i] == digits()[j],
    ensures
        i == j,
{
    if i != j {
        assert(digits()[0] == '0' && digits()[1] == '1' && digits()[2] == '2');
        assert(digits()[3] == '3' && digits()[4] == '4' && digits()[5] == '5');
        assert(digits()[6] == '6' && digits()[7] == '7' && digits()[8] == '8');
        assert(digits()[9] == '9');
    }
}

proof fn lemma_last_pushed(text: Seq<char>, c: char)
    ensures
        text.push(c).last() == c,
{
}

/// Different numbers have different decimal notations.
pub proof fn law_decimal_tells_numbers_apart(a: nat, b: nat)
    requires
        decimal(a) == decimal(b),
    ensures
        a == b,
    decreases a,
{
    lemma_decimal_length(a);
    lemma_decimal_length(b);
    let x = digits()[(a % 10) as int];
    let y = digits()[(b % 10) as int];
    if a < 10 {
        assert(decimal(a) =~= Seq::empty().push(x));
        assert(decimal(b) =~= Seq::empty().push(y));
        lemma_last_pushed(Seq::empty(), x);
        lemma_last_pushed(Seq::empty(), y);
    } else {
        assert(decimal(a) == decimal(a / 10).push(x));
        assert(decimal(b) == decimal(b / 10).push(y));
        lemma_last_pushed(decimal(a / 10), x);
        lemma_last_pushed(decimal(b / 10), y);
        assert(decimal(a).drop_last() =~= decimal(a / 10));
        assert(decimal(b).drop_last() =~= decimal(b / 10));
        law_decimal_tells_numbers_apart(a / 10, b / 10);
    }
    lemma_digits_differ((a % 10) as int, (b % 10) as int);
}

/// Every text contains itself and the empty text.
pub proof fn law_occurs(text: Seq<char>)
    ensures
        occurs(text, text),
        occurs(Seq::empty(), text),
{
    assert(text.subrange(0, text.len() as int) =~= text);
    assert(occurs_at(text, text, 0));
    assert(text.subrange(0, 0) =~= Seq::empty());
    assert(occurs_at(Seq::empty(), text, 0));
}

/// The order of texts is that of the dictionary: texts that agree up to some place are
/// ordered by the characters there, and a text comes before every text that goes on.
pub proof fn law_texts_are_ordered_by_the_first_difference(
    common: Seq<char>,
    x: char,
    y: char,
    a: Seq<char>,
    b: Seq<char>,
)
    ensures
        x != y ==> text_at_most(common.push(x) + a, common.push(y) + b) == ((x as int) < (
        y as int)),
        text_at_most(common, common + a),
        a.len() > 0 ==> !text_at_most(common + a, common),
    decreases common.len(),
{
    let left = common.push(x) + a;
    let right = common.push(y) + b;
    let longer = common + a;
    if common.len() > 0 {
        let rest = common.drop_first();
        law_texts_are_ordered_by_the_first_difference(rest, x, y, a, b);
        assert(left.drop_first() =~= rest.push(x) + a);
        assert(right.drop_first() =~= rest.push(y) + b);
        assert(longer.drop_first() =~= rest + a);
        assert(left[0] == common[0] && right[0] == common[0] && longer[0] == common[0]);
    } else {
        assert(left[0] == x && right[0] == y);
        assert(longer =~= a);
    }
}

/// Decimal notation goes digit by digit: a number below ten is the one digit that counts
/// it, and a number times ten and a digit is written as the number and that digit.
pub proof fn law_decimal_goes_by_digits(n: nat, digit: nat)
    requires
        digit < 10,
    ensures
        decimal(digit).len() == 1,
        decimal(digit)[0] as int == '0' as int + digit,
        n > 0 ==> decimal(10 * n + digit) == decimal(n).push(decimal(digit)[0]),
{
    lemma_digit(digit);
    if n > 0 {
        let number = (10 * n + digit) as nat;
        assert(number / 10 == n && number % 10 == digit);
    }
}

proof fn lemma_digit(digit: nat)
    requires
        digit < 10,
    ensures
        digits()[digit as int] as int == '0' as int + digit,
{
    assert(digits()[0] == '0' && digits()[1] == '1' && digits()[2] == '2');
    assert(digits()[3] == '3' && digits()[4] == '4' && digits()[5] == '5');
    assert(digits()[6] == '6' && digits()[7] == '7' && digits()[8] == '8');
    assert(digits()[9] == '9');
}

/// A text is found wherever it stands, with anything before and behind it, and what is
/// found stands there character by character.
pub proof fn law_found_where_it_stands(before: Seq<char>, needle: Seq<char>, after: Seq<char>)
    ensures
        occurs(needle, before + needle + after),
{
    let hay = before + needle + after;
    let i = before.len() as int;
    assert(hay.subrange(i, i + needle.len()) =~= needle);
    assert(occurs_at(needle, hay, i));
}

/// What is found in a text stands there character by character.
pub proof fn law_what_is_found_stands_there(needle: Seq<char>, hay: Seq<char>)
    requires
        occurs(needle, hay),
    ensures
        exists|i: int| #[trigger] spelled_at(needle, hay, i),
{
    let i = choose|i: int| #[trigger] occurs_at(needle, hay, i);
    let found = hay.subrange(i, i + needle.len());
    assert forall|k: int| 0 <= k < needle.len() implies hay[i + k] == #[trigger] needle[k] by {
        assert(found[k] == hay[i + k]);
    }
    assert(spelled_at(needle, hay, i));
}

/// Whether a text is spelled in another from a place on, character by character.
pub open spec fn spelled_at(needle: Seq<char>, hay: Seq<char>, i: int) -> bool {
    &&& 0 <= i <= hay.len() - needle.len()
    &&& forall|k: int| 0 <= k < needle.len() ==> hay[i + k] == #[trigger] needle[k]
}

/// Whether every character is whitespace.
pub open spec fn blank(text: Seq<char>) -> bool {
    forall|i: int| 0 <= i < text.len() ==> whitespace(#[trigger] text[i])
}

/// Whether a text is one word: not empty, and without whitespace.
pub open spec fn one_word(text: Seq<char>) -> bool {
    text.len() > 0 && forall|i: int| 0 <= i < text.len() ==> !whitespace(#[trigger] text[i])
}

proof fn lemma_word_starts_add(a: Seq<char>, b: Seq<char>)
    requires
        a.len() == 0 || whitespace(a.last()) || b.len() == 0 || whitespace(b[0]),
    ensures
        word_starts(a + b) == word_starts(a) + word_starts(b),
    decreases b.len(),
{
    let all = a + b;
    if b.len() == 0 {
        assert(all =~= a);
        assert(word_starts(a) + word_starts(b) =~= word_starts(a));
    } else {
        let rest = b.drop_last();
        lemma_word_starts_add(a, rest);
        assert(all.drop_last() =~= a + rest);
        assert(all.last() == b.last());
        if b.len() > 1 {
            assert(all[all.len() - 2] == b[b.len() - 2]);
        } else if a.len() > 0 {
            assert(all[all.len() - 2] == a.last());
        }
        assert(word_starts(all) =~= word_starts(a) + word_starts(b));
    }
}

proof fn lemma_word_starts_of_word(word: Seq<char>)
    requires
        one_word(word),
    ensures
        word_starts(word) == seq![word[0]],
    decreases word.len(),
{
    reveal_with_fuel(word_starts, 2);
    if word.len() == 1 {
        assert(word.drop_last() =~= Seq::empty());
        assert(word_starts(word) =~= seq![word[0]]);
    } else {
        let rest = word.drop_last();
        assert(rest[0] == word[0]);
        assert(one_word(rest));
        lemma_word_starts_of_word(rest);
        assert(!whitespace(word[word.len() - 2]));
    }
}

proof fn lemma_word_starts_of_blank(gap: Seq<char>)
    requires
        blank(gap),
    ensures
        word_starts(gap).len() == 0,
    decreases gap.len(),
{
    if gap.len() > 0 {
        lemma_word_starts_of_blank(gap.drop_last());
        assert(whitespace(gap.last()));
    }
}

/// The initials of a name are the first character of its first word and that of its second
/// word, if it has one, however the words are parted and whatever comes behind them.
pub proof fn law_initials_are_those_of_two_words(
    lead: Seq<char>,
    first: Seq<char>,
    gap: Seq<char>,
    second: Seq<char>,
    rest: Seq<char>,
)
    requires
        blank(lead),
        one_word(first),
        blank(gap),
        gap.len() > 0,
        one_word(second),
        rest.len() > 0 ==> whitespace(rest[0]),
    ensures
        initials_of(lead) == Seq::<char>::empty(),
        initials_of(lead + first) == seq![first[0]],
        initials_of(lead + first + gap) == seq![first[0]],
        initials_of(lead + first + gap + second + rest) == seq![first[0], second[0]],
{
    lemma_word_starts_of_blank(lead);
    lemma_word_starts_of_blank(gap);
    lemma_word_starts_of_word(first);
    lemma_word_starts_of_word(second);
    let one = lead + first;
    let parted = one + gap;
    let two = parted + second;
    lemma_word_starts_add(lead, first);
    lemma_word_starts_add(one, gap);
    assert(parted.last() == gap.last());
    lemma_word_starts_add(parted, second);
    lemma_word_starts_add(two, rest);
    assert(initials_of(lead) =~= Seq::<char>::empty());
    assert(initials_of(one) =~= seq![first[0]]);
    assert(initials_of(parted) =~= seq![first[0]]);
    assert(word_starts(two) =~= seq![first[0], second[0]]);
    assert(initials_of(two + rest) =~= seq![first[0], second[0]]);
}

/// A trimmed text is the text between the whitespace around it.
pub proof fn law_trimming_takes_the_whitespace_off(
    lead: Seq<char>,
    inner: Seq<char>,
    tail: Seq<char>,
)
    requires
        blank(lead),
        blank(tail),
        inner.len() > 0 ==> !whitespace(inner[0]) && !whitespace(inner.last()),
    ensures
        trimmed_end(trimmed_start(lead + inner + tail)) == inner,
{
    if inner.len() == 0 {
        let all = lead + inner + tail;
        assert(blank(all));
        lemma_blank_start(all);
        assert(trimmed_start(all) + Seq::empty() =~= trimmed_start(all));
        assert(inner =~= Seq::empty());
    } else {
        assert(lead + inner + tail =~= lead + (inner + tail));
        lemma_trim_start(lead, inner + tail);
        lemma_trim_end(inner, tail);
    }
}

proof fn lemma_blank_start(text: Seq<char>)
    requires
        blank(text),
    ensures
        trimmed_start(text).len() == 0,
    decreases text.len(),
{
    if text.len() > 0 {
        assert(whitespace(text[0]));
        assert forall|i: int| 0 <= i < text.drop_first().len() implies whitespace(
            #[trigger] text.drop_first()[i],
        ) by {
            assert(text.drop_first()[i] == text[i + 1]);
        }
        lemma_blank_start(text.drop_first());
    }
}

proof fn lemma_trim_start(lead: Seq<char>, rest: Seq<char>)
    requires
        blank(lead),
        rest.len() > 0,
        !whitespace(rest[0]),
    ensures
        trimmed_start(lead + rest) == rest,
    decreases lead.len(),
{
    if lead.len() == 0 {
        assert(lead + rest =~= rest);
    } else {
        let less = lead.drop_first();
        assert(whitespace(lead[0]));
        assert forall|i: int| 0 <= i < less.len() implies whitespace(#[trigger] less[i]) by {
            assert(less[i] == lead[i + 1]);
        }
        lemma_trim_start(less, rest);
        assert((lead + rest).drop_first() =~= less + rest);
        assert((lead + rest)[0] == lead[0]);
    }
}

proof fn lemma_trim_end(inner: Seq<char>, tail: Seq<char>)
    requires
        blank(tail),
        inner.len() > 0,
        !whitespace(inner.last()),
    ensures
        trimmed_end(inner + tail) == inner,
    decreases tail.len(),
{
    if tail.len() == 0 {
        assert(inner + tail =~= inner);
    } else {
        let less = tail.drop_last();
        assert(whitespace(tail.last()));
        lemma_trim_end(inner, less);
        assert((inner + tail).drop_last() =~= inner + less);
        assert((inner + tail).last() == tail.last());
    }
}

/// The hash of a name counts every byte at its place: one byte more is added to 31 times
/// the hash so far, without what does not fit into 32 bits, and nothing hashes to zero.
pub proof fn law_hash_takes_in_every_byte(bytes: Seq<u8>, more: u8)
    ensures
        byte_hash(Seq::empty()) == 0,
        0 <= byte_hash(bytes) < 0x1_0000_0000,
        (byte_hash(bytes.push(more)) - byte_hash(bytes) * 31 - more) % 0x1_0000_0000 == 0,
    decreases bytes.len(),
{
    assert(bytes.push(more).drop_last() =~= bytes);
    if bytes.len() > 0 {
        law_hash_takes_in_every_byte(bytes.drop_last(), bytes.last());
    }
}

} // verus!
