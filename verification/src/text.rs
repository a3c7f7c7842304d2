//! Text as sequences of characters: splitting, trimming, searching, and decimal numerals.
use vstd::prelude::*;
use vstd::utf8::{decode_utf8, encode_utf8, valid_utf8};

verus! {

// ---------------------------------------------------------------------------
// Text and bytes
// ---------------------------------------------------------------------------

/// Appends one character; `String::push` of the standard library.
pub assume_specification[ String::push ](string: &mut String, ch: char)
    ensures
        final(string)@ == old(string)@.push(ch),
;

/// Calls `std::str::from_utf8`: the text is handed back exactly when the bytes are valid UTF-8,
/// and it is then the text that those bytes encode.
#[verifier::external_body]
fn checked_utf8(bytes: &[u8]) -> (text: Option<&str>)
    ensures
        match text {
            Some(s) => valid_utf8(bytes@) && s@ == decode_utf8(bytes@),
            None => !valid_utf8(bytes@),
        },
{
    std::str::from_utf8(bytes).ok()
}

/// The text behind an optional string.
pub open spec fn optional(text: Option<String>) -> Option<Seq<char>> {
    match text {
        Some(t) => Some(t@),
        None => None,
    }
}

/// The text behind an optional string slice.
pub open spec fn optional_str(text: Option<&str>) -> Option<Seq<char>> {
    match text {
        Some(t) => Some(t@),
        None => None,
    }
}

/// The texts of strings.
pub open spec fn texts(strings: Seq<String>) -> Seq<Seq<char>> {
    Seq::new(strings.len(), |i: int| strings[i]@)
}

/// The characters of `text`.
pub fn chars_of(text: &str) -> (chars: Vec<char>)
    ensures
        chars@ == text@,
{
    let mut chars: Vec<char> = Vec::new();
    for c in it: text.chars()
        invariant
            it.seq() == text@,
            chars@ == text@.take(it.index() as int),
    {
        chars.push(c);
    }
    assert(text@.take(text@.len() as int) == text@);
    chars
}

/// The characters that `bytes` encode, or nothing if the bytes are not valid UTF-8.
pub fn decode(bytes: &[u8]) -> (chars: Option<Vec<char>>)
    ensures
        match chars {
            Some(c) => valid_utf8(bytes@) && c@ == decode_utf8(bytes@),
            None => !valid_utf8(bytes@),
        },
{
    match checked_utf8(bytes) {
        Some(text) => Some(chars_of(text)),
        None => None,
    }
}

/// The string made of `chars`.
pub fn string_of(chars: &[char]) -> (text: String)
    ensures
        text@ == chars@,
{
    let mut text = String::new();
    let mut i: usize = 0;
    while i < chars.len()
        invariant
            i <= chars.len(),
            text@ == chars@.take(i as int),
        decreases chars.len() - i,
    {
        text.push(chars[i]);
        i = i + 1;
    }
    assert(chars@.take(chars@.len() as int) == chars@);
    text
}

/// The UTF-8 encoding of `chars`.
pub fn encode(chars: &[char]) -> (bytes: Vec<u8>)
    ensures
        bytes@ == encode_utf8(chars@),
{
    let text = string_of(chars);
    text.as_str().as_bytes_vec()
}

/// Whether two texts are the same.
pub fn same_text(a: &str, b: &str) -> (same: bool)
    ensures
        same == (a@ == b@),
{
    let x: Vec<char> = chars_of(a);
    let y: Vec<char> = chars_of(b);
    same_chars(x.as_slice(), y.as_slice())
}

/// Whether two character slices are the same.
pub fn same_chars(a: &[char], b: &[char]) -> (same: bool)
    ensures
        same == (a@ == b@),
{
    if a.len() != b.len() {
        return false;
    }
    let mut i: usize = 0;
    while i < a.len()
        invariant
            a.len() == b.len(),
            i <= a.len(),
            a@.take(i as int) == b@.take(i as int),
        decreases a.len() - i,
    {
        if a[i] != b[i] {
            return false;
        }
        assert(a@.take(i + 1) == a@.take(i as int).push(a@[i as int]));
        assert(b@.take(i + 1) == b@.take(i as int).push(b@[i as int]));
        i = i + 1;
    }
    assert(a@.take(a@.len() as int) == a@);
    assert(b@.take(b@.len() as int) == b@);
    true
}

// ---------------------------------------------------------------------------
// Prefixes and substrings
// ---------------------------------------------------------------------------

/// Whether `text` begins with `prefix`.
pub open spec fn begins_with(text: Seq<char>, prefix: Seq<char>) -> bool {
    prefix.len() <= text.len() && text.take(prefix.len() as int) == prefix
}

/// Whether `part` occurs somewhere in `text`.
pub open spec fn occurs_in<A>(part: Seq<A>, text: Seq<A>) -> bool {
    exists|i: int| occurs_at(part, text, i)
}

/// Whether `part` occurs in `text` at position `i`.
pub open spec fn occurs_at<A>(part: Seq<A>, text: Seq<A>, i: int) -> bool {
    0 <= i && i + part.len() <= text.len() && text.subrange(i, i + part.len()) == part
}

/// A part occurs in a text that is put together round it.
pub proof fn lemma_part_occurs(before: Seq<char>, part: Seq<char>, after: Seq<char>)
    ensures
        occurs_in(part, before + part + after),
{
    let whole = before + part + after;
    assert(whole.subrange(before.len() as int, (before.len() + part.len()) as int) =~= part);
    assert(occurs_at(part, whole, before.len() as int));
}

/// A text in which a part occurs is put together round it.
pub proof fn lemma_occurrence_splits(part: Seq<char>, text: Seq<char>)
    requires
        occurs_in(part, text),
    ensures
        exists|a: Seq<char>, b: Seq<char>| text == #[trigger] (a + part + b),
{
    let i = choose|i: int| occurs_at(part, text, i);
    let a = text.take(i);
    let b = text.skip(i + part.len());
    assert(text =~= a + part + b);
}

/// What follows `prefix` in `text`, if `text` begins with it.
pub open spec fn after_prefix(text: Seq<char>, prefix: Seq<char>) -> Option<Seq<char>> {
    if begins_with(text, prefix) {
        Some(text.skip(prefix.len() as int))
    } else {
        None
    }
}

/// What follows `prefix` in `text`, if `text` begins with it.
pub fn strip_prefix<'a>(text: &'a [char], prefix: &[char]) -> (rest: Option<&'a [char]>)
    ensures
        match rest {
            Some(r) => after_prefix(text@, prefix@) == Some(r@),
            None => after_prefix(text@, prefix@) is None,
        },
{
    if prefix.len() > text.len() {
        return None;
    }
    let head = vstd::slice::slice_subrange(text, 0, prefix.len());
    assert(head@ == text@.take(prefix@.len() as int));
    if same_chars(head, prefix) {
        let rest = vstd::slice::slice_subrange(text, prefix.len(), text.len());
        assert(rest@ == text@.skip(prefix@.len() as int));
        Some(rest)
    } else {
        None
    }
}

/// Whether a text ends with `suffix`.
pub open spec fn finishes_with(text: Seq<char>, suffix: Seq<char>) -> bool {
    suffix.len() <= text.len() && text.skip(text.len() - suffix.len()) == suffix
}

/// Whether a text ends with `suffix`.
pub fn ends_with(text: &[char], suffix: &[char]) -> (yes: bool)
    ensures
        yes == finishes_with(text@, suffix@),
{
    if suffix.len() > text.len() {
        return false;
    }
    let tail = vstd::slice::slice_subrange(text, text.len() - suffix.len(), text.len());
    assert(tail@ == text@.skip(text@.len() - suffix@.len()));
    same_chars(tail, suffix)
}

/// Whether `part` occurs somewhere in `text`.
pub fn contains_text(text: &[char], part: &[char]) -> (found: bool)
    ensures
        found == occurs_in(part@, text@),
{
    if part.len() > text.len() {
        return false;
    }
    let last: usize = text.len() - part.len();
    let mut i: usize = 0;
    loop
        invariant
            last == text.len() - part.len(),
            i <= last,
            forall|j: int| 0 <= j < i ==> !occurs_at(part@, text@, j),
        decreases last - i,
    {
        let window = vstd::slice::slice_subrange(text, i, i + part.len());
        if same_chars(window, part) {
            assert(occurs_at(part@, text@, i as int));
            return true;
        }
        assert(!occurs_at(part@, text@, i as int));
        if i == last {
            return false;
        }
        i = i + 1;
    }
}

/// Whether the bytes `part` occur somewhere in `bytes`.
pub fn contains_bytes(bytes: &[u8], part: &[u8]) -> (found: bool)
    ensures
        found == occurs_in(part@, bytes@),
{
    if part.len() > bytes.len() {
        return false;
    }
    let last: usize = bytes.len() - part.len();
    let mut i: usize = 0;
    loop
        invariant
            last == bytes.len() - part.len(),
            i <= last,
            forall|j: int| 0 <= j < i ==> !occurs_at(part@, bytes@, j),
        decreases last - i,
    {
        let mut k: usize = 0;
        while k < part.len() && bytes[i + k] == part[k]
            invariant
                last == bytes.len() - part.len(),
                i <= last,
                k <= part.len(),
                forall|j: int| 0 <= j < k ==> bytes@[i + j] == part@[j],
            decreases part.len() - k,
        {
            k = k + 1;
        }
        if k == part.len() {
            assert(bytes@.subrange(i as int, i + part@.len()) == part@);
            assert(occurs_at(part@, bytes@, i as int));
            return true;
        }
        assert(!occurs_at(part@, bytes@, i as int)) by {
            assert(bytes@.subrange(i as int, i + part@.len())[k as int] == bytes@[i + k]);
        }
        if i == last {
            return false;
        }
        i = i + 1;
    }
}

// ---------------------------------------------------------------------------
// White space
// ---------------------------------------------------------------------------

/// The characters with the Unicode property `White_Space`.
pub open spec fn is_white_space(c: char) -> bool {
    ||| '\u{9}' <= c <= '\u{d}'
    ||| c == ' '
    ||| c == '\u{85}'
    ||| c == '\u{a0}'
    ||| c == '\u{1680}'
    ||| '\u{2000}' <= c <= '\u{200a}'
    ||| c == '\u{2028}'
    ||| c == '\u{2029}'
    ||| c == '\u{202f}'
    ||| c == '\u{205f}'
    ||| c == '\u{3000}'
}

/// `text` without the white space at its beginning.
pub open spec fn trim_front(text: Seq<char>) -> Seq<char>
    decreases text.len(),
{
    if text.len() > 0 && is_white_space(text.first()) {
        trim_front(text.drop_first())
    } else {
        text
    }
}

/// `text` without the white space at its end.
pub open spec fn trim_back(text: Seq<char>) -> Seq<char>
    decreases text.len(),
{
    if text.len() > 0 && is_white_space(text.last()) {
        trim_back(text.drop_last())
    } else {
        text
    }
}

/// `text` without the white space at either end.
pub open spec fn trimmed(text: Seq<char>) -> Seq<char> {
    trim_back(trim_front(text))
}

/// Whether `c` has the Unicode property `White_Space`.
fn white_space(c: char) -> (yes: bool)
    ensures
        yes == is_white_space(c),
{
    ('\u{9}' <= c && c <= '\u{d}') || c == ' ' || c == '\u{85}' || c == '\u{a0}' || c == '\u{1680}'
        || ('\u{2000}' <= c && c <= '\u{200a}') || c == '\u{2028}' || c == '\u{2029}' || c
        == '\u{202f}' || c == '\u{205f}' || c == '\u{3000}'
}

/// `text` without the white space at either end.
pub fn trim(text: &[char]) -> (rest: &[char])
    ensures
        rest@ == trimmed(text@),
{
    let mut start: usize = 0;
    assert(text@.skip(0) == text@);
    while start < text.len() && white_space(text[start])
        invariant
            start <= text.len(),
            trim_front(text@.skip(start as int)) == trim_front(text@),
        decreases text.len() - start,
    {
        assert(text@.skip(start as int).drop_first() == text@.skip(start + 1));
        start = start + 1;
    }
    assert(trim_front(text@) == text@.skip(start as int));
    let mut end: usize = text.len();
    assert(text@.subrange(start as int, end as int) == text@.skip(start as int));
    while end > start && white_space(text[end - 1])
        invariant
            start <= end <= text.len(),
            trim_back(text@.subrange(start as int, end as int)) == trim_back(
                text@.skip(start as int),
            ),
        decreases end - start,
    {
        assert(text@.subrange(start as int, end as int).drop_last() == text@.subrange(
            start as int,
            end - 1,
        ));
        end = end - 1;
    }
    vstd::slice::slice_subrange(text, start, end)
}

// ---------------------------------------------------------------------------
// Lines
// ---------------------------------------------------------------------------

/// The pieces of `text` between its line feeds; `n` line feeds make `n + 1` pieces.
pub open spec fn pieces(text: Seq<char>) -> Seq<Seq<char>>
    decreases text.len(),
{
    if text.len() == 0 {
        seq![Seq::<char>::empty()]
    } else {
        let before = pieces(text.drop_last());
        if text.last() == '\n' {
            before.push(Seq::<char>::empty())
        } else {
            before.update(before.len() - 1, before.last().push(text.last()))
        }
    }
}

/// The pieces with a line feed between each two.
pub open spec fn joined(lines: Seq<Seq<char>>) -> Seq<char>
    decreases lines.len(),
{
    if lines.len() == 0 {
        Seq::<char>::empty()
    } else if lines.len() == 1 {
        lines[0]
    } else {
        joined(lines.drop_last()).push('\n') + lines.last()
    }
}

/// There is at least one piece.
pub proof fn lemma_pieces_nonempty(text: Seq<char>)
    ensures
        pieces(text).len() >= 1,
    decreases text.len(),
{
    if text.len() > 0 {
        lemma_pieces_nonempty(text.drop_last());
    }
}

/// Joining the pieces of a text gives the text back.
pub proof fn law_joined_pieces(text: Seq<char>)
    ensures
        joined(pieces(text)) == text,
    decreases text.len(),
{
    if text.len() > 0 {
        let before = pieces(text.drop_last());
        lemma_pieces_nonempty(text.drop_last());
        law_joined_pieces(text.drop_last());
        let all = pieces(text);
        if text.last() == '\n' {
            assert(all.drop_last() == before);
            assert(joined(all) == joined(before).push('\n') + Seq::<char>::empty());
        } else {
            assert(all.drop_last() == before.drop_last());
            if before.len() > 1 {
                assert(joined(before) == joined(before.drop_last()).push('\n') + before.last());
            }
        }
        assert(joined(all) == text.drop_last().push(text.last()));
        assert(text.drop_last().push(text.last()) == text);
    }
}

/// Joining one more piece.
pub proof fn lemma_joined_push(lines: Seq<Seq<char>>, line: Seq<char>)
    ensures
        joined(lines.push(line)) == if lines.len() == 0 {
            line
        } else {
            joined(lines).push('\n') + line
        },
{
    assert(lines.push(line).drop_last() == lines);
}

/// The texts held by a vector of character vectors.
pub open spec fn views(lines: Seq<Vec<char>>) -> Seq<Seq<char>> {
    Seq::new(lines.len(), |i: int| lines[i]@)
}

/// The pieces of `text` between its line feeds.
pub fn split_lines(text: &[char]) -> (lines: Vec<Vec<char>>)
    ensures
        views(lines@) == pieces(text@),
{
    let mut lines: Vec<Vec<char>> = Vec::new();
    let mut current: Vec<char> = Vec::new();
    let mut i: usize = 0;
    proof {
        assert(text@.take(0).len() == 0);
        assert(views(lines@).push(current@) == seq![Seq::<char>::empty()]);
    }
    while i < text.len()
        invariant
            i <= text.len(),
            views(lines@).push(current@) == pieces(text@.take(i as int)),
        decreases text.len() - i,
    {
        let ghost before = pieces(text@.take(i as int));
        let ghost old_lines = lines@;
        let ghost old_current = current@;
        let c = text[i];
        assert(text@.take(i + 1).drop_last() == text@.take(i as int));
        assert(before.last() == current@);
        if c == '\n' {
            lines.push(current);
            current = Vec::new();
            assert(views(lines@) == views(old_lines).push(old_current));
            assert(views(lines@) == before);
        } else {
            current.push(c);
            assert(before.update(before.len() - 1, before.last().push(c)) == views(lines@).push(
                current@,
            ));
        }
        i = i + 1;
    }
    let ghost old_lines = lines@;
    let ghost old_current = current@;
    lines.push(current);
    proof {
        assert(views(lines@) == views(old_lines).push(old_current));
        assert(text@.take(text@.len() as int) == text@);
    }
    lines
}

/// `line` without one carriage return at its end.
pub open spec fn without_return(line: Seq<char>) -> Seq<char> {
    if line.len() > 0 && line.last() == '\r' {
        line.drop_last()
    } else {
        line
    }
}

/// The lines of `text`: each ends at a line feed, which a carriage return may precede, or at the
/// end of the text if anything stands after the last line feed.
pub open spec fn lines_of(text: Seq<char>) -> Seq<Seq<char>> {
    let all = pieces(text);
    let whole = Seq::new((all.len() - 1) as nat, |i: int| without_return(all[i]));
    if all.last().len() == 0 {
        whole
    } else {
        whole.push(all.last())
    }
}

/// The lines of `text`, without their line endings.
pub fn lines(text: &[char]) -> (all: Vec<Vec<char>>)
    ensures
        views(all@) == lines_of(text@),
{
    let mut all = split_lines(text);
    let ghost cut = pieces(text@);
    proof {
        lemma_pieces_nonempty(text@);
        assert(views(all@).len() == all@.len());
    }
    let n: usize = all.len();
    let mut i: usize = 0;
    while i < n - 1
        invariant
            1 <= n == all.len() == cut.len(),
            i <= n - 1,
            forall|j: int| 0 <= j < i ==> #[trigger] all@[j]@ == without_return(cut[j]),
            forall|j: int| i <= j < n ==> #[trigger] all@[j]@ == cut[j],
        decreases n - i,
    {
        let len: usize = all[i].len();
        if len > 0 && all[i][len - 1] == '\r' {
            let mut line: Vec<char> = Vec::new();
            std::mem::swap(&mut line, &mut all[i]);
            line.pop();
            std::mem::swap(&mut line, &mut all[i]);
        }
        i = i + 1;
    }
    if all[n - 1].len() == 0 {
        all.pop();
        assert(views(all@) == lines_of(text@));
    } else {
        assert(views(all@) == lines_of(text@));
    }
    all
}

// ---------------------------------------------------------------------------
// Decimal numerals
// ---------------------------------------------------------------------------

/// The numeral of one decimal digit.
pub open spec fn digit_char(d: nat) -> char {
    ('0' as nat + d) as char
}

/// The decimal numeral of `n`, without leading zeros.
pub open spec fn numeral(n: nat) -> Seq<char>
    decreases n,
{
    if n < 10 {
        seq![digit_char(n)]
    } else {
        numeral(n / 10).push(digit_char(n % 10))
    }
}

/// Whether `c` is an ASCII decimal digit.
pub open spec fn is_digit(c: char) -> bool {
    '0' <= c <= '9'
}

/// The value of a sequence of decimal digits.
pub open spec fn digits_value(text: Seq<char>) -> nat
    decreases text.len(),
{
    if text.len() == 0 {
        0
    } else {
        (digits_value(text.drop_last()) * 10 + (text.last() as nat - '0' as nat)) as nat
    }
}

/// Whether every character of `text` is a decimal digit.
pub open spec fn all_digits(text: Seq<char>) -> bool {
    forall|i: int| 0 <= i < text.len() ==> is_digit(#[trigger] text[i])
}

/// The number that `text` spells: one or more digits, which a plus sign may precede.
pub open spec fn number_of(text: Seq<char>) -> Option<nat> {
    let digits = if text.len() > 0 && text.first() == '+' {
        text.drop_first()
    } else {
        text
    };
    if digits.len() > 0 && all_digits(digits) {
        Some(digits_value(digits))
    } else {
        None
    }
}

/// The decimal numeral of `n`, as characters.
fn numeral_chars(n: u64) -> (chars: Vec<char>)
    ensures
        chars@ == numeral(n as nat),
    decreases n,
{
    if n < 10 {
        let mut chars: Vec<char> = Vec::new();
        chars.push((48u8 + n as u8) as char);
        chars
    } else {
        let mut chars = numeral_chars(n / 10);
        chars.push((48u8 + (n % 10) as u8) as char);
        chars
    }
}

/// The decimal numeral of `n`.
pub fn decimal(n: u64) -> (text: String)
    ensures
        text@ == numeral(n as nat),
{
    string_of(numeral_chars(n).as_slice())
}

/// A longer sequence of digits has at least the value of its beginning.
proof fn lemma_digits_value_grows(text: Seq<char>, i: int)
    requires
        0 <= i <= text.len(),
        all_digits(text),
    ensures
        digits_value(text.take(i)) <= digits_value(text),
    decreases text.len(),
{
    if i < text.len() {
        lemma_digits_value_grows(text.drop_last(), i);
        assert(text.drop_last().take(i) == text.take(i));
    } else {
        assert(text.take(i) == text);
    }
}

/// The number that `text` spells, if it fits in 64 bits.
pub fn parse_number(text: &[char]) -> (number: Option<u64>)
    ensures
        match number {
            Some(n) => number_of(text@) == Some(n as nat),
            None => number_of(text@) matches Some(n) ==> n > u64::MAX,
        },
{
    let start: usize = if text.len() > 0 && text[0] == '+' { 1 } else { 0 };
    let ghost digits = text@.skip(start as int);
    assert(start == 0 ==> digits == text@);
    assert(start == 1 ==> digits == text@.drop_first());
    if start == text.len() {
        return None;
    }
    let mut value: u64 = 0;
    let mut i: usize = start;
    while i < text.len()
        invariant
            start <= i <= text.len(),
            start < text.len(),
            digits == text@.skip(start as int),
            number_of(text@) == if all_digits(digits) {
                Some(digits_value(digits))
            } else {
                None
            },
            forall|j: int| 0 <= j < i - start ==> is_digit(#[trigger] digits[j]),
            value as nat == digits_value(digits.take(i - start)),
        decreases text.len() - i,
    {
        let c = text[i];
        assert(digits[i - start] == c);
        if c < '0' || '9' < c {
            return None;
        }
        let d: u64 = (c as u32 - 48) as u64;
        let ghost grown = digits.take(i + 1 - start);
        assert(grown.drop_last() == digits.take(i - start));
        assert(digits_value(grown) == value * 10 + d);
        if value > (u64::MAX - d) / 10 {
            proof {
                if all_digits(digits) {
                    lemma_digits_value_grows(digits, i + 1 - start);
                }
            }
            return None;
        }
        value = value * 10 + d;
        i = i + 1;
    }
    assert(digits.take(text.len() - start) == digits);
    Some(value)
}

/// A numeral consists of digits, at least one, and spells the number it was made for.
pub proof fn law_numeral_spells_number(n: nat)
    ensures
        number_of(numeral(n)) == Some(n),
    decreases n,
{
    lemma_numeral_digits(n);
    assert(numeral(n).len() > 0 ==> numeral(n).first() == numeral(n)[0]);
    assert(is_digit(numeral(n)[0]));
}

/// A numeral consists of digits that have its value.
pub proof fn lemma_numeral_digits(n: nat)
    ensures
        numeral(n).len() > 0,
        all_digits(numeral(n)),
        digits_value(numeral(n)) == n,
    decreases n,
{
    if n >= 10 {
        lemma_numeral_digits(n / 10);
        assert(numeral(n).drop_last() == numeral(n / 10));
        assert(digits_value(numeral(n)) == n / 10 * 10 + n % 10);
    } else {
        let one = seq![digit_char(n)];
        assert(one.drop_last() == Seq::<char>::empty());
        assert(digits_value(one) == digits_value(one.drop_last()) * 10 + n);
    }
}

// ---------------------------------------------------------------------------
// Laws
// ---------------------------------------------------------------------------

/// A text begins with a prefix, and ends with a suffix, exactly when it is put together with it;
/// what follows a prefix is what was put behind it.
pub proof fn law_prefix_and_suffix(text: Seq<char>, part: Seq<char>, rest: Seq<char>)
    ensures
        begins_with(part + rest, part),
        after_prefix(part + rest, part) == Some(rest),
        begins_with(text, part) ==> exists|r: Seq<char>| text == #[trigger] (part + r),
        !begins_with(text, part) ==> after_prefix(text, part) is None,
        finishes_with(rest + part, part),
        finishes_with(text, part) ==> exists|r: Seq<char>| text == #[trigger] (r + part),
{
    let whole = part + rest;
    assert(whole.take(part.len() as int) =~= part);
    assert(whole.skip(part.len() as int) =~= rest);
    if begins_with(text, part) {
        assert(text =~= part + text.skip(part.len() as int));
    }
    let other = rest + part;
    assert(other.skip(other.len() - part.len()) =~= part);
    if finishes_with(text, part) {
        assert(text =~= text.take(text.len() - part.len()) + part);
    }
}

/// Whether a text consists of white space.
pub open spec fn all_white(text: Seq<char>) -> bool {
    forall|i: int| 0 <= i < text.len() ==> is_white_space(#[trigger] text[i])
}

proof fn lemma_trim_front(text: Seq<char>) -> (cut: Seq<char>)
    ensures
        all_white(cut),
        text == cut + trim_front(text),
        trim_front(text).len() > 0 ==> !is_white_space(trim_front(text).first()),
    decreases text.len(),
{
    if text.len() > 0 && is_white_space(text.first()) {
        let below = lemma_trim_front(text.drop_first());
        let cut = seq![text.first()] + below;
        assert(trim_front(text) == trim_front(text.drop_first()));
        assert(text =~= seq![text.first()] + text.drop_first());
        assert(text =~= cut + trim_front(text));
        cut
    } else {
        let cut = Seq::<char>::empty();
        assert(text =~= cut + trim_front(text));
        cut
    }
}

proof fn lemma_trim_back(text: Seq<char>) -> (cut: Seq<char>)
    ensures
        all_white(cut),
        text == trim_back(text) + cut,
        trim_back(text).len() > 0 ==> !is_white_space(trim_back(text).last()),
    decreases text.len(),
{
    if text.len() > 0 && is_white_space(text.last()) {
        let below = lemma_trim_back(text.drop_last());
        let cut = below.push(text.last());
        assert(trim_back(text) == trim_back(text.drop_last()));
        assert(text =~= text.drop_last().push(text.last()));
        assert(text =~= trim_back(text) + cut);
        cut
    } else {
        let cut = Seq::<char>::empty();
        assert(text =~= trim_back(text) + cut);
        cut
    }
}

/// Trimming takes white space off both ends, all of it and nothing else.
pub proof fn law_trimming(text: Seq<char>)
    ensures
        exists|a: Seq<char>, b: Seq<char>|
            all_white(a) && all_white(b) && text == #[trigger] (a + trimmed(text) + b),
        trimmed(text).len() > 0 ==> !is_white_space(trimmed(text).first()) && !is_white_space(
            trimmed(text).last(),
        ),
{
    let a = lemma_trim_front(text);
    let front = trim_front(text);
    let b = lemma_trim_back(front);
    assert(text =~= a + trimmed(text) + b);
    if trimmed(text).len() > 0 {
        assert(trimmed(text).first() == front.first());
    }
}

/// The blank, the tab and the line ends are white space; letters, digits and punctuation are not.
pub proof fn law_white_space(c: char)
    ensures
        c == ' ' || c == '\t' || c == '\n' || c == '\r' ==> is_white_space(c),
        '!' <= c <= '~' ==> !is_white_space(c),
{
}

/// Whether no line end occurs in a text.
pub open spec fn is_one_line(text: Seq<char>) -> bool {
    forall|i: int| 0 <= i < text.len() ==> #[trigger] text[i] != '\n'
}

/// A text is split at its line ends and nowhere else: no piece holds one, and putting lines together
/// and splitting the text again gives the lines back.
pub proof fn law_split_at_line_ends(text: Seq<char>, lines: Seq<Seq<char>>)
    ensures
        pieces(text).len() > 0,
        forall|i: int| 0 <= i < pieces(text).len() ==> is_one_line(#[trigger] pieces(text)[i]),
        lines.len() > 0 && (forall|i: int| 0 <= i < lines.len() ==> is_one_line(#[trigger] lines[i]))
            ==> pieces(joined(lines)) == lines,
{
    lemma_pieces_are_lines(text);
    if lines.len() > 0 && (forall|i: int|
        0 <= i < lines.len() ==> is_one_line(#[trigger] lines[i])) {
        lemma_pieces_of_joined(lines);
    }
}

proof fn lemma_pieces_are_lines(text: Seq<char>)
    ensures
        pieces(text).len() > 0,
        forall|i: int| 0 <= i < pieces(text).len() ==> is_one_line(#[trigger] pieces(text)[i]),
    decreases text.len(),
{
    if text.len() > 0 {
        lemma_pieces_are_lines(text.drop_last());
    }
}

proof fn lemma_pieces_of_append(text: Seq<char>, line: Seq<char>)
    requires
        is_one_line(line),
    ensures
        pieces(text).len() > 0,
        pieces(text + line) == pieces(text).update(
            pieces(text).len() - 1,
            pieces(text).last() + line,
        ),
    decreases line.len(),
{
    lemma_pieces_are_lines(text);
    let before = pieces(text);
    if line.len() == 0 {
        assert(text + line =~= text);
        assert(before.last() + line =~= before.last());
        assert(before.update(before.len() - 1, before.last()) =~= before);
    } else {
        let front = line.drop_last();
        assert forall|i: int| 0 <= i < front.len() implies #[trigger] front[i] != '\n' by {
            assert(front[i] == line[i]);
        }
        lemma_pieces_of_append(text, front);
        assert((text + line).drop_last() =~= text + front);
        assert(line[line.len() - 1] != '\n');
        assert((before.last() + front).push(line.last()) =~= before.last() + line);
        assert(pieces(text + line) =~= before.update(before.len() - 1, before.last() + line));
    }
}

proof fn lemma_pieces_of_joined(lines: Seq<Seq<char>>)
    requires
        lines.len() > 0,
        forall|i: int| 0 <= i < lines.len() ==> is_one_line(#[trigger] lines[i]),
    ensures
        pieces(joined(lines)) == lines,
    decreases lines.len(),
{
    let last = lines.last();
    if lines.len() == 1 {
        lemma_pieces_of_append(Seq::empty(), last);
        assert(Seq::<char>::empty() + last =~= last);
        assert(pieces(last) =~= lines);
    } else {
        let front = lines.drop_last();
        assert forall|i: int| 0 <= i < front.len() implies is_one_line(#[trigger] front[i]) by {
            assert(front[i] == lines[i]);
        }
        lemma_pieces_of_joined(front);
        let start = joined(front).push('\n');
        assert(start.drop_last() =~= joined(front));
        lemma_pieces_of_append(start, last);
        assert(Seq::<char>::empty() + last =~= last);
        assert(pieces(start + last) =~= lines);
    }
}

/// The lines of a text whose last line is ended are all of them, each without the carriage return
/// that may stand before its end; a last line that is not ended counts if there is anything in it.
pub proof fn law_lines(lines: Seq<Seq<char>>, i: int)
    requires
        lines.len() > 0,
        forall|k: int| 0 <= k < lines.len() ==> is_one_line(#[trigger] lines[k]),
        0 <= i < lines.len(),
    ensures
        ({
            let ended = lines_of(joined(lines).push('\n'));
            let unended = lines_of(joined(lines));
            &&& ended.len() == lines.len()
            &&& lines[i].len() == 0 || lines[i].last() != '\r' ==> ended[i] == lines[i]
            &&& lines[i].len() > 0 && lines[i].last() == '\r' ==> ended[i] == lines[i].drop_last()
            &&& unended.len() == if lines.last().len() == 0 {
                (lines.len() - 1) as nat
            } else {
                lines.len()
            }
            &&& i < lines.len() - 1 ==> unended[i] == ended[i]
            &&& i == lines.len() - 1 && lines[i].len() > 0 ==> unended[i] == lines[i]
        }),
{
    lemma_pieces_of_joined(lines);
    let whole = joined(lines);
    assert(whole.push('\n').drop_last() =~= whole);
    assert(pieces(whole.push('\n')) == lines.push(Seq::<char>::empty()));
}

/// A text spells a number exactly when it consists of digits, at least one, behind at most one plus
/// sign; each digit counts ten times what the next one counts.
pub proof fn law_number_is_read_digit_by_digit(text: Seq<char>, c: char, i: int)
    ensures
        number_of(Seq::<char>::empty()) is None,
        '0' <= c <= '9' ==> number_of(seq![c]) == Some((c as nat - '0' as nat) as nat),
        '0' <= c <= '9' ==> (number_of(text) matches Some(n) ==> number_of(text.push(c)) == Some(
            (n * 10 + (c as nat - '0' as nat)) as nat,
        )),
        0 <= i < text.len() && !('0' <= text[i] <= '9') && !(i == 0 && text[i] == '+')
            ==> number_of(text) is None,
        text.len() > 0 && text.first() != '+' ==> number_of(seq!['+'] + text) == number_of(text),
        number_of(seq!['+']) is None,
{
    let one = seq![c];
    assert(one.drop_last() =~= Seq::<char>::empty());
    if '0' <= c <= '9' {
        assert(all_digits(one));
        assert(digits_value(Seq::<char>::empty()) == 0);
    }
    if number_of(text) is Some && '0' <= c <= '9' {
        let more = text.push(c);
        assert(more.first() == text.first());
        let digits = if text.first() == '+' {
            text.drop_first()
        } else {
            text
        };
        let longer = digits.push(c);
        assert(longer.drop_last() =~= digits);
        assert(text.first() == '+' ==> more.drop_first() =~= longer);
        assert forall|k: int| 0 <= k < longer.len() implies is_digit(#[trigger] longer[k]) by {
            if k < digits.len() {
                assert(is_digit(digits[k]));
            }
        }
    }
    if 0 <= i < text.len() && !('0' <= text[i] <= '9') && !(i == 0 && text[i] == '+') {
        if text.first() == '+' {
            let digits = text.drop_first();
            assert(digits[i - 1] == text[i]);
            assert(!is_digit(digits[i - 1]));
        } else {
            assert(!is_digit(text[i]));
        }
    }
    assert((seq!['+'] + text).drop_first() =~= text);
    assert(seq!['+'].drop_first() =~= Seq::<char>::empty());
}

/// A numeral has no zeros in front.
pub proof fn law_numeral_is_short(n: nat)
    ensures
        numeral(n).len() > 0,
        n > 0 ==> numeral(n).first() != '0',
        n == 0 ==> numeral(n) == seq!['0'],
    decreases n,
{
    if n >= 10 {
        law_numeral_is_short(n / 10);
        assert(numeral(n).first() == numeral(n / 10).first());
    }
}

} // verus!
