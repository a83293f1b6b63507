//! Text as sequences of characters: the small operations on which parsing
//! and rendering rest.

use vstd::prelude::*;
use vstd::string::*;

verus! {

/// `String::push`: the character is appended at the end of the string and
/// the characters already there stay as they are.
#[verifier::external_body]
fn push_char(text: &mut String, c: char)
    ensures
        final(text)@ == old(text)@.push(c),
{
    text.push(c);
}

/// The characters of a string, in order.
pub fn chars_of(text: &str) -> (chars: Vec<char>)
    ensures
        chars@ == text@,
{
    let n: usize = text.unicode_len();
    let mut chars: Vec<char> = Vec::new();
    let mut i: usize = 0;
    while i < n
        invariant
            n == text@.len(),
            i <= n,
            chars@ == text@.subrange(0, i as int),
        decreases n - i,
    {
        chars.push(text.get_char(i));
        assert(chars@ == text@.subrange(0, i + 1));
        i += 1;
    }
    assert(text@.subrange(0, n as int) == text@);
    chars
}

/// The string made of the given characters, in order.
pub fn string_of(chars: &Vec<char>) -> (text: String)
    ensures
        text@ == chars@,
{
    let mut text = String::new();
    let mut i: usize = 0;
    while i < chars.len()
        invariant
            i <= chars.len(),
            text@ == chars@.subrange(0, i as int),
        decreases chars.len() - i,
    {
        push_char(&mut text, chars[i]);
        assert(text@ == chars@.subrange(0, i + 1));
        i += 1;
    }
    assert(chars@.subrange(0, chars.len() as int) == chars@);
    text
}

/// The characters that count as white space: those with the Unicode
/// property `White_Space`.
pub open spec fn is_space(c: char) -> bool {
    let code = c as u32;
    ||| 0x09 <= code <= 0x0D
    ||| code == 0x20
    ||| code == 0x85
    ||| code == 0xA0
    ||| code == 0x1680
    ||| 0x2000 <= code <= 0x200A
    ||| code == 0x2028
    ||| code == 0x2029
    ||| code == 0x202F
    ||| code == 0x205F
    ||| code == 0x3000
}

/// Whether the character is white space.
pub fn is_space_char(c: char) -> (space: bool)
    ensures
        space == is_space(c),
{
    let code: u32 = c as u32;
    (0x09 <= code && code <= 0x0D) || code == 0x20 || code == 0x85 || code == 0xA0 || code
        == 0x1680 || (0x2000 <= code && code <= 0x200A) || code == 0x2028 || code == 0x2029
        || code == 0x202F || code == 0x205F || code == 0x3000
}

/// The first position at or after `from` that holds no white space, or the
/// length of the text if there is none.
pub open spec fn skip_spaces(text: Seq<char>, from: int) -> int
    decreases text.len() - from,
{
    if 0 <= from < text.len() && is_space(text[from]) {
        skip_spaces(text, from + 1)
    } else {
        from
    }
}

/// The end of the text once the white space that ends `text[low..upto]` is
/// cut off.
pub open spec fn drop_spaces(text: Seq<char>, low: int, upto: int) -> int
    decreases upto - low,
{
    if low < upto <= text.len() && is_space(text[upto - 1]) {
        drop_spaces(text, low, upto - 1)
    } else {
        upto
    }
}

/// The text without the white space that leads and ends it.
pub open spec fn trimmed(text: Seq<char>) -> Seq<char> {
    let low = skip_spaces(text, 0);
    let high = drop_spaces(text, low, text.len() as int);
    text.subrange(low, high)
}

/// The text without the white space that leads and ends it.
pub fn trim(text: &Vec<char>) -> (inner: Vec<char>)
    ensures
        inner@ == trimmed(text@),
{
    let n: usize = text.len();
    let mut low: usize = 0;
    while low < n && is_space_char(text[low])
        invariant
            n == text.len(),
            low <= n,
            skip_spaces(text@, 0) == skip_spaces(text@, low as int),
        decreases n - low,
    {
        low += 1;
    }
    let mut high: usize = n;
    while high > low && is_space_char(text[high - 1])
        invariant
            n == text.len(),
            low <= high <= n,
            drop_spaces(text@, low as int, n as int) == drop_spaces(text@, low as int, high as int),
        decreases high - low,
    {
        high -= 1;
    }
    slice_of(text, low, high)
}

/// The characters of `text[low..high]`.
pub(crate) fn slice_of(text: &Vec<char>, low: usize, high: usize) -> (part: Vec<char>)
    requires
        low <= high <= text.len(),
    ensures
        part@ == text@.subrange(low as int, high as int),
{
    let mut part: Vec<char> = Vec::new();
    let mut i: usize = low;
    while i < high
        invariant
            low <= i <= high <= text.len(),
            part@ == text@.subrange(low as int, i as int),
        decreases high - i,
    {
        part.push(text[i]);
        assert(part@ == text@.subrange(low as int, i + 1));
        i += 1;
    }
    part
}

/// Whether `pattern` stands in `text` at position `at`.
pub open spec fn occurs_at(text: Seq<char>, pattern: Seq<char>, at: int) -> bool {
    &&& 0 <= at
    &&& at + pattern.len() <= text.len()
    &&& text.subrange(at, at + pattern.len()) == pattern
}

/// Whether `pattern` stands somewhere in `text`.
pub open spec fn occurs_in(text: Seq<char>, pattern: Seq<char>) -> bool {
    exists|at: int| occurs_at(text, pattern, at)
}

/// Whether `pattern` stands in `text` at position `at`.
pub fn matches_at(text: &Vec<char>, pattern: &Vec<char>, at: usize) -> (found: bool)
    ensures
        found == occurs_at(text@, pattern@, at as int),
{
    if pattern.len() > text.len() || at > text.len() - pattern.len() {
        return false;
    }
    let mut k: usize = 0;
    while k < pattern.len()
        invariant
            k <= pattern.len(),
            at + pattern.len() <= text.len(),
            text@.subrange(at as int, at + k) == pattern@.subrange(0, k as int),
        decreases pattern.len() - k,
    {
        if text[at + k] != pattern[k] {
            assert(text@.subrange(at as int, at + pattern.len())[k as int] != pattern@[k as int]);
            return false;
        }
        assert(text@.subrange(at as int, at + k + 1) == text@.subrange(at as int, at + k).push(
            text@[at + k],
        ));
        assert(pattern@.subrange(0, k + 1) == pattern@.subrange(0, k as int).push(
            pattern@[k as int],
        ));
        k += 1;
    }
    assert(pattern@.subrange(0, pattern.len() as int) == pattern@);
    true
}

/// Whether `pattern` stands somewhere in `text`.
pub fn contains(text: &Vec<char>, pattern: &Vec<char>) -> (found: bool)
    ensures
        found == occurs_in(text@, pattern@),
{
    if pattern.len() > text.len() {
        return false;
    }
    let last: usize = text.len() - pattern.len();
    let mut at: usize = 0;
    loop
        invariant
            last == text.len() - pattern.len(),
            at <= last,
            forall|j: int| 0 <= j < at ==> !occurs_at(text@, pattern@, j),
        decreases last - at,
    {
        if matches_at(text, pattern, at) {
            return true;
        }
        if at == last {
            return false;
        }
        at += 1;
    }
}

/// The first position at or after `from` at which `pattern` stands in
/// `text`; the length of the text, at the least `from`, where it stands at
/// none.
pub open spec fn first_from(text: Seq<char>, pattern: Seq<char>, from: int) -> int
    decreases text.len() - from,
{
    if from >= text.len() || occurs_at(text, pattern, from) {
        from
    } else {
        first_from(text, pattern, from + 1)
    }
}

/// The first position at which `pattern` stands in `text`, or the length of
/// the text where it stands nowhere.
pub open spec fn first_position(text: Seq<char>, pattern: Seq<char>) -> int {
    first_from(text, pattern, 0)
}

/// The first position at which `pattern` stands in `text`, or the length of
/// the text where it stands nowhere.
pub fn find(text: &Vec<char>, pattern: &Vec<char>) -> (at: usize)
    ensures
        at == first_position(text@, pattern@),
        at <= text.len(),
        occurs_in(text@, pattern@) ==> occurs_at(text@, pattern@, at as int),
        forall|j: int| 0 <= j < at ==> !occurs_at(text@, pattern@, j),
{
    let mut at: usize = 0;
    while at < text.len() && !matches_at(text, pattern, at)
        invariant
            at <= text.len(),
            first_position(text@, pattern@) == first_from(text@, pattern@, at as int),
            forall|j: int| 0 <= j < at ==> !occurs_at(text@, pattern@, j),
        decreases text.len() - at,
    {
        at += 1;
    }
    proof {
        if occurs_in(text@, pattern@) && at == text.len() {
            let found = choose|found: int| occurs_at(text@, pattern@, found);
            assert(found == at);
        }
    }
    at
}

/// The lower-case form of an ASCII capital letter; any other character as it is.
pub open spec fn lower(c: char) -> char {
    if 'A' <= c <= 'Z' {
        ((c as u8) + 32) as char
    } else {
        c
    }
}

/// The text with its ASCII capital letters in lower case.
pub open spec fn lowered(text: Seq<char>) -> Seq<char> {
    Seq::new(text.len(), |i: int| lower(text[i]))
}

/// The lower-case form of an ASCII capital letter; any other character as it is.
pub fn lower_char(c: char) -> (low: char)
    ensures
        low == lower(c),
{
    if 'A' <= c && c <= 'Z' {
        ((c as u8) + 32) as char
    } else {
        c
    }
}

/// The text with its ASCII capital letters in lower case.
pub fn to_lower(text: &Vec<char>) -> (low: Vec<char>)
    ensures
        low@ == lowered(text@),
{
    let mut low: Vec<char> = Vec::new();
    let mut i: usize = 0;
    while i < text.len()
        invariant
            i <= text.len(),
            low@ == lowered(text@).subrange(0, i as int),
        decreases text.len() - i,
    {
        low.push(lower_char(text[i]));
        assert(low@ == lowered(text@).subrange(0, i + 1));
        i += 1;
    }
    assert(lowered(text@).subrange(0, text.len() as int) == lowered(text@));
    low
}

/// Appends the characters of `tail` to `text`.
pub fn append(text: &mut Vec<char>, tail: &Vec<char>)
    ensures
        final(text)@ == old(text)@ + tail@,
{
    let mut i: usize = 0;
    while i < tail.len()
        invariant
            i <= tail.len(),
            text@ == old(text)@ + tail@.subrange(0, i as int),
        decreases tail.len() - i,
    {
        text.push(tail[i]);
        assert(text@ == old(text)@ + tail@.subrange(0, i + 1));
        i += 1;
    }
    assert(tail@.subrange(0, tail.len() as int) == tail@);
}

/// Whether a hyphen stands in the text at position `from` or later.
pub open spec fn hyphen_follows(text: Seq<char>, from: int) -> bool {
    exists|at: int| from <= at < text.len() && text[at] == '-'
}

/// The key with its last segment hidden: every character behind the last
/// hyphen gives way to an `x`; without a hyphen the whole key does.
pub open spec fn masked(key: Seq<char>) -> Seq<char> {
    Seq::new(
        key.len(),
        |i: int|
            if hyphen_follows(key, i) {
                key[i]
            } else {
                'x'
            },
    )
}

/// The key with its last segment hidden.
pub fn mask(key: &Vec<char>) -> (hidden: Vec<char>)
    ensures
        hidden@ == masked(key@),
{
    let n: usize = key.len();
    let mut open_from: usize = n;
    while open_from > 0 && key[open_from - 1] != '-'
        invariant
            n == key.len(),
            open_from <= n,
            forall|at: int| open_from <= at < n ==> key@[at] != '-',
        decreases open_from,
    {
        open_from -= 1;
    }
    let mut hidden: Vec<char> = Vec::new();
    let mut i: usize = 0;
    while i < n
        invariant
            n == key.len(),
            i <= n,
            open_from <= n,
            forall|at: int| open_from <= at < n ==> key@[at] != '-',
            open_from > 0 ==> key@[open_from - 1] == '-',
            hidden@ == masked(key@).subrange(0, i as int),
        decreases n - i,
    {
        if i < open_from {
            assert(hyphen_follows(key@, i as int)) by {
                assert(i <= open_from - 1 < key@.len() && key@[open_from - 1] == '-');
            }
            hidden.push(key[i]);
        } else {
            assert(!hyphen_follows(key@, i as int));
            hidden.push('x');
        }
        assert(hidden@ == masked(key@).subrange(0, i + 1));
        i += 1;
    }
    assert(masked(key@).subrange(0, n as int) == masked(key@));
    hidden
}

/// The character of a decimal digit.
pub open spec fn digit(value: int) -> char {
    (('0' as u8) + value) as char
}

/// The number written in decimal, without leading zeros.
pub open spec fn decimal(number: nat) -> Seq<char>
    decreases number,
{
    if number < 10 {
        seq![digit(number as int)]
    } else {
        decimal(number / 10).push(digit((number % 10) as int))
    }
}

/// The number written in decimal, without leading zeros.
pub fn to_decimal(number: u64) -> (digits: Vec<char>)
    ensures
        digits@ == decimal(number as nat),
    decreases number,
{
    if number < 10 {
        let only: char = (('0' as u8) + (number as u8)) as char;
        let digits: Vec<char> = vec![only];
        assert(digits@ =~= seq![digit(number as int)]);
        digits
    } else {
        let mut digits = to_decimal(number / 10);
        let last: char = (('0' as u8) + ((number % 10) as u8)) as char;
        digits.push(last);
        digits
    }
}

/// The pieces into which the line breaks cut the text: one more than there
/// are line breaks, empty pieces included.
pub open spec fn lines(text: Seq<char>) -> Seq<Seq<char>>
    decreases text.len(),
{
    if text.len() == 0 {
        seq![Seq::empty()]
    } else {
        let before = lines(text.drop_last());
        if text.last() == '\n' {
            before.push(Seq::empty())
        } else {
            before.update(before.len() - 1, before.last().push(text.last()))
        }
    }
}

/// A text always has a first line, even where the text is empty.
pub proof fn lemma_first_line_exists(text: Seq<char>)
    ensures
        lines(text).len() >= 1,
    decreases text.len(),
{
    if text.len() > 0 {
        lemma_first_line_exists(text.drop_last());
    }
}

/// The texts of the given lines, in order.
pub open spec fn line_views(pieces: Seq<Vec<char>>) -> Seq<Seq<char>> {
    Seq::new(pieces.len(), |i: int| pieces[i]@)
}

/// The pieces into which the line breaks cut the text.
pub fn split_lines(text: &Vec<char>) -> (pieces: Vec<Vec<char>>)
    ensures
        line_views(pieces@) == lines(text@),
{
    let mut pieces: Vec<Vec<char>> = Vec::new();
    let mut current: Vec<char> = Vec::new();
    let mut i: usize = 0;
    assert(line_views(pieces@).push(current@) =~= lines(text@.subrange(0, 0)));
    while i < text.len()
        invariant
            i <= text.len(),
            line_views(pieces@).push(current@) == lines(text@.subrange(0, i as int)),
        decreases text.len() - i,
    {
        let ghost before = lines(text@.subrange(0, i as int));
        let ghost upto = text@.subrange(0, i + 1);
        assert(upto.drop_last() =~= text@.subrange(0, i as int));
        assert(upto.last() == text@[i as int]);
        assert(before.len() == pieces@.len() + 1);
        assert(before.last() == current@);
        if text[i] == '\n' {
            pieces.push(current);
            current = Vec::new();
            assert(line_views(pieces@).push(current@) =~= before.push(Seq::empty()));
        } else {
            current.push(text[i]);
            assert(line_views(pieces@).push(current@) =~= before.update(
                before.len() - 1,
                before.last().push(text@[i as int]),
            ));
        }
        i += 1;
    }
    assert(text@.subrange(0, text.len() as int) == text@);
    pieces.push(current);
    assert(line_views(pieces@) =~= lines(text@));
    pieces
}

/// Whether the character is a decimal digit.
pub open spec fn is_digit(c: char) -> bool {
    '0' <= c <= '9'
}

/// The number that the decimal digits write.
pub open spec fn digits_value(digits: Seq<char>) -> nat
    decreases digits.len(),
{
    if digits.len() == 0 {
        0
    } else {
        (digits_value(digits.drop_last()) * 10 + ((digits.last() as u8) - ('0' as u8))) as nat
    }
}

/// The text behind its plus sign, where one leads it.
pub open spec fn unsigned(text: Seq<char>) -> Seq<char> {
    if text.len() > 0 && text[0] == '+' {
        text.drop_first()
    } else {
        text
    }
}

/// The number that the text writes in decimal: one or more digits, behind a
/// plus sign or without one. Any other text writes no number.
pub open spec fn number_of(text: Seq<char>) -> Option<nat> {
    let digits = unsigned(text);
    if digits.len() > 0 && (forall|i: int| 0 <= i < digits.len() ==> is_digit(digits[i])) {
        Some(digits_value(digits))
    } else {
        None
    }
}

/// The number that the text writes, where it writes one that fits.
pub open spec fn index_of(text: Seq<char>) -> Option<usize> {
    match number_of(text) {
        Some(value) if value <= usize::MAX => Some(value as usize),
        _ => None,
    }
}

proof fn lemma_digits_grow(digits: Seq<char>, upto: int)
    requires
        0 <= upto <= digits.len(),
        forall|i: int| 0 <= i < digits.len() ==> is_digit(digits[i]),
    ensures
        digits_value(digits.subrange(0, upto)) <= digits_value(digits),
    decreases digits.len() - upto,
{
    if upto < digits.len() {
        let longer = digits.subrange(0, upto + 1);
        assert(longer.drop_last() =~= digits.subrange(0, upto));
        lemma_digits_grow(digits, upto + 1);
    } else {
        assert(digits.subrange(0, upto) =~= digits);
    }
}

/// The number that the text writes in decimal, where it writes one that fits.
pub fn parse_index(text: &Vec<char>) -> (number: Option<usize>)
    ensures
        number == index_of(text@),
{
    let start: usize = if text.len() > 0 && text[0] == '+' {
        1
    } else {
        0
    };
    let ghost digits = text@.subrange(start as int, text.len() as int);
    assert(digits =~= unsigned(text@));
    if start == text.len() {
        return None;
    }
    let mut value: usize = 0;
    let mut i: usize = start;
    while i < text.len()
        invariant
            start <= i <= text.len(),
            start < text.len(),
            digits == text@.subrange(start as int, text.len() as int),
            digits == unsigned(text@),
            forall|k: int| 0 <= k < i - start ==> is_digit(digits[k]),
            value == digits_value(digits.subrange(0, i - start)),
        decreases text.len() - i,
    {
        let c = text[i];
        assert(digits[i - start] == c);
        if !('0' <= c && c <= '9') {
            return None;
        }
        let d: usize = ((c as u8) - ('0' as u8)) as usize;
        let ghost longer = digits.subrange(0, i - start + 1);
        assert(longer.drop_last() =~= digits.subrange(0, i - start));
        assert(longer.last() == c);
        if value > (usize::MAX - d) / 10 {
            proof {
                assert(digits_value(longer) > usize::MAX) by (nonlinear_arith)
                    requires
                        digits_value(longer) == value * 10 + d,
                        value > (usize::MAX - d) / 10,
                        0 <= d <= 9,
                ;
                if forall|k: int| 0 <= k < digits.len() ==> is_digit(digits[k]) {
                    lemma_digits_grow(digits, i - start + 1);
                }
            }
            return None;
        }
        assert(value * 10 + d <= usize::MAX) by (nonlinear_arith)
            requires
                value <= (usize::MAX - d) / 10,
                0 <= d <= 9,
        ;
        value = value * 10 + d;
        i += 1;
    }
    assert(digits.subrange(0, digits.len() as int) =~= digits);
    Some(value)
}

/// The text without the copies of `prefix` that lead it.
pub open spec fn stripped_start(text: Seq<char>, prefix: Seq<char>) -> Seq<char>
    decreases text.len(),
{
    if prefix.len() > 0 && occurs_at(text, prefix, 0) {
        stripped_start(text.subrange(prefix.len() as int, text.len() as int), prefix)
    } else {
        text
    }
}

/// The text without the copies of `mark` that end it.
pub open spec fn stripped_end(text: Seq<char>, mark: char) -> Seq<char>
    decreases text.len(),
{
    if text.len() > 0 && text.last() == mark {
        stripped_end(text.drop_last(), mark)
    } else {
        text
    }
}

/// The text without the copies of `prefix` that lead it.
pub fn strip_start(text: &Vec<char>, prefix: &Vec<char>) -> (rest: Vec<char>)
    ensures
        rest@ == stripped_start(text@, prefix@),
{
    let mut from: usize = 0;
    if prefix.len() > 0 {
        assert(text@.subrange(0, text.len() as int) =~= text@);
        while matches_at(text, prefix, from)
            invariant
                prefix.len() > 0,
                from <= text.len(),
                stripped_start(text@, prefix@) == stripped_start(
                    text@.subrange(from as int, text.len() as int),
                    prefix@,
                ),
            decreases text.len() - from,
        {
            let ghost tail = text@.subrange(from as int, text.len() as int);
            assert(tail.subrange(0, prefix.len() as int) =~= text@.subrange(
                from as int,
                from + prefix.len(),
            ));
            assert(occurs_at(tail, prefix@, 0));
            assert(tail.subrange(prefix.len() as int, tail.len() as int) =~= text@.subrange(
                from + prefix.len(),
                text.len() as int,
            ));
            from += prefix.len();
        }
        proof {
            let tail = text@.subrange(from as int, text.len() as int);
            if occurs_at(tail, prefix@, 0) {
                assert(tail.subrange(0, prefix.len() as int) =~= text@.subrange(
                    from as int,
                    from + prefix.len(),
                ));
                assert(false);
            }
        }
    }
    slice_of(text, from, text.len())
}

/// The text without the copies of `mark` that end it.
pub fn strip_end(text: &Vec<char>, mark: char) -> (rest: Vec<char>)
    ensures
        rest@ == stripped_end(text@, mark),
{
    let mut upto: usize = text.len();
    assert(text@.subrange(0, text.len() as int) =~= text@);
    while upto > 0 && text[upto - 1] == mark
        invariant
            upto <= text.len(),
            stripped_end(text@, mark) == stripped_end(text@.subrange(0, upto as int), mark),
        decreases upto,
    {
        assert(text@.subrange(0, upto as int).drop_last() =~= text@.subrange(0, upto - 1));
        upto -= 1;
    }
    slice_of(text, 0, upto)
}

/// A number in decimal is made of digits, at least one, and writes itself.
pub proof fn lemma_decimal_writes_number(number: nat)
    ensures
        decimal(number).len() >= 1,
        forall|i: int| 0 <= i < decimal(number).len() ==> is_digit(#[trigger] decimal(number)[i]),
        digits_value(decimal(number)) == number,
    decreases number,
{
    if number < 10 {
        assert(decimal(number) =~= seq![digit(number as int)]);
        assert(decimal(number).drop_last() =~= Seq::<char>::empty());
        assert(digits_value(decimal(number).drop_last()) == 0);
    } else {
        lemma_decimal_writes_number(number / 10);
        assert(decimal(number).drop_last() =~= decimal(number / 10));
    }
}

/// The first line of a text ends before its first line break.
pub proof fn lemma_first_line(head: Seq<char>, tail: Seq<char>)
    requires
        forall|i: int| 0 <= i < head.len() ==> head[i] != '\n',
    ensures
        lines(head).len() == 1,
        lines(head)[0] == head,
        lines(head + seq!['\n'] + tail).len() >= 2,
        lines(head + seq!['\n'] + tail)[0] == head,
    decreases head.len() + tail.len(),
{
    if head.len() > 0 {
        lemma_first_line(head.drop_last(), Seq::empty());
        assert(lines(head)[0] =~= head);
    }
    let whole = head + seq!['\n'] + tail;
    if tail.len() == 0 {
        assert(whole.drop_last() =~= head);
    } else {
        lemma_first_line(head, tail.drop_last());
        assert(whole.drop_last() =~= head + seq!['\n'] + tail.drop_last());
    }
}

/// The first position of a pattern is the position at which it stands
/// while it stands at none before.
pub proof fn lemma_first_position(text: Seq<char>, pattern: Seq<char>, at: int)
    requires
        occurs_at(text, pattern, at),
        forall|j: int| 0 <= j < at ==> !occurs_at(text, pattern, j),
    ensures
        first_position(text, pattern) == at,
{
    lemma_first_from(text, pattern, at, 0);
}

proof fn lemma_first_from(text: Seq<char>, pattern: Seq<char>, at: int, from: int)
    requires
        0 <= from <= at,
        occurs_at(text, pattern, at),
        forall|j: int| from <= j < at ==> !occurs_at(text, pattern, j),
    ensures
        first_from(text, pattern, from) == at,
    decreases at - from,
{
    if from < at {
        lemma_first_from(text, pattern, at, from + 1);
    }
}

/// The trimmed text is the part between its first and its last character
/// that is no white space; it is empty where the text holds nothing else.
pub proof fn lemma_trimmed(text: Seq<char>, low: int, high: int)
    requires
        0 <= low <= high <= text.len(),
        forall|i: int| 0 <= i < low ==> is_space(text[i]),
        forall|i: int| high <= i < text.len() ==> is_space(text[i]),
        low < high ==> !is_space(text[low]) && !is_space(text[high - 1]),
    ensures
        trimmed(text) == text.subrange(low, high),
{
    if low < high {
        lemma_skip_spaces(text, 0, low);
        lemma_drop_spaces(text, low, text.len() as int, high);
    } else {
        let stop = skip_spaces(text, 0);
        lemma_skip_all(text, 0);
        assert(stop == text.len());
        assert(drop_spaces(text, stop, text.len() as int) == text.len());
        assert(text.subrange(text.len() as int, text.len() as int) =~= text.subrange(low, high));
    }
}

proof fn lemma_skip_spaces(text: Seq<char>, from: int, low: int)
    requires
        0 <= from <= low < text.len(),
        forall|i: int| from <= i < low ==> is_space(text[i]),
        !is_space(text[low]),
    ensures
        skip_spaces(text, from) == low,
    decreases low - from,
{
    if from < low {
        lemma_skip_spaces(text, from + 1, low);
    }
}

proof fn lemma_skip_all(text: Seq<char>, from: int)
    requires
        0 <= from <= text.len(),
        forall|i: int| from <= i < text.len() ==> is_space(text[i]),
    ensures
        skip_spaces(text, from) == text.len(),
    decreases text.len() - from,
{
    if from < text.len() {
        lemma_skip_all(text, from + 1);
    }
}

proof fn lemma_drop_spaces(text: Seq<char>, low: int, upto: int, high: int)
    requires
        0 <= low < high <= upto <= text.len(),
        forall|i: int| high <= i < upto ==> is_space(text[i]),
        !is_space(text[high - 1]),
    ensures
        drop_spaces(text, low, upto) == high,
    decreases upto - high,
{
    if high < upto {
        lemma_drop_spaces(text, low, upto - 1, high);
    }
}

} // verus!
