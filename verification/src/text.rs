//! Text as sequences of characters: the operations on strings that the rest of
//! the library is built from.

use vstd::prelude::*;

verus! {

/// The views of a list of strings.
pub open spec fn texts(parts: Seq<String>) -> Seq<Seq<char>> {
    parts.map_values(|part: String| part@)
}

/// The view of a string that may be absent.
pub open spec fn opt_text(part: Option<String>) -> Option<Seq<char>> {
    match part {
        Some(text) => Some(text@),
        None => None,
    }
}

/// `parts` one after the other, with `separator` between neighbours.
pub open spec fn joined(parts: Seq<Seq<char>>, separator: Seq<char>) -> Seq<char>
    decreases parts.len(),
{
    if parts.len() == 0 {
        Seq::empty()
    } else if parts.len() == 1 {
        parts[0]
    } else {
        joined(parts.drop_last(), separator) + separator + parts.last()
    }
}

/// Whether `needle` stands somewhere in `hay` as one unbroken piece.
pub open spec fn occurs(needle: Seq<char>, hay: Seq<char>) -> bool {
    exists|at: int| #[trigger] occurs_at(needle, hay, at)
}

/// Whether `needle` stands in `hay` from position `at` on.
pub open spec fn occurs_at(needle: Seq<char>, hay: Seq<char>, at: int) -> bool {
    0 <= at <= hay.len() - needle.len() && hay.subrange(at, at + needle.len()) == needle
}

/// `s` without the run of `c` that it starts with.
pub open spec fn without_leading(s: Seq<char>, c: char) -> Seq<char>
    decreases s.len(),
{
    if s.len() > 0 && s[0] == c {
        without_leading(s.skip(1), c)
    } else {
        s
    }
}

/// The characters with the Unicode property `White_Space`.
pub open spec fn is_space(c: char) -> bool {
    ||| '\u{9}' <= c <= '\u{d}'
    ||| c == ' '
    ||| c == '\u{85}'
    ||| c == '\u{a0}'
    ||| c == '\u{1680}'
    ||| '\u{2000}' <= c <= '\u{200a}'
    ||| c == '\u{2028}'
    ||| c == '\u{2029}'
    ||| c == '\u{202f}'
    ||| c == '\u{205f}'
    ||| c == '\u{3000}'
}

/// `s` without the white space that it starts with.
pub open spec fn trimmed_start(s: Seq<char>) -> Seq<char>
    decreases s.len(),
{
    if s.len() > 0 && is_space(s[0]) {
        trimmed_start(s.skip(1))
    } else {
        s
    }
}

/// `s` without the white space that it ends with.
pub open spec fn trimmed_end(s: Seq<char>) -> Seq<char>
    decreases s.len(),
{
    if s.len() > 0 && is_space(s.last()) {
        trimmed_end(s.drop_last())
    } else {
        s
    }
}

/// `s` without the white space around it.
pub open spec fn trimmed(s: Seq<char>) -> Seq<char> {
    trimmed_end(trimmed_start(s))
}

/// The parts of `s` before and after the last `c` in it; nothing where it has none.
pub open spec fn around_last(s: Seq<char>, c: char) -> Option<(Seq<char>, Seq<char>)>
    decreases s.len(),
{
    if s.len() == 0 {
        None
    } else if s.last() == c {
        Some((s.drop_last(), Seq::empty()))
    } else {
        match around_last(s.drop_last(), c) {
            Some((before, after)) => Some((before, after.push(s.last()))),
            None => None,
        }
    }
}

/// The character that writes the digit `d`.
pub open spec fn digit(d: nat) -> char {
    (48 + d) as char
}

/// The number `n` in base ten, without leading zeros.
pub open spec fn decimal(n: nat) -> Seq<char>
    decreases n,
{
    if n < 10 {
        seq![digit(n)]
    } else {
        decimal(n / 10).push(digit(n % 10))
    }
}

/// Whether `s` is a run of at least one decimal digit.
pub open spec fn is_digits(s: Seq<char>) -> bool {
    s.len() > 0 && forall|i: int| 0 <= i < s.len() ==> '0' <= #[trigger] s[i] <= '9'
}

/// The number that a run of decimal digits writes.
pub open spec fn digits_value(s: Seq<char>) -> nat
    decreases s.len(),
{
    if s.len() == 0 {
        0
    } else {
        (10 * digits_value(s.drop_last()) + (s.last() as int - 48)) as nat
    }
}

/// `s` without the plus sign that it may start with.
pub open spec fn without_plus(s: Seq<char>) -> Seq<char> {
    if s.len() > 0 && s[0] == '+' {
        s.skip(1)
    } else {
        s
    }
}

/// The number that `s` writes, where it is a `u64`: an optional plus sign and at
/// least one digit.
pub open spec fn u64_value(s: Seq<char>) -> Option<u64> {
    let body = without_plus(s);
    if is_digits(body) && digits_value(body) <= u64::MAX {
        Some(digits_value(body) as u64)
    } else {
        None
    }
}

/// The characters of `s`, in order.
pub fn chars_of(s: &str) -> (chars: Vec<char>)
    ensures
        chars@ == s@,
{
    let mut chars: Vec<char> = Vec::new();
    for c in it: s.chars()
        invariant
            it.seq() == s@,
            chars@ == s@.take(it.index() as int),
    {
        chars.push(c);
    }
    assert(s@.take(s@.len() as int) == s@);
    chars
}

/// Whether two strings hold the same characters.
pub fn same_text(a: &str, b: &str) -> (same: bool)
    ensures
        same == (a@ == b@),
{
    a.to_owned() == b.to_owned()
}

/// Joins `parts`, with `separator` between neighbours.
pub fn join(parts: &Vec<String>, separator: &str) -> (text: String)
    ensures
        text@ == joined(texts(parts@), separator@),
{
    let mut text = String::new();
    let ghost views = texts(parts@);
    for i in 0..parts.len()
        invariant
            views == texts(parts@),
            text@ == joined(views.take(i as int), separator@),
    {
        if i > 0 {
            text.append(separator);
        }
        text.append(parts[i].as_str());
        assert(views.take(i + 1).drop_last() == views.take(i as int));
    }
    assert(views.take(parts.len() as int) == views);
    text
}

/// Whether `needle` stands somewhere in `hay`.
pub fn contains_text(hay: &str, needle: &str) -> (found: bool)
    ensures
        found == occurs(needle@, hay@),
{
    let hay_chars = chars_of(hay);
    let needle_chars = chars_of(needle);
    if needle_chars.len() > hay_chars.len() {
        return false;
    }
    let last: usize = hay_chars.len() - needle_chars.len();
    let mut at: usize = 0;
    while at <= last
        invariant
            hay_chars@ == hay@,
            needle_chars@ == needle@,
            last == hay_chars.len() - needle_chars.len(),
            at <= last + 1,
            forall|k: int| 0 <= k < at ==> !#[trigger] occurs_at(needle@, hay@, k),
        decreases last + 1 - at,
    {
        let mut i: usize = 0;
        while i < needle_chars.len() && hay_chars[at + i] == needle_chars[i]
            invariant
                hay_chars@ == hay@,
                needle_chars@ == needle@,
                at + needle_chars.len() <= hay_chars.len(),
                i <= needle_chars.len(),
                forall|k: int| 0 <= k < i ==> hay@[at + k] == #[trigger] needle@[k],
            decreases needle_chars.len() - i,
        {
            i += 1;
        }
        if i == needle_chars.len() {
            assert(hay@.subrange(at as int, at + needle@.len()) == needle@);
            assert(occurs_at(needle@, hay@, at as int));
            return true;
        }
        assert(hay@.subrange(at as int, at + needle@.len())[i as int] != needle@[i as int]);
        if at == last {
            return false;
        }
        at += 1;
    }
    false
}

/// Whether the character `c` stands somewhere in `s`.
pub fn contains_char(s: &str, c: char) -> (found: bool)
    ensures
        found == s@.contains(c),
{
    let chars = chars_of(s);
    for i in 0..chars.len()
        invariant
            chars@ == s@,
            forall|k: int| 0 <= k < i ==> s@[k] != c,
    {
        if chars[i] == c {
            assert(s@[i as int] == c);
            return true;
        }
    }
    false
}

/// Whether `s` starts with the character `c`.
pub fn starts_with_char(s: &str, c: char) -> (starts: bool)
    ensures
        starts == (s@.len() > 0 && s@[0] == c),
{
    !s.is_empty() && s.get_char(0) == c
}

/// `s` without the run of `c` that it starts with.
pub fn strip_leading(s: &str, c: char) -> (rest: &str)
    ensures
        rest@ == without_leading(s@, c),
{
    let chars = chars_of(s);
    let mut from: usize = 0;
    assert(s@.skip(0) == s@);
    while from < chars.len() && chars[from] == c
        invariant
            chars@ == s@,
            from <= chars.len(),
            without_leading(s@, c) == without_leading(s@.skip(from as int), c),
        decreases chars.len() - from,
    {
        assert(s@.skip(from as int).skip(1) == s@.skip(from + 1));
        from += 1;
    }
    assert(s@.subrange(from as int, chars.len() as int) == s@.skip(from as int));
    s.substring_char(from, chars.len())
}

/// Whether `c` is white space.
pub fn white_space(c: char) -> (space: bool)
    ensures
        space == is_space(c),
{
    ('\u{9}' <= c && c <= '\u{d}') || c == ' ' || c == '\u{85}' || c == '\u{a0}' || c == '\u{1680}'
        || ('\u{2000}' <= c && c <= '\u{200a}') || c == '\u{2028}' || c == '\u{2029}'
        || c == '\u{202f}' || c == '\u{205f}' || c == '\u{3000}'
}

/// `s` without the white space around it.
pub fn trim(s: &str) -> (rest: &str)
    ensures
        rest@ == trimmed(s@),
{
    let chars = chars_of(s);
    let mut from: usize = 0;
    assert(s@.skip(0) == s@);
    while from < chars.len() && white_space(chars[from])
        invariant
            chars@ == s@,
            from <= chars.len(),
            trimmed_start(s@) == trimmed_start(s@.skip(from as int)),
        decreases chars.len() - from,
    {
        assert(s@.skip(from as int).skip(1) == s@.skip(from + 1));
        from += 1;
    }
    let ghost rest = s@.skip(from as int);
    let mut to: usize = chars.len();
    assert(s@.subrange(from as int, to as int) == rest);
    while from < to && white_space(chars[to - 1])
        invariant
            chars@ == s@,
            from <= to <= chars.len(),
            trimmed_end(rest) == trimmed_end(s@.subrange(from as int, to as int)),
        decreases to - from,
    {
        assert(s@.subrange(from as int, to as int).drop_last() == s@.subrange(
            from as int,
            to - 1,
        ));
        to -= 1;
    }
    s.substring_char(from, to)
}

/// The parts of `s` before and after the last `c` in it.
pub fn split_last(s: &str, c: char) -> (parts: Option<(String, String)>)
    ensures
        match parts {
            Some((before, after)) => around_last(s@, c) == Some((before@, after@)),
            None => around_last(s@, c) is None,
        },
{
    let chars = chars_of(s);
    let mut at: usize = chars.len();
    assert(s@.take(at as int) == s@);
    while at > 0
        invariant
            chars@ == s@,
            at <= chars.len(),
            around_last(s@, c) == match around_last(s@.take(at as int), c) {
                Some((before, after)) => Some((before, after + s@.skip(at as int))),
                None => None,
            },
        decreases at,
    {
        at -= 1;
        assert(s@.take(at + 1).drop_last() == s@.take(at as int));
        assert(seq![s@[at as int]] + s@.skip(at + 1) == s@.skip(at as int));
        if chars[at] == c {
            assert(Seq::<char>::empty() + s@.skip(at + 1) == s@.skip(at + 1));
            let before = s.substring_char(0, at).to_owned();
            let after = s.substring_char(at + 1, chars.len()).to_owned();
            assert(before@ == s@.take(at as int));
            assert(after@ == s@.skip(at + 1));
            return Some((before, after));
        }
        proof {
            if let Some((before, after)) = around_last(s@.take(at as int), c) {
                assert(after.push(s@[at as int]) + s@.skip(at + 1) == after + s@.skip(at as int));
            }
        }
    }
    None
}

/// The text of one digit.
fn digit_text(d: u8) -> (text: &'static str)
    requires
        d < 10,
    ensures
        text@ == seq![digit(d as nat)],
{
    proof {
        reveal_strlit("0");
        reveal_strlit("1");
        reveal_strlit("2");
        reveal_strlit("3");
        reveal_strlit("4");
        reveal_strlit("5");
        reveal_strlit("6");
        reveal_strlit("7");
        reveal_strlit("8");
        reveal_strlit("9");
    }
    match d {
        0 => "0",
        1 => "1",
        2 => "2",
        3 => "3",
        4 => "4",
        5 => "5",
        6 => "6",
        7 => "7",
        8 => "8",
        _ => "9",
    }
}

/// Writes `n` in base ten.
pub fn to_decimal(n: u128) -> (text: String)
    ensures
        text@ == decimal(n as nat),
    decreases n,
{
    if n < 10 {
        digit_text(n as u8).to_owned()
    } else {
        let mut text = to_decimal(n / 10);
        text.append(digit_text((n % 10) as u8));
        text
    }
}

/// A longer run of digits writes a number at least as large.
proof fn lemma_digits_value_monotone(s: Seq<char>, len: int)
    requires
        is_digits(s),
        0 <= len <= s.len(),
    ensures
        digits_value(s.take(len)) <= digits_value(s),
    decreases s.len() - len,
{
    if len == s.len() {
        assert(s.take(len) == s);
    } else {
        lemma_digits_value_monotone(s, len + 1);
        assert(s.take(len + 1).drop_last() == s.take(len));
        assert('0' <= s[len] <= '9');
    }
}

/// Reads a `u64`: an optional plus sign and at least one digit.
pub fn parse_u64(s: &str) -> (value: Option<u64>)
    ensures
        value == u64_value(s@),
{
    let chars = chars_of(s);
    let from: usize = if chars.len() > 0 && chars[0] == '+' { 1 } else { 0 };
    let ghost body = without_plus(s@);
    assert(body == s@.skip(from as int));
    if from == chars.len() {
        return None;
    }
    let mut value: u64 = 0;
    let mut i: usize = from;
    while i < chars.len()
        invariant
            chars@ == s@,
            from <= i <= chars.len(),
            from < chars.len(),
            body == without_plus(s@),
            body == s@.skip(from as int),
            forall|k: int| 0 <= k < i - from ==> '0' <= #[trigger] body[k] <= '9',
            value == digits_value(body.take(i - from)),
        decreases chars.len() - i,
    {
        let c = chars[i];
        assert(body[i - from] == c);
        if c < '0' || c > '9' {
            return None;
        }
        let d: u64 = (c as u32 - 48) as u64;
        assert(body.take(i + 1 - from).drop_last() == body.take(i - from));
        assert(digits_value(body.take(i + 1 - from)) == 10 * value + d);
        if value > (u64::MAX - d) / 10 {
            proof {
                if is_digits(body) {
                    lemma_digits_value_monotone(body, i + 1 - from);
                }
            }
            return None;
        }
        value = 10 * value + d;
        i += 1;
    }
    assert(body.take(body.len() as int) == body);
    Some(value)
}

/// What `str::to_lowercase` makes of a text.
pub uninterp spec fn lowercase(s: Seq<char>) -> Seq<char>;

/// The lower case of an ASCII letter; every other character unchanged.
pub open spec fn ascii_lower(c: char) -> char {
    if 'A' <= c <= 'Z' {
        (c as int + 32) as char
    } else {
        c
    }
}

/// Calls `str::to_lowercase`. The result is a function of the text alone, by the
/// Unicode property `Lowercase`; of a text of ASCII characters it is the text with
/// each of the letters `A` to `Z` in lower case. What it makes of other characters
/// is left to the name `lowercase`.
#[verifier::external_body]
pub(crate) fn to_lowercase(s: &str) -> (lower: String)
    ensures
        lower@ == lowercase(s@),
        (forall|i: int| 0 <= i < s@.len() ==> #[trigger] s@[i] <= '\u{7f}') ==> lower@
            == s@.map_values(|c: char| ascii_lower(c)),
{
    s.to_lowercase()
}

/// The decimal digits of a number write that number.
pub proof fn law_decimal_value(n: nat)
    ensures
        is_digits(decimal(n)),
        digits_value(decimal(n)) == n,
    decreases n,
{
    if n < 10 {
        assert(decimal(n).drop_last() == Seq::<char>::empty());
        reveal_with_fuel(digits_value, 2);
    } else {
        law_decimal_value(n / 10);
        assert(decimal(n).drop_last() == decimal(n / 10));
    }
}

/// Writing a number in base ten loses nothing: different numbers have different
/// texts.
pub proof fn law_decimal_injective(a: nat, b: nat)
    requires
        decimal(a) == decimal(b),
    ensures
        a == b,
{
    law_decimal_value(a);
    law_decimal_value(b);
}

/// Reading a `u64` gives back the number that was written.
pub proof fn law_parse_decimal(n: u64)
    ensures
        u64_value(decimal(n as nat)) == Some(n),
{
    law_decimal_value(n as nat);
    assert('0' <= decimal(n as nat)[0] <= '9');
}

/// The parts around the last `c` make up the text again, and there is no `c` behind
/// it.
pub proof fn law_parts_around_last(s: Seq<char>, c: char)
    ensures
        around_last(s, c) is Some <==> s.contains(c),
        around_last(s, c) matches Some((before, after)) ==> s == before + seq![c] + after
            && !after.contains(c),
    decreases s.len(),
{
    if s.len() > 0 {
        law_parts_around_last(s.drop_last(), c);
        assert(s == s.drop_last().push(s.last()));
        if s.last() == c {
            assert(s == s.drop_last() + seq![c] + Seq::<char>::empty());
        } else if let Some((before, after)) = around_last(s.drop_last(), c) {
            assert(s == before + seq![c] + after.push(s.last()));
            assert(s[before.len() as int] == c);
        } else if s.contains(c) {
            let at = choose|i: int| 0 <= i < s.len() && s[i] == c;
            assert(s.drop_last()[at] == c);
        }
    }
}

/// Trimming leaves a text that neither starts nor ends with white space.
pub proof fn law_trimmed_has_no_outer_space(s: Seq<char>)
    ensures
        trimmed(s).len() > 0 ==> !is_space(trimmed(s)[0]) && !is_space(trimmed(s).last()),
{
    lemma_trimmed_start(s);
    lemma_trimmed_end(trimmed_start(s));
}

proof fn lemma_trimmed_start(s: Seq<char>)
    ensures
        trimmed_start(s).len() > 0 ==> !is_space(trimmed_start(s)[0]),
    decreases s.len(),
{
    if s.len() > 0 && is_space(s[0]) {
        lemma_trimmed_start(s.skip(1));
    }
}

proof fn lemma_trimmed_end(s: Seq<char>)
    ensures
        trimmed_end(s).len() > 0 ==> !is_space(trimmed_end(s).last()) && trimmed_end(s)[0] == s[0],
    decreases s.len(),
{
    if s.len() > 0 && is_space(s.last()) {
        lemma_trimmed_end(s.drop_last());
    }
}

/// Joining leaves a single part as it is, and puts the separator before each further
/// part, whether that comes behind the others or before them.
pub proof fn law_joining_adds_a_part(parts: Seq<Seq<char>>, part: Seq<char>, separator: Seq<char>)
    ensures
        joined(Seq::empty(), separator).len() == 0,
        joined(seq![part], separator) == part,
        parts.len() > 0 ==> joined(parts.push(part), separator) == joined(parts, separator)
            + separator + part,
        parts.len() > 0 ==> joined(seq![part] + parts, separator) == part + separator + joined(
            parts,
            separator,
        ),
    decreases parts.len(),
{
    if parts.len() > 0 {
        assert(parts.push(part).drop_last() =~= parts);
        let more = seq![part] + parts;
        assert(more.drop_last() =~= seq![part] + parts.drop_last());
        assert(more.last() == parts.last());
        if parts.len() == 1 {
            assert(parts.drop_last() =~= Seq::empty());
            assert(seq![part] + parts.drop_last() =~= seq![part]);
        } else {
            law_joining_adds_a_part(parts.drop_last(), part, separator);
            assert(part + separator + (joined(parts.drop_last(), separator) + separator
                + parts.last()) =~= part + separator + joined(parts.drop_last(), separator)
                + separator + parts.last());
        }
    }
}

/// A joined text is as long as its parts and the separators between them.
pub proof fn law_joined_length(parts: Seq<Seq<char>>, separator: Seq<char>)
    requires
        parts.len() > 0,
    ensures
        joined(parts, separator).len() == parts.fold_left(
            0int,
            |sum: int, part: Seq<char>| sum + part.len(),
        ) + (parts.len() - 1) * separator.len(),
    decreases parts.len(),
{
    let count = |sum: int, part: Seq<char>| sum + part.len();
    reveal_with_fuel(Seq::fold_left, 2);
    if parts.len() == 1 {
        assert(parts.drop_last() =~= Seq::empty());
    } else {
        law_joined_length(parts.drop_last(), separator);
        assert((parts.len() - 1) * separator.len() == (parts.len() - 2) * separator.len()
            + separator.len()) by (nonlinear_arith)
            requires
                parts.len() >= 2,
        ;
    }
}

/// Each further digit makes a number ten times as large and adds its own value.
pub proof fn law_digits_are_read_in_base_ten(s: Seq<char>, c: char)
    requires
        '0' <= c <= '9',
    ensures
        digits_value(Seq::empty()) == 0,
        digits_value(s.push(c)) == 10 * digits_value(s) + (c as int - '0' as int),
{
    assert(s.push(c).drop_last() =~= s);
}

/// A number has exactly one text of digits without a leading zero, and is written so.
pub proof fn law_decimal_is_the_only_text(s: Seq<char>)
    requires
        s.len() > 0,
        forall|i: int| 0 <= i < s.len() ==> '0' <= #[trigger] s[i] <= '9',
        s.len() == 1 || s[0] != '0',
    ensures
        decimal(digits_value(s)) == s,
    decreases s.len(),
{
    let rest = s.drop_last();
    let d = (s.last() as int - 48) as nat;
    assert('0' <= s[s.len() - 1] <= '9');
    assert(digit(d) == s.last());
    if s.len() == 1 {
        assert(rest =~= Seq::empty());
        assert(digits_value(rest) == 0);
        assert(digits_value(s) == d);
        assert(decimal(digits_value(s)) =~= s);
    } else {
        assert(rest[0] == s[0]);
        assert forall|i: int| 0 <= i < rest.len() implies '0' <= #[trigger] rest[i] <= '9' by {
            assert(rest[i] == s[i]);
        }
        lemma_value_of_nonzero(rest);
        law_decimal_is_the_only_text(rest);
        let n = digits_value(s);
        assert(n == 10 * digits_value(rest) + d);
        assert(n / 10 == digits_value(rest) && n % 10 == d);
        assert(decimal(n) =~= s);
    }
}

proof fn lemma_value_of_nonzero(s: Seq<char>)
    requires
        s.len() > 0,
        forall|i: int| 0 <= i < s.len() ==> '0' <= #[trigger] s[i] <= '9',
        s[0] != '0',
    ensures
        digits_value(s) > 0,
    decreases s.len(),
{
    assert('0' <= s[s.len() - 1] <= '9');
    if s.len() == 1 {
        reveal_with_fuel(digits_value, 2);
    } else {
        let rest = s.drop_last();
        assert forall|i: int| 0 <= i < rest.len() implies '0' <= #[trigger] rest[i] <= '9' by {
            assert(rest[i] == s[i]);
        }
        assert(rest[0] == s[0]);
        lemma_value_of_nonzero(rest);
    }
}

/// A number is written without a leading zero, in digits alone.
pub proof fn law_decimal_has_no_leading_zero(n: nat)
    ensures
        decimal(n).len() > 0,
        n > 0 ==> decimal(n)[0] != '0',
        n == 0 ==> decimal(n) == "0"@,
    decreases n,
{
    reveal_strlit("0");
    if n >= 10 {
        law_decimal_has_no_leading_zero(n / 10);
    }
}

/// A `u64` is read from digits, leading zeros among them, and from digits behind a plus
/// sign; digits of a larger number are none.
pub proof fn law_u64_is_read_from_digits(s: Seq<char>)
    requires
        s.len() > 0,
        forall|i: int| 0 <= i < s.len() ==> '0' <= #[trigger] s[i] <= '9',
    ensures
        digits_value(s) <= u64::MAX ==> u64_value(s) == Some(digits_value(s) as u64),
        digits_value(s) > u64::MAX ==> u64_value(s) is None,
        u64_value(seq!['+'] + s) == u64_value(s),
        u64_value(seq!['0'] + s) == u64_value(s),
{
    assert('0' <= s[0] <= '9');
    assert((seq!['+'] + s).skip(1) =~= s);
    let padded = seq!['0'] + s;
    assert forall|i: int| 0 <= i < padded.len() implies '0' <= #[trigger] padded[i] <= '9' by {
        if i > 0 {
            assert(padded[i] == s[i - 1]);
        }
    }
    lemma_leading_zero(s);
}

proof fn lemma_leading_zero(s: Seq<char>)
    ensures
        digits_value(seq!['0'] + s) == digits_value(s),
    decreases s.len(),
{
    let padded = seq!['0'] + s;
    if s.len() == 0 {
        assert(padded.drop_last() =~= Seq::empty());
        reveal_with_fuel(digits_value, 2);
    } else {
        assert(padded.drop_last() =~= seq!['0'] + s.drop_last());
        lemma_leading_zero(s.drop_last());
    }
}

/// What is read as a `u64` is made of digits, but for a plus sign before them.
pub proof fn law_only_digits_are_read(s: Seq<char>)
    requires
        u64_value(s) is Some,
    ensures
        s.len() > 0,
        '0' <= s.last() <= '9',
        s[0] == '+' || '0' <= s[0] <= '9',
        forall|i: int| 0 < i < s.len() ==> '0' <= #[trigger] s[i] <= '9',
{
    let body = without_plus(s);
    assert forall|i: int| 0 < i < s.len() implies '0' <= #[trigger] s[i] <= '9' by {
        if s[0] == '+' {
            assert(body[i - 1] == s[i]);
        } else {
            assert(body[i] == s[i]);
        }
    }
    if s[0] != '+' {
        assert('0' <= body[0] <= '9');
    }
}

/// Only white space is trimmed off: the text is what is left, with white space before
/// and behind it.
pub proof fn law_trimming_takes_white_space_alone(s: Seq<char>)
    ensures
        exists|before: Seq<char>, after: Seq<char>|
            {
                &&& s == #[trigger] (before + trimmed(s) + after)
                &&& forall|i: int| 0 <= i < before.len() ==> is_space(#[trigger] before[i])
                &&& forall|i: int| 0 <= i < after.len() ==> is_space(#[trigger] after[i])
            },
{
    let before = lemma_split_start(s);
    let after = lemma_split_end(trimmed_start(s));
    assert(s =~= before + trimmed(s) + after);
}

proof fn lemma_split_start(s: Seq<char>) -> (before: Seq<char>)
    ensures
        s == before + trimmed_start(s),
        forall|i: int| 0 <= i < before.len() ==> is_space(#[trigger] before[i]),
    decreases s.len(),
{
    if s.len() > 0 && is_space(s[0]) {
        let before = lemma_split_start(s.skip(1));
        let whole = seq![s[0]] + before;
        assert(s =~= seq![s[0]] + s.skip(1));
        assert(seq![s[0]] + (before + trimmed_start(s)) =~= whole + trimmed_start(s));
        assert forall|i: int| 0 <= i < whole.len() implies is_space(#[trigger] whole[i]) by {
            if i > 0 {
                assert(whole[i] == before[i - 1]);
            }
        }
        whole
    } else {
        assert(s =~= Seq::<char>::empty() + trimmed_start(s));
        Seq::empty()
    }
}

proof fn lemma_split_end(s: Seq<char>) -> (after: Seq<char>)
    ensures
        s == trimmed_end(s) + after,
        forall|i: int| 0 <= i < after.len() ==> is_space(#[trigger] after[i]),
    decreases s.len(),
{
    if s.len() > 0 && is_space(s.last()) {
        let after = lemma_split_end(s.drop_last());
        let whole = after.push(s.last());
        assert(s =~= s.drop_last().push(s.last()));
        assert((trimmed_end(s) + after).push(s.last()) =~= trimmed_end(s) + whole);
        whole
    } else {
        assert(s =~= trimmed_end(s) + Seq::<char>::empty());
        Seq::empty()
    }
}

/// Blanks, tabs and line ends are white space; what is printed in ASCII is not.
pub proof fn law_white_space_is_not_printed(c: char)
    ensures
        c == ' ' || c == '\t' || c == '\n' || c == '\r' ==> is_space(c),
        '!' <= c <= '~' ==> !is_space(c),
{
}

/// A text without its leading run of a character does not start with it, and is the
/// end of the text behind nothing but that character.
pub proof fn law_leading_run_is_taken_off(s: Seq<char>, c: char)
    ensures
        ({
            let rest = without_leading(s, c);
            &&& rest.len() > 0 ==> rest[0] != c
            &&& rest.len() <= s.len()
            &&& rest == s.skip(s.len() - rest.len())
            &&& forall|i: int| 0 <= i < s.len() - rest.len() ==> #[trigger] s[i] == c
        }),
    decreases s.len(),
{
    let rest = without_leading(s, c);
    if s.len() > 0 && s[0] == c {
        law_leading_run_is_taken_off(s.skip(1), c);
        assert(rest =~= s.skip(s.len() - rest.len()));
        assert forall|i: int| 0 <= i < s.len() - rest.len() implies #[trigger] s[i] == c by {
            if i > 0 {
                assert(s.skip(1)[i - 1] == s[i]);
            }
        }
    } else {
        assert(s.skip(0) =~= s);
    }
}

/// A text occurs in another exactly where the other is that text with something, or
/// nothing, before and behind it.
pub proof fn law_occurring_is_standing_between(
    needle: Seq<char>,
    hay: Seq<char>,
    before: Seq<char>,
    after: Seq<char>,
)
    ensures
        occurs(needle, before + needle + after),
        occurs(needle, hay) ==> exists|a: Seq<char>, b: Seq<char>|
            hay == #[trigger] (a + needle + b),
{
    let whole = before + needle + after;
    let at = before.len() as int;
    assert(whole.subrange(at, at + needle.len()) =~= needle);
    assert(occurs_at(needle, whole, at));
    if occurs(needle, hay) {
        let k = choose|k: int| occurs_at(needle, hay, k);
        assert(hay =~= hay.take(k) + needle + hay.skip(k + needle.len())) by {
            assert(hay.subrange(k, k + needle.len()) == needle);
            assert forall|i: int| 0 <= i < needle.len() implies needle[i] == hay[k + i] by {
                assert(hay.subrange(k, k + needle.len())[i] == hay[k + i]);
            }
        }
    }
}

/// Lower case changes the capital letters of ASCII to the small ones, and nothing else.
pub proof fn law_ascii_lower_case(c: char)
    ensures
        'A' <= c <= 'Z' ==> 'a' <= ascii_lower(c) <= 'z' && ascii_lower(c) as int - 'a' as int
            == c as int - 'A' as int,
        !('A' <= c <= 'Z') ==> ascii_lower(c) == c,
{
}

/// A list of strings stands for their texts, one for one; a string that is absent for
/// none.
pub proof fn law_texts_are_kept(parts: Seq<String>, part: Option<String>)
    ensures
        texts(parts).len() == parts.len(),
        forall|i: int| 0 <= i < parts.len() ==> #[trigger] texts(parts)[i] == parts[i]@,
        part is Some ==> opt_text(part) == Some(part->0@),
        part is None ==> opt_text(part) is None,
{
}

} // verus!
