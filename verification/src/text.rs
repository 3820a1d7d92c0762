//! Text: the string handling that the rest of the library rests on.
//!
//! A text is modelled by its characters, a `Seq<char>`.

use vstd::prelude::*;
use vstd::string::*;

verus! {

/// A result by the views of what it carries.
pub open spec fn viewed<T: View, E: View>(result: Result<T, E>) -> Result<T::V, E::V> {
    match result {
        Ok(value) => Ok(value@),
        Err(error) => Err(error@),
    }
}

/// An option by the view of what it carries.
pub open spec fn viewed_option<T: View>(option: Option<T>) -> Option<T::V> {
    match option {
        Some(value) => Some(value@),
        None => None,
    }
}

/// A text that may be missing: a missing one counts as the empty one.
pub open spec fn or_empty(text: Option<Seq<char>>) -> Seq<char> {
    match text {
        Some(text) => text,
        None => Seq::empty(),
    }
}

/// The text, or the empty one where it is missing.
pub fn text_or_empty(text: &Option<String>) -> (known: String)
    ensures
        known@ == or_empty(viewed_option(*text)),
{
    match text {
        Some(text) => text.clone(),
        None => String::new(),
    }
}

// ─── Characters ─────────────────────────────────────────────────────────────

/// `String::push`: the text afterwards is the text before with `c` at its end.
pub assume_specification[ String::push ](s: &mut String, c: char)
    ensures
        final(s)@ == old(s)@.push(c),
;

/// The characters of `s`, in order.
pub fn chars_of(s: &str) -> (chars: Vec<char>)
    ensures
        chars@ == s@,
{
    let mut chars: Vec<char> = Vec::new();
    for c in it: s.chars()
        invariant
            it.seq() == s@,
            chars@ == s@.take(it.index() as int),
    {
        chars.push(c);
    }
    chars
}

/// Whether two texts are the same, character by character.
pub fn same_text(a: &str, b: &str) -> (same: bool)
    ensures
        same == (a@ == b@),
{
    let left = a.to_owned();
    let right = b.to_owned();
    left == right
}

/// Whether `s` begins with `prefix`.
pub fn begins_with(s: &Vec<char>, prefix: &Vec<char>) -> (begins: bool)
    ensures
        begins == prefix@.is_prefix_of(s@),
{
    if prefix.len() > s.len() {
        return false;
    }
    let mut i: usize = 0;
    while i < prefix.len()
        invariant
            i <= prefix@.len() <= s@.len(),
            forall|j: int| 0 <= j < i ==> s@[j] == prefix@[j],
        decreases prefix@.len() - i,
    {
        if s[i] != prefix[i] {
            assert(s@.subrange(0, prefix@.len() as int)[i as int] != prefix@[i as int]);
            return false;
        }
        i = i + 1;
    }
    assert(s@.subrange(0, prefix@.len() as int) == prefix@);
    true
}

/// Whether `c` occurs in `s`.
pub fn has_char(s: &str, c: char) -> (found: bool)
    ensures
        found == s@.contains(c),
{
    let chars = chars_of(s);
    let mut i: usize = 0;
    while i < chars.len()
        invariant
            i <= chars@.len(),
            chars@ == s@,
            forall|j: int| 0 <= j < i ==> s@[j] != c,
        decreases chars@.len() - i,
    {
        if chars[i] == c {
            assert(s@[i as int] == c);
            return true;
        }
        i = i + 1;
    }
    false
}

// ─── Lists of texts ─────────────────────────────────────────────────────────

/// The texts of a list of strings.
pub open spec fn texts(list: Seq<String>) -> Seq<Seq<char>> {
    list.map_values(|s: String| s@)
}

/// A copy of a list of texts.
pub fn copy_texts(list: &[String]) -> (copy: Vec<String>)
    ensures
        texts(copy@) == texts(list@),
{
    let mut copy: Vec<String> = Vec::new();
    let mut i: usize = 0;
    while i < list.len()
        invariant
            i <= list@.len(),
            texts(copy@) == texts(list@).take(i as int),
        decreases list@.len() - i,
    {
        let ghost done = copy@;
        copy.push(list[i].clone());
        assert(texts(copy@) == texts(done).push(list@[i as int]@));
        assert(texts(list@).take(i + 1) == texts(list@).take(i as int).push(
            texts(list@)[i as int],
        ));
        i = i + 1;
    }
    assert(texts(list@).take(list@.len() as int) == texts(list@));
    copy
}

/// `parts` one after the other, with `sep` between any two neighbours.
pub open spec fn joined(parts: Seq<Seq<char>>, sep: Seq<char>) -> Seq<char>
    decreases parts.len(),
{
    if parts.len() == 0 {
        Seq::empty()
    } else if parts.len() == 1 {
        parts[0]
    } else {
        joined(parts.drop_last(), sep) + (sep + parts.last())
    }
}

/// Joins `parts` with `sep` between any two neighbours.
pub fn join_texts(parts: &[String], sep: &str) -> (text: String)
    ensures
        text@ == joined(texts(parts@), sep@),
{
    let mut text = String::new();
    let mut i: usize = 0;
    while i < parts.len()
        invariant
            i <= parts@.len(),
            text@ == joined(texts(parts@).take(i as int), sep@),
        decreases parts@.len() - i,
    {
        let ghost before = texts(parts@).take(i as int);
        let ghost after = texts(parts@).take(i + 1);
        assert(after.drop_last() == before);
        assert(after.last() == parts@[i as int]@);
        if i > 0 {
            text.append(sep);
            text.append(parts[i].as_str());
            assert(text@ == joined(before, sep@) + (sep@ + parts@[i as int]@));
        } else {
            text.append(parts[i].as_str());
        }
        i = i + 1;
    }
    assert(texts(parts@).take(parts@.len() as int) == texts(parts@));
    text
}

/// The pieces of `s` between the occurrences of `sep`: one more than there are
/// occurrences, and possibly empty.
pub open spec fn split_on(s: Seq<char>, sep: char) -> Seq<Seq<char>>
    decreases s.len(),
{
    if s.len() == 0 {
        seq![Seq::empty()]
    } else {
        let before = split_on(s.drop_last(), sep);
        if s.last() == sep {
            before.push(Seq::empty())
        } else {
            before.drop_last().push(before.last().push(s.last()))
        }
    }
}

/// Splitting loses nothing and splits everywhere: there is always a piece, no
/// piece holds the separator, and joined by it the pieces give `s` back.
pub proof fn lemma_split_on(s: Seq<char>, sep: char)
    ensures
        split_on(s, sep).len() > 0,
        forall|i: int|
            0 <= i < split_on(s, sep).len() ==> !(#[trigger] split_on(s, sep)[i]).contains(sep),
        joined(split_on(s, sep), seq![sep]) == s,
    decreases s.len(),
{
    if s.len() > 0 {
        lemma_split_on(s.drop_last(), sep);
        let before = split_on(s.drop_last(), sep);
        let pieces = split_on(s, sep);
        if s.last() == sep {
            assert(pieces.drop_last() == before);
            assert(joined(pieces, seq![sep]) == s.drop_last() + (seq![sep] + Seq::<char>::empty()));
            assert(s == s.drop_last() + (seq![sep] + Seq::<char>::empty()));
        } else {
            let tail = before.last().push(s.last());
            assert(pieces.drop_last() == before.drop_last());
            assert forall|i: int| 0 <= i < pieces.len() implies !(#[trigger] pieces[i]).contains(
                sep,
            ) by {
                if i == pieces.len() - 1 {
                    assert(!before[i].contains(sep));
                    assert(pieces[i] == tail);
                    if tail.contains(sep) {
                        let k = choose|k: int| 0 <= k < tail.len() && tail[k] == sep;
                        assert(before[i][k] == sep);
                    }
                } else {
                    assert(pieces[i] == before[i]);
                }
            }
            assert(s == s.drop_last().push(s.last()));
            if before.len() == 1 {
                assert(joined(pieces, seq![sep]) == tail);
            } else {
                let head = joined(before.drop_last(), seq![sep]);
                assert(joined(before, seq![sep]) == head + (seq![sep] + before.last()));
                assert(joined(pieces, seq![sep]) == head + (seq![sep] + tail));
                assert(head + (seq![sep] + tail) == (head + (seq![sep] + before.last())).push(
                    s.last(),
                ));
            }
        }
    }
}

/// Splits `s` at every occurrence of `sep`.
pub fn split_text(s: &str, sep: char) -> (pieces: Vec<String>)
    ensures
        texts(pieces@) == split_on(s@, sep),
{
    let chars = chars_of(s);
    let mut pieces: Vec<String> = Vec::new();
    let mut current = String::new();
    let mut i: usize = 0;
    while i < chars.len()
        invariant
            i <= chars@.len(),
            chars@ == s@,
            texts(pieces@).push(current@) == split_on(s@.take(i as int), sep),
        decreases chars@.len() - i,
    {
        let ghost before = split_on(s@.take(i as int), sep);
        assert(s@.take(i + 1).drop_last() == s@.take(i as int));
        assert(before.drop_last() == texts(pieces@));
        if chars[i] == sep {
            let ghost done = pieces@;
            pieces.push(current);
            assert(texts(pieces@) == texts(done).push(current@));
            current = String::new();
        } else {
            current.push(chars[i]);
        }
        i = i + 1;
    }
    assert(s@.take(s@.len() as int) == s@);
    let ghost done = pieces@;
    pieces.push(current);
    assert(texts(pieces@) == texts(done).push(current@));
    pieces
}

// ─── Numbers ────────────────────────────────────────────────────────────────

/// The decimal digit of `d`, for `d` below ten.
pub open spec fn digit(d: nat) -> char {
    (48 + d) as char
}

/// Whether `c` is one of the ten ASCII digits.
pub open spec fn is_digit(c: char) -> bool {
    '0' <= c <= '9'
}

/// The decimal notation of `n`, without leading zeros.
pub open spec fn decimal(n: nat) -> Seq<char>
    decreases n,
{
    if n < 10 {
        seq![digit(n)]
    } else {
        decimal(n / 10).push(digit(n % 10))
    }
}

/// The octal notation of `n`, without leading zeros.
pub open spec fn octal(n: nat) -> Seq<char>
    decreases n,
{
    if n < 8 {
        seq![digit(n)]
    } else {
        octal(n / 8).push(digit(n % 8))
    }
}

/// The decimal notation of a number that may be negative.
pub open spec fn signed_decimal(n: int) -> Seq<char> {
    if n < 0 {
        seq!['-'] + decimal((-n) as nat)
    } else {
        decimal(n as nat)
    }
}

/// The digit of `d`.
fn digit_char(d: u8) -> (c: char)
    requires
        d < 10,
    ensures
        c == digit(d as nat),
        is_digit(c),
{
    (48 + d) as char
}

/// Writes `n` in decimal.
pub fn decimal_text(n: u64) -> (text: String)
    ensures
        text@ == decimal(n as nat),
    decreases n,
{
    let mut text = if n < 10 {
        String::new()
    } else {
        decimal_text(n / 10)
    };
    text.push(digit_char((n % 10) as u8));
    text
}

/// Writes `n` in octal.
pub fn octal_text(n: u32) -> (text: String)
    ensures
        text@ == octal(n as nat),
    decreases n,
{
    let mut text = if n < 8 {
        String::new()
    } else {
        octal_text(n / 8)
    };
    text.push(digit_char((n % 8) as u8));
    text
}

/// Writes `n` in decimal, with a minus sign in front where it is negative.
pub fn signed_decimal_text(n: i32) -> (text: String)
    ensures
        text@ == signed_decimal(n as int),
{
    let mut text = String::new();
    if n < 0 {
        text.push('-');
        let magnitude = decimal_text((-(n as i64)) as u64);
        text.append(magnitude.as_str());
    } else {
        let magnitude = decimal_text(n as u64);
        text.append(magnitude.as_str());
    }
    text
}

/// The number that the digits `s` denote in decimal.
pub open spec fn digits_value(s: Seq<char>) -> nat
    decreases s.len(),
{
    if s.len() == 0 {
        0
    } else {
        digits_value(s.drop_last()) * 10 + (s.last() as nat - 48) as nat
    }
}

/// Whether every character of `s` is a digit.
pub open spec fn all_digits(s: Seq<char>) -> bool {
    forall|i: int| 0 <= i < s.len() ==> is_digit(#[trigger] s[i])
}

/// `s` without a plus sign in front.
pub open spec fn without_plus(s: Seq<char>) -> Seq<char> {
    if s.len() > 0 && s[0] == '+' {
        s.skip(1)
    } else {
        s
    }
}

/// The number that `s` denotes: one or more digits, after a plus sign or not, of a
/// number that sixty-four bits hold. Nothing else denotes a number.
pub open spec fn unsigned_value(s: Seq<char>) -> Option<u64> {
    let digits = without_plus(s);
    if digits.len() > 0 && all_digits(digits) && digits_value(digits) <= u64::MAX {
        Some(digits_value(digits) as u64)
    } else {
        None
    }
}

proof fn lemma_digits_value_grows(s: Seq<char>, i: int)
    requires
        0 <= i <= s.len(),
    ensures
        digits_value(s.take(i)) <= digits_value(s),
    decreases s.len(),
{
    if i < s.len() {
        lemma_digits_value_grows(s.drop_last(), i);
        assert(s.drop_last().take(i) == s.take(i));
    } else {
        assert(s.take(i) == s);
    }
}

/// Reads a number that `chars[from..to]` denotes.
pub fn read_unsigned(chars: &Vec<char>, from: usize, to: usize) -> (value: Option<u64>)
    requires
        from <= to <= chars@.len(),
    ensures
        value == unsigned_value(chars@.subrange(from as int, to as int)),
{
    let ghost whole = chars@.subrange(from as int, to as int);
    let ghost digits = without_plus(whole);
    let start: usize = if from < to && chars[from] == '+' {
        from + 1
    } else {
        from
    };
    assert(digits == chars@.subrange(start as int, to as int));
    if start == to {
        return None;
    }
    let mut value: u64 = 0;
    let mut i: usize = start;
    while i < to
        invariant
            start <= i <= to <= chars@.len(),
            whole == chars@.subrange(from as int, to as int),
            digits == without_plus(whole),
            digits == chars@.subrange(start as int, to as int),
            value == digits_value(digits.take(i - start)),
            forall|j: int| 0 <= j < i - start ==> is_digit(#[trigger] digits[j]),
        decreases to - i,
    {
        let c = chars[i];
        assert(digits[i - start] == c);
        if !('0' <= c && c <= '9') {
            return None;
        }
        proof {
            assert(digits.take(i + 1 - start).drop_last() == digits.take(i - start));
            lemma_digits_value_grows(digits, i + 1 - start);
        }
        let d: u64 = (c as u32 - 48) as u64;
        if value > (u64::MAX - d) / 10 {
            return None;
        }
        value = value * 10 + d;
        i = i + 1;
    }
    assert(digits.take(digits.len() as int) == digits);
    Some(value)
}

/// A decimal notation is made of digits only, and denotes its number.
pub proof fn lemma_decimal(n: nat)
    ensures
        decimal(n).len() > 0,
        all_digits(decimal(n)),
        digits_value(decimal(n)) == n,
    decreases n,
{
    if n >= 10 {
        lemma_decimal(n / 10);
        assert(decimal(n).drop_last() == decimal(n / 10));
    } else {
        assert(decimal(n).drop_last() == Seq::<char>::empty());
        assert(digits_value(Seq::<char>::empty()) == 0);
    }
}

/// Reading a decimal notation gives back the number that was written.
pub proof fn lemma_decimal_round_trip(n: u64)
    ensures
        unsigned_value(decimal(n as nat)) == Some(n),
        trimmed(decimal(n as nat)) == decimal(n as nat),
{
    lemma_decimal(n as nat);
    let s = decimal(n as nat);
    assert(is_digit(s[0]));
    assert(is_digit(s[s.len() - 1]));
}

/// Different numbers have different notations.
pub proof fn lemma_signed_decimal_injective(a: int, b: int)
    requires
        signed_decimal(a) == signed_decimal(b),
    ensures
        a == b,
{
    let ma = if a < 0 { (-a) as nat } else { a as nat };
    let mb = if b < 0 { (-b) as nat } else { b as nat };
    lemma_decimal(ma);
    lemma_decimal(mb);
    if a < 0 {
        assert(signed_decimal(a)[0] == '-');
        assert(signed_decimal(a).skip(1) == decimal(ma));
        assert(b >= 0 ==> is_digit(signed_decimal(b)[0]));
        assert(signed_decimal(b).skip(1) == decimal(mb));
    } else {
        assert(is_digit(signed_decimal(a)[0]));
        assert(b < 0 ==> signed_decimal(b)[0] == '-');
    }
}

// ─── White space ────────────────────────────────────────────────────────────

/// Whether `c` is white space: the characters that Unicode lists as `White_Space`.
pub open spec fn is_space(c: char) -> bool {
    let n = c as u32;
    ||| 0x09 <= n <= 0x0d
    ||| n == 0x20
    ||| n == 0x85
    ||| n == 0xa0
    ||| n == 0x1680
    ||| 0x2000 <= n <= 0x200a
    ||| n == 0x2028
    ||| n == 0x2029
    ||| n == 0x202f
    ||| n == 0x205f
    ||| n == 0x3000
}

/// `s` from its first character that is not white space.
pub open spec fn trimmed_start(s: Seq<char>) -> Seq<char>
    decreases s.len(),
{
    if s.len() > 0 && is_space(s[0]) {
        trimmed_start(s.skip(1))
    } else {
        s
    }
}

/// `s` up to its last character that is not white space.
pub open spec fn trimmed_end(s: Seq<char>) -> Seq<char>
    decreases s.len(),
{
    if s.len() > 0 && is_space(s.last()) {
        trimmed_end(s.drop_last())
    } else {
        s
    }
}

/// `s` without the white space around it.
pub open spec fn trimmed(s: Seq<char>) -> Seq<char> {
    trimmed_end(trimmed_start(s))
}

fn is_space_char(c: char) -> (space: bool)
    ensures
        space == is_space(c),
{
    let n: u32 = c as u32;
    (0x09 <= n && n <= 0x0d) || n == 0x20 || n == 0x85 || n == 0xa0 || n == 0x1680 || (0x2000 <= n
        && n <= 0x200a) || n == 0x2028 || n == 0x2029 || n == 0x202f || n == 0x205f || n == 0x3000
}

/// Where `chars` begins and ends once the white space around it is left out.
pub fn trim_bounds(chars: &Vec<char>) -> (bounds: (usize, usize))
    ensures
        bounds.0 <= bounds.1 <= chars@.len(),
        chars@.subrange(bounds.0 as int, bounds.1 as int) == trimmed(chars@),
{
    let mut from: usize = 0;
    assert(chars@.skip(0) == chars@);
    while from < chars.len() && is_space_char(chars[from])
        invariant
            from <= chars@.len(),
            trimmed_start(chars@) == trimmed_start(chars@.skip(from as int)),
        decreases chars@.len() - from,
    {
        assert(chars@.skip(from as int).skip(1) == chars@.skip(from + 1));
        from = from + 1;
    }
    let ghost rest = chars@.skip(from as int);
    let mut to: usize = chars.len();
    assert(chars@.subrange(from as int, to as int) == rest);
    while from < to && is_space_char(chars[to - 1])
        invariant
            from <= to <= chars@.len(),
            trimmed_end(rest) == trimmed_end(chars@.subrange(from as int, to as int)),
        decreases to - from,
    {
        assert(chars@.subrange(from as int, to as int).drop_last() == chars@.subrange(
            from as int,
            to - 1,
        ));
        to = to - 1;
    }
    (from, to)
}

// ─── Laws ───────────────────────────────────────────────────────────────────

/// A missing text is the empty one, and any other is itself.
pub proof fn law_missing_is_empty(text: Seq<char>)
    ensures
        or_empty(Some(text)) == text,
        or_empty(None).len() == 0,
{
}

/// To join nothing gives nothing, to join one text gives that text, and to join two lists
/// gives what each gives, with the separator once between them.
pub proof fn law_joining(
    a: Seq<Seq<char>>,
    b: Seq<Seq<char>>,
    only: Seq<char>,
    sep: Seq<char>,
)
    ensures
        joined(Seq::empty(), sep).len() == 0,
        joined(seq![only], sep) == only,
        a.len() > 0 && b.len() > 0 ==> joined(a + b, sep) == joined(a, sep) + sep + joined(b, sep),
    decreases b.len(),
{
    if a.len() > 0 && b.len() > 0 {
        assert((a + b).drop_last() == a + b.drop_last());
        assert((a + b).last() == b.last());
        if b.len() == 1 {
            assert(a + b.drop_last() == a);
            assert(joined(a, sep) + (sep + b.last()) == joined(a, sep) + sep + joined(b, sep));
        } else {
            law_joining(a, b.drop_last(), only, sep);
            assert(joined(a, sep) + sep + joined(b.drop_last(), sep) + (sep + b.last()) == joined(
                a,
                sep,
            ) + sep + (joined(b.drop_last(), sep) + (sep + b.last())));
        }
    }
}

/// A character that the separator does not hold is in a joined text just where it is in one
/// of the parts.
pub proof fn law_joined_characters(parts: Seq<Seq<char>>, sep: Seq<char>, c: char)
    requires
        !sep.contains(c),
    ensures
        joined(parts, sep).contains(c) <==> exists|i: int|
            0 <= i < parts.len() && (#[trigger] parts[i]).contains(c),
    decreases parts.len(),
{
    if parts.len() > 1 {
        let before = parts.drop_last();
        let head = joined(before, sep);
        let whole = joined(parts, sep);
        law_joined_characters(before, sep, c);
        assert(whole == head + (sep + parts.last()));
        if whole.contains(c) {
            let k = choose|k: int| 0 <= k < whole.len() && whole[k] == c;
            if k < head.len() {
                assert(head[k] == c);
                let i = choose|i: int| 0 <= i < before.len() && (#[trigger] before[i]).contains(c);
                assert(parts[i] == before[i]);
            } else if k < head.len() + sep.len() {
                assert(sep[k - head.len()] == c);
            } else {
                assert(parts.last()[k - head.len() - sep.len()] == c);
                assert(parts[parts.len() - 1].contains(c));
            }
        }
        if exists|i: int| 0 <= i < parts.len() && (#[trigger] parts[i]).contains(c) {
            let i = choose|i: int| 0 <= i < parts.len() && (#[trigger] parts[i]).contains(c);
            if i < before.len() {
                assert(before[i].contains(c));
                let k = choose|k: int| 0 <= k < head.len() && head[k] == c;
                assert(whole[k] == c);
            } else {
                let last = parts.last();
                let k = choose|k: int| 0 <= k < last.len() && last[k] == c;
                assert(whole[head.len() + sep.len() + k] == c);
            }
        }
    } else if parts.len() == 1 {
        assert(joined(parts, sep) == parts[0]);
    }
}

/// Decimal notation has the last digit last: that of `10 * n + d` is that of `n`, then the
/// digit of `d`, and a number below ten is its digit alone.
pub proof fn law_decimal_notation(n: nat, d: nat)
    requires
        d < 10,
    ensures
        decimal(d) == seq![('0' as int + d) as char],
        n > 0 ==> decimal(10 * n + d) == decimal(n).push(('0' as int + d) as char),
{
    if n > 0 {
        assert((10 * n + d) / 10 == n);
        assert((10 * n + d) % 10 == d);
    }
}

/// Octal notation has the last digit last: that of `8 * n + d` is that of `n`, then the
/// digit of `d`, and a number below eight is its digit alone.
pub proof fn law_octal_notation(n: nat, d: nat)
    requires
        d < 8,
    ensures
        octal(d) == seq![('0' as int + d) as char],
        n > 0 ==> octal(8 * n + d) == octal(n).push(('0' as int + d) as char),
{
    if n > 0 {
        assert((8 * n + d) / 8 == n);
        assert((8 * n + d) % 8 == d);
    }
}

/// A negative number is written as a minus sign and its magnitude, any other as it is.
pub proof fn law_signed_notation(n: nat)
    ensures
        signed_decimal(n as int) == decimal(n),
        n > 0 ==> signed_decimal(-n) == seq!['-'] + decimal(n),
{
}

/// A digit behind others counts for itself, and the others for ten times as much.
pub proof fn law_place_value(s: Seq<char>, c: char)
    requires
        '0' <= c <= '9',
    ensures
        digits_value(Seq::empty()) == 0,
        digits_value(s.push(c)) == 10 * digits_value(s) + (c as int - '0' as int),
{
    assert(s.push(c).drop_last() == s);
}

/// One or more digits denote the number that is their value, behind a plus sign or not, and
/// none where it does not fit.
pub proof fn law_numbers_are_read(digits: Seq<char>)
    requires
        digits.len() > 0,
        forall|i: int| 0 <= i < digits.len() ==> '0' <= (#[trigger] digits[i]) <= '9',
    ensures
        digits_value(digits) <= u64::MAX ==> unsigned_value(digits) == Some(
            digits_value(digits) as u64,
        ),
        digits_value(digits) > u64::MAX ==> unsigned_value(digits) is None,
        unsigned_value(seq!['+'] + digits) == unsigned_value(digits),
{
    assert(digits[0] != '+');
    assert((seq!['+'] + digits).skip(1) == digits);
    assert forall|i: int| 0 <= i < digits.len() implies is_digit(#[trigger] digits[i]) by {}
}

/// Nothing but digits, behind a plus sign or not, denotes a number.
pub proof fn law_only_digits_are_numbers(s: Seq<char>)
    requires
        unsigned_value(s) is Some,
    ensures
        s.len() > 0,
        s[0] == '+' ==> s.len() > 1,
        '0' <= s[0] <= '9' || s[0] == '+',
        forall|i: int| 0 < i < s.len() ==> '0' <= (#[trigger] s[i]) <= '9',
{
    let digits = without_plus(s);
    if s.len() > 0 && s[0] == '+' {
        assert forall|i: int| 0 < i < s.len() implies '0' <= (#[trigger] s[i]) <= '9' by {
            assert(is_digit(digits[i - 1]));
        }
    } else {
        assert(is_digit(digits[0]));
        assert forall|i: int| 0 < i < s.len() implies '0' <= (#[trigger] s[i]) <= '9' by {
            assert(is_digit(digits[i]));
        }
    }
}

/// White space is what Unicode says it is: these characters, and no others.
pub proof fn law_white_space(c: char)
    ensures
        is_space(c) <==> set![
            0x9int, 0xa, 0xb, 0xc, 0xd, 0x20, 0x85, 0xa0, 0x1680, 0x2000, 0x2001, 0x2002, 0x2003,
            0x2004, 0x2005, 0x2006, 0x2007, 0x2008, 0x2009, 0x200a, 0x2028, 0x2029, 0x202f, 0x205f,
            0x3000,
        ].contains(c as int),
{
}

/// To trim takes off the white space around a text, all of it and nothing else.
pub proof fn law_trimming(before: Seq<char>, text: Seq<char>, after: Seq<char>)
    requires
        forall|i: int| 0 <= i < before.len() ==> is_space(#[trigger] before[i]),
        forall|i: int| 0 <= i < after.len() ==> is_space(#[trigger] after[i]),
        text.len() > 0 ==> !is_space(text[0]) && !is_space(text.last()),
    ensures
        trimmed(before + text + after) == text,
    decreases before.len() + after.len(),
{
    let whole = before + text + after;
    if before.len() > 0 {
        let rest = before.skip(1);
        assert(whole[0] == before[0]);
        assert(whole.skip(1) == rest + text + after);
        assert forall|i: int| 0 <= i < rest.len() implies is_space(#[trigger] rest[i]) by {
            assert(rest[i] == before[i + 1]);
        }
        law_trimming(rest, text, after);
    } else if text.len() == 0 {
        assert(whole == after);
        if after.len() > 0 {
            let rest = after.skip(1);
            assert forall|i: int| 0 <= i < rest.len() implies is_space(#[trigger] rest[i]) by {
                assert(rest[i] == after[i + 1]);
            }
            law_trimming(before, text, rest);
            assert(before + text + rest == rest);
        }
    } else {
        assert(whole == text + after);
        assert(whole[0] == text[0]);
        lemma_trimmed_end(text, after);
    }
}

proof fn lemma_trimmed_end(text: Seq<char>, after: Seq<char>)
    requires
        text.len() > 0,
        !is_space(text.last()),
        forall|i: int| 0 <= i < after.len() ==> is_space(#[trigger] after[i]),
    ensures
        trimmed_end(text + after) == text,
    decreases after.len(),
{
    if after.len() > 0 {
        let rest = after.drop_last();
        assert((text + after).drop_last() == text + rest);
        assert((text + after).last() == after[after.len() - 1]);
        assert forall|i: int| 0 <= i < rest.len() implies is_space(#[trigger] rest[i]) by {
            assert(rest[i] == after[i]);
        }
        lemma_trimmed_end(text, rest);
    } else {
        assert(text + after == text);
    }
}

/// The texts of a list are those of its strings, all of them and in their order.
pub proof fn law_texts(list: Seq<String>, i: int)
    ensures
        texts(list).len() == list.len(),
        0 <= i < list.len() ==> texts(list)[i] == list[i]@,
{
}

} // verus!
