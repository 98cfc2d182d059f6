//! Text primitives: trimming, ASCII case, decimal rendering and parsing,
//! line splitting and substring search, all stated over `Seq<char>`.

use vstd::prelude::*;

verus! {

/// `String::push` appends one character.
pub assume_specification[ String::push ](s: &mut String, c: char)
    ensures
        final(s)@ == old(s)@.push(c),
;

// ---------------------------------------------------------------------------
// Models
// ---------------------------------------------------------------------------

/// The characters with the Unicode `White_Space` property.
pub open spec fn white_space(c: char) -> bool {
    let u = c as u32;
    ||| 0x09 <= u <= 0x0d
    ||| u == 0x20
    ||| u == 0x85
    ||| u == 0xa0
    ||| u == 0x1680
    ||| 0x2000 <= u <= 0x200a
    ||| u == 0x2028
    ||| u == 0x2029
    ||| u == 0x202f
    ||| u == 0x205f
    ||| u == 0x3000
}

/// `s` without its leading white space.
pub open spec fn trimmed_start(s: Seq<char>) -> Seq<char>
    decreases s.len(),
{
    if s.len() > 0 && white_space(s[0]) {
        trimmed_start(s.drop_first())
    } else {
        s
    }
}

/// `s` without its trailing white space.
pub open spec fn trimmed_end(s: Seq<char>) -> Seq<char>
    decreases s.len(),
{
    if s.len() > 0 && white_space(s.last()) {
        trimmed_end(s.drop_last())
    } else {
        s
    }
}

/// `s` without its leading and trailing white space.
pub open spec fn trimmed(s: Seq<char>) -> Seq<char> {
    trimmed_end(trimmed_start(s))
}

/// The lower case form of an ASCII letter; every other character is kept.
pub open spec fn lower_char(c: char) -> char {
    if 'A' <= c && c <= 'Z' {
        ((c as u32 + 32) as u32) as char
    } else {
        c
    }
}

/// `s` with its ASCII letters in lower case.
pub open spec fn lowered(s: Seq<char>) -> Seq<char> {
    Seq::new(s.len(), |i: int| lower_char(s[i]))
}

/// The decimal digit `d`, for `d < 10`.
pub open spec fn digit(d: nat) -> char {
    ((48 + d) as u32) as char
}

/// The decimal representation of `n`, without leading zeros.
pub open spec fn decimal_text(n: nat) -> Seq<char>
    decreases n,
{
    if n < 10 {
        seq![digit(n)]
    } else {
        decimal_text(n / 10).push(digit(n % 10))
    }
}

/// `count` zeros.
pub open spec fn zeros(count: nat) -> Seq<char> {
    Seq::new(count, |i: int| '0')
}

/// The decimal representation of `n`, zero-padded on the left to `width`.
pub open spec fn padded_text(n: nat, width: nat) -> Seq<char> {
    let digits = decimal_text(n);
    if digits.len() >= width {
        digits
    } else {
        zeros((width - digits.len()) as nat) + digits
    }
}

/// Whether every character of `s` is a decimal digit.
pub open spec fn all_digits(s: Seq<char>) -> bool {
    forall|i: int| 0 <= i < s.len() ==> '0' <= #[trigger] s[i] && s[i] <= '9'
}

/// The number that a string of decimal digits denotes.
pub open spec fn digits_value(s: Seq<char>) -> nat
    decreases s.len(),
{
    if s.len() == 0 {
        0
    } else {
        digits_value(s.drop_last()) * 10 + (s.last() as u32 - 48) as nat
    }
}

/// What `s` denotes as an unsigned number that fits 32 bits: an optional `+`
/// and then one or more decimal digits.
pub open spec fn unsigned_value(s: Seq<char>) -> Option<u32> {
    let digits = if s.len() > 0 && s[0] == '+' {
        s.drop_first()
    } else {
        s
    };
    if digits.len() > 0 && all_digits(digits) && digits_value(digits) <= u32::MAX {
        Some(digits_value(digits) as u32)
    } else {
        None
    }
}

/// Whether `needle` stands in `s` at position `at`.
pub open spec fn occurs_at(s: Seq<char>, needle: Seq<char>, at: int) -> bool {
    0 <= at && at + needle.len() <= s.len() && s.subrange(at, at + needle.len()) == needle
}

/// Whether `needle` stands somewhere in `s`.
pub open spec fn has_text(s: Seq<char>, needle: Seq<char>) -> bool {
    exists|at: int| occurs_at(s, needle, at)
}

/// Whether `s` begins with `prefix`.
pub open spec fn begins_with(s: Seq<char>, prefix: Seq<char>) -> bool {
    occurs_at(s, prefix, 0)
}

/// The position of the first line feed in `s` at or after `from`, or the
/// length of `s` when there is none.
pub open spec fn line_end(s: Seq<char>, from: int) -> int
    decreases s.len() - from,
{
    if from < 0 || from >= s.len() {
        s.len() as int
    } else if s[from] == '\n' {
        from
    } else {
        line_end(s, from + 1)
    }
}

/// A line that a line feed ends, without a carriage return before it.
pub open spec fn without_cr(s: Seq<char>) -> Seq<char> {
    if s.len() > 0 && s.last() == '\r' {
        s.drop_last()
    } else {
        s
    }
}

/// The lines of `s` from position `from` on. A line ends at a line feed or at
/// the end of the text, and a final line feed opens no further line.
pub open spec fn lines_from(s: Seq<char>, from: int) -> Seq<Seq<char>>
    decreases s.len() - from,
    when 0 <= from
{
    if from >= s.len() {
        Seq::empty()
    } else {
        let end = line_end(s, from);
        if from <= end < s.len() {
            seq![without_cr(s.subrange(from, end))] + lines_from(s, end + 1)
        } else {
            seq![s.subrange(from, s.len() as int)]
        }
    }
}

/// The lines of `s`.
pub open spec fn lines_of(s: Seq<char>) -> Seq<Seq<char>> {
    lines_from(s, 0)
}

// ---------------------------------------------------------------------------
// Facts about the models
// ---------------------------------------------------------------------------

/// Leading white space can be skipped up to the first other character.
proof fn lemma_trimmed_start_skip(s: Seq<char>, k: int)
    requires
        0 <= k <= s.len(),
        forall|i: int| 0 <= i < k ==> white_space(#[trigger] s[i]),
    ensures
        trimmed_start(s) == trimmed_start(s.skip(k)),
    decreases k,
{
    if k == 0 {
        assert(s.skip(0) == s);
    } else {
        assert(white_space(s[0]));
        assert forall|i: int| 0 <= i < k - 1 implies white_space(#[trigger] s.drop_first()[i]) by {
            assert(s.drop_first()[i] == s[i + 1]);
        }
        lemma_trimmed_start_skip(s.drop_first(), k - 1);
        assert(s.drop_first().skip(k - 1) == s.skip(k));
    }
}

/// Trailing white space can be cut back to the last other character.
proof fn lemma_trimmed_end_take(s: Seq<char>, k: int)
    requires
        0 <= k <= s.len(),
        forall|i: int| k <= i < s.len() ==> white_space(#[trigger] s[i]),
    ensures
        trimmed_end(s) == trimmed_end(s.take(k)),
    decreases s.len() - k,
{
    if k == s.len() {
        assert(s.take(k) == s);
    } else {
        assert(white_space(s.last()));
        lemma_trimmed_end_take(s.drop_last(), k);
        assert(s.drop_last().take(k) == s.take(k));
    }
}

/// The decimal representation of a number is a string of digits that denotes
/// the number again.
pub proof fn law_decimal_round_trip(n: nat)
    ensures
        decimal_text(n).len() > 0,
        all_digits(decimal_text(n)),
        digits_value(decimal_text(n)) == n,
    decreases n,
{
    if n >= 10 {
        law_decimal_round_trip(n / 10);
        let head = decimal_text(n / 10);
        assert(decimal_text(n).drop_last() == head);
        assert forall|i: int| 0 <= i < decimal_text(n).len() implies '0' <= #[trigger] decimal_text(
            n,
        )[i] && decimal_text(n)[i] <= '9' by {
            if i < head.len() {
                assert(head[i] == decimal_text(n)[i]);
            }
        }
    } else {
        assert(decimal_text(n).drop_last() == Seq::<char>::empty());
        assert(digits_value(Seq::<char>::empty()) == 0);
    }
}

/// A number below 100, or below 10000, is padded to two, or four, digits.
pub proof fn lemma_padded_len(n: nat, width: nat)
    requires
        width == 2 && n < 100 || width == 4 && n < 10_000,
    ensures
        padded_text(n, width).len() == width,
{
    reveal_with_fuel(decimal_text, 5);
}

/// Dropping digits on the right never enlarges what a string of digits denotes.
proof fn lemma_digits_value_take(s: Seq<char>, k: int)
    requires
        0 <= k <= s.len(),
    ensures
        digits_value(s.take(k)) <= digits_value(s),
    decreases s.len(),
{
    if k == s.len() {
        assert(s.take(k) == s);
    } else {
        lemma_digits_value_take(s.drop_last(), k);
        assert(s.drop_last().take(k) == s.take(k));
    }
}

/// The first line feed found is where `line_end` points.
proof fn lemma_line_end_is(s: Seq<char>, from: int, end: int)
    requires
        0 <= from <= end <= s.len(),
        forall|i: int| from <= i < end ==> #[trigger] s[i] != '\n',
        end < s.len() ==> s[end] == '\n',
    ensures
        line_end(s, from) == end,
    decreases end - from,
{
    if from < end {
        lemma_line_end_is(s, from + 1, end);
    }
}

// ---------------------------------------------------------------------------
// Operations
// ---------------------------------------------------------------------------

/// Whether `c` has the Unicode `White_Space` property.
pub fn is_white_space(c: char) -> (r: bool)
    ensures
        r == white_space(c),
{
    let u = c as u32;
    (0x09 <= u && u <= 0x0d) || u == 0x20 || u == 0x85 || u == 0xa0 || u == 0x1680 || (0x2000 <= u
        && u <= 0x200a) || u == 0x2028 || u == 0x2029 || u == 0x202f || u == 0x205f || u == 0x3000
}

/// The characters of `s`.
pub fn chars_of(s: &str) -> (r: Vec<char>)
    ensures
        r@ == s@,
{
    let mut out: Vec<char> = Vec::new();
    for c in it: s.chars()
        invariant
            out@ == it.seq().take(it.index()),
            it.seq() == s@,
    {
        out.push(c);
    }
    assert(s@.take(s@.len() as int) == s@);
    out
}

/// The text made of `chars[from..to]`.
pub fn text_of(chars: &Vec<char>, from: usize, to: usize) -> (r: String)
    requires
        from <= to <= chars@.len(),
    ensures
        r@ == chars@.subrange(from as int, to as int),
{
    let mut out = String::new();
    let mut i: usize = from;
    while i < to
        invariant
            from <= i <= to <= chars@.len(),
            out@ == chars@.subrange(from as int, i as int),
        decreases to - i,
    {
        out.push(chars[i]);
        i = i + 1;
    }
    out
}

/// Removes leading and trailing white space.
pub fn trim(s: &str) -> (r: String)
    ensures
        r@ == trimmed(s@),
{
    let chars = chars_of(s);
    let n = chars.len();
    let mut from: usize = 0;
    while from < n && is_white_space(chars[from])
        invariant
            0 <= from <= n == chars@.len(),
            forall|i: int| 0 <= i < from ==> white_space(#[trigger] chars@[i]),
        ensures
            0 <= from <= n,
            forall|i: int| 0 <= i < from ==> white_space(#[trigger] chars@[i]),
            from < n ==> !white_space(chars@[from as int]),
        decreases n - from,
    {
        from = from + 1;
    }
    let mut to: usize = n;
    while to > from && is_white_space(chars[to - 1])
        invariant
            from <= to <= n == chars@.len(),
            forall|i: int| to <= i < n ==> white_space(#[trigger] chars@[i]),
        ensures
            from <= to <= n,
            forall|i: int| to <= i < n ==> white_space(#[trigger] chars@[i]),
            to > from ==> !white_space(chars@[to - 1]),
        decreases to,
    {
        to = to - 1;
    }
    proof {
        let all = chars@;
        lemma_trimmed_start_skip(all, from as int);
        let rest = all.skip(from as int);
        assert(trimmed_start(all) == rest);
        assert forall|i: int| to - from <= i < rest.len() implies white_space(
            #[trigger] rest[i],
        ) by {
            assert(rest[i] == all[i + from]);
        }
        lemma_trimmed_end_take(rest, to - from);
        let kept = rest.take(to - from);
        assert(kept == all.subrange(from as int, to as int));
        assert(trimmed_end(kept) == kept);
    }
    text_of(&chars, from, to)
}

/// Replaces ASCII upper case letters by their lower case forms.
pub fn to_lower(s: &str) -> (r: String)
    ensures
        r@ == lowered(s@),
{
    let mut out = String::new();
    for c in it: s.chars()
        invariant
            it.seq() == s@,
            out@.len() == it.index(),
            forall|i: int| 0 <= i < out@.len() ==> out@[i] == lower_char(#[trigger] s@[i]),
    {
        let low = if 'A' <= c && c <= 'Z' {
            (c as u8 + 32) as char
        } else {
            c
        };
        out.push(low);
    }
    assert(out@ == lowered(s@));
    out
}

/// Renders `n` in decimal.
pub fn decimal(n: u128) -> (r: String)
    ensures
        r@ == decimal_text(n as nat),
    decreases n,
{
    let last: u8 = (n % 10) as u8;
    let c = (48 + last) as char;
    let mut out = if n < 10 {
        String::new()
    } else {
        decimal(n / 10)
    };
    out.push(c);
    proof {
        if n < 10 {
            assert(out@ == decimal_text(n as nat));
        }
    }
    out
}

/// Renders `n` in decimal with at least `width` digits.
pub fn padded(n: u128, width: usize) -> (r: String)
    ensures
        r@ == padded_text(n as nat, width as nat),
{
    let digits = decimal(n);
    let have = digits.as_str().unicode_len();
    if have >= width {
        return digits;
    }
    let mut out = String::new();
    let mut i: usize = 0;
    while i < width - have
        invariant
            have < width,
            i <= width - have,
            out@ == zeros(i as nat),
        decreases width - have - i,
    {
        out.push('0');
        i = i + 1;
        assert(out@ == zeros(i as nat));
    }
    out.append(digits.as_str());
    out
}

/// Reads an unsigned 32-bit number: an optional `+`, then decimal digits.
pub fn parse_u32(s: &str) -> (r: Option<u32>)
    ensures
        r == unsigned_value(s@),
{
    let chars = chars_of(s);
    let start: usize = if chars.len() > 0 && chars[0] == '+' {
        1
    } else {
        0
    };
    let ghost digits = chars@.skip(start as int);
    proof {
        if start == 1 {
            assert(digits == s@.drop_first());
        } else {
            assert(digits == s@);
        }
    }
    if start == chars.len() {
        return None;
    }
    let mut value: u64 = 0;
    let mut i: usize = start;
    while i < chars.len()
        invariant
            start <= i <= chars@.len(),
            start <= 1,
            digits == chars@.skip(start as int),
            value == digits_value(digits.take(i - start)),
            value <= u32::MAX,
            all_digits(digits.take(i - start)),
            unsigned_value(s@) == (if digits.len() > 0 && all_digits(digits) && digits_value(digits)
                <= u32::MAX {
                Some(digits_value(digits) as u32)
            } else {
                None
            }),
        decreases chars@.len() - i,
    {
        let c = chars[i];
        let ghost k = i - start;
        assert(digits[k] == c);
        if c < '0' || c > '9' {
            assert(!all_digits(digits));
            return None;
        }
        proof {
            assert(digits.take(k + 1).drop_last() == digits.take(k));
            assert(digits.take(k + 1).last() == c);
            assert forall|j: int| 0 <= j < k + 1 implies '0' <= #[trigger] digits.take(k + 1)[j]
                && digits.take(k + 1)[j] <= '9' by {
                if j < k {
                    assert(digits.take(k)[j] == digits.take(k + 1)[j]);
                }
            }
        }
        value = value * 10 + (c as u32 - 48) as u64;
        if value > u32::MAX as u64 {
            proof {
                lemma_digits_value_take(digits, k + 1);
            }
            return None;
        }
        i = i + 1;
    }
    assert(digits.take(digits.len() as int) == digits);
    Some(value as u32)
}

/// Whether `needle` stands in `chars` at `at`.
fn stands_at(chars: &Vec<char>, needle: &Vec<char>, at: usize) -> (r: bool)
    ensures
        r == occurs_at(chars@, needle@, at as int),
{
    if needle.len() > chars.len() || at > chars.len() - needle.len() {
        return false;
    }
    let mut i: usize = 0;
    while i < needle.len()
        invariant
            i <= needle@.len(),
            at + needle@.len() <= chars.len(),
            forall|j: int| 0 <= j < i ==> chars@[at + j] == #[trigger] needle@[j],
        decreases needle@.len() - i,
    {
        if chars[at + i] != needle[i] {
            assert(chars@.subrange(at as int, at + needle@.len())[i as int] != needle@[i as int]);
            return false;
        }
        i = i + 1;
    }
    assert(chars@.subrange(at as int, at + needle@.len()) == needle@);
    true
}

/// Whether `needle` stands somewhere in `s`.
pub fn contains(s: &str, needle: &str) -> (r: bool)
    ensures
        r == has_text(s@, needle@),
{
    let chars = chars_of(s);
    let want = chars_of(needle);
    let mut at: usize = 0;
    while at <= chars.len()
        invariant
            at <= chars@.len() + 1,
            chars@ == s@,
            want@ == needle@,
            forall|k: int| 0 <= k < at ==> !occurs_at(s@, needle@, k),
        decreases chars@.len() + 1 - at,
    {
        if stands_at(&chars, &want, at) {
            return true;
        }
        if at == chars.len() {
            assert forall|k: int| !occurs_at(s@, needle@, k) by {}
            return false;
        }
        at = at + 1;
    }
    false
}

/// Whether `s` begins with `prefix`.
pub fn starts_with(s: &str, prefix: &str) -> (r: bool)
    ensures
        r == begins_with(s@, prefix@),
{
    let chars = chars_of(s);
    let want = chars_of(prefix);
    stands_at(&chars, &want, 0)
}

/// The views of a list of texts.
pub open spec fn views(list: Seq<String>) -> Seq<Seq<char>> {
    Seq::new(list.len(), |i: int| list[i]@)
}

/// The view of a text that may be missing.
pub open spec fn optional_view(value: Option<String>) -> Option<Seq<char>> {
    match value {
        Some(text) => Some(text@),
        None => None,
    }
}

/// A copy of a text that may be missing.
pub fn copy_optional(value: &Option<String>) -> (r: Option<String>)
    ensures
        optional_view(r) == optional_view(*value),
{
    match value {
        Some(text) => Some(text.clone()),
        None => None,
    }
}

/// Splits `s` into its lines.
pub fn lines(s: &str) -> (r: Vec<String>)
    ensures
        views(r@) == lines_of(s@),
{
    let chars = chars_of(s);
    let n = chars.len();
    let mut out: Vec<String> = Vec::new();
    let mut from: usize = 0;
    assert(views(out@) + lines_from(s@, 0) == lines_of(s@));
    while from < n
        invariant
            from <= n == chars@.len(),
            chars@ == s@,
            views(out@) + lines_from(s@, from as int) == lines_of(s@),
        decreases n - from,
    {
        let mut end: usize = from;
        while end < n && chars[end] != '\n'
            invariant
                from <= end <= n == chars@.len(),
                chars@ == s@,
                forall|i: int| from <= i < end ==> #[trigger] s@[i] != '\n',
            ensures
                from <= end <= n,
                forall|i: int| from <= i < end ==> #[trigger] s@[i] != '\n',
                end < n ==> s@[end as int] == '\n',
            decreases n - end,
        {
            end = end + 1;
        }
        proof {
            lemma_line_end_is(s@, from as int, end as int);
        }
        let stop: usize = if end < n && end > from && chars[end - 1] == '\r' {
            end - 1
        } else {
            end
        };
        let line = text_of(&chars, from, stop);
        let ghost before = out@;
        out.push(line);
        proof {
            let whole = s@.subrange(from as int, end as int);
            if end < n {
                if stop < end {
                    assert(whole.last() == '\r');
                    assert(whole.drop_last() == line@);
                } else {
                    assert(whole.len() > 0 ==> whole.last() == s@[end - 1]);
                    assert(whole == line@);
                }
                assert(line@ == without_cr(whole));
            }
            assert(views(out@) == views(before).push(line@));
            let next = if end < n {
                end + 1
            } else {
                n as int
            };
            assert(lines_from(s@, from as int) == seq![line@] + lines_from(s@, next));
            assert(views(before) + (seq![line@] + lines_from(s@, next)) == views(before).push(
                line@,
            ) + lines_from(s@, next));
        }
        from = if end < n {
            end + 1
        } else {
            n
        };
    }
    assert(views(out@) + lines_from(s@, n as int) == views(out@));
    out
}

// ---------------------------------------------------------------------------
// Laws
// ---------------------------------------------------------------------------

/// The white space characters, one by one.
pub proof fn law_white_space_characters(c: char)
    ensures
        white_space(c) <==> {
            ||| c == '\t' || c == '\n' || c == '\u{b}' || c == '\u{c}' || c == '\r' || c == ' '
            ||| c == '\u{85}' || c == '\u{a0}' || c == '\u{1680}'
            ||| '\u{2000}' <= c && c <= '\u{200a}'
            ||| c == '\u{2028}' || c == '\u{2029}' || c == '\u{202f}' || c == '\u{205f}'
            ||| c == '\u{3000}'
        },
{
}

/// What trimming keeps is one stretch of the text: all that stands before and
/// behind it is white space, and it neither begins nor ends with white space.
/// Returns where the stretch begins and ends.
pub proof fn law_trimming_cuts_white_space_off_the_ends(s: Seq<char>) -> (r: (int, int))
    ensures
        0 <= r.0 <= r.1 <= s.len(),
        trimmed(s) == s.subrange(r.0, r.1),
        forall|i: int| 0 <= i < r.0 || r.1 <= i < s.len() ==> white_space(#[trigger] s[i]),
        r.0 < r.1 ==> !white_space(s[r.0]) && !white_space(s[r.1 - 1]),
{
    let from = lemma_start_of_trimmed(s);
    let rest = s.skip(from);
    let to = lemma_end_of_trimmed(rest);
    assert(rest.take(to) == s.subrange(from, from + to));
    assert forall|i: int| 0 <= i < from || from + to <= i < s.len() implies white_space(
        #[trigger] s[i],
    ) by {
        if i >= from {
            assert(rest[i - from] == s[i]);
        }
    }
    if to > 0 {
        assert(rest[0] == s[from]);
        assert(rest[to - 1] == s[from + to - 1]);
    }
    (from, from + to)
}

/// How much white space a text begins with.
proof fn lemma_start_of_trimmed(s: Seq<char>) -> (from: int)
    ensures
        0 <= from <= s.len(),
        trimmed_start(s) == s.skip(from),
        forall|i: int| 0 <= i < from ==> white_space(#[trigger] s[i]),
        from < s.len() ==> !white_space(s[from]),
    decreases s.len(),
{
    if s.len() > 0 && white_space(s[0]) {
        let rest = s.drop_first();
        let from = lemma_start_of_trimmed(rest);
        assert(rest.skip(from) == s.skip(from + 1));
        assert forall|i: int| 0 <= i < from + 1 implies white_space(#[trigger] s[i]) by {
            if i > 0 {
                assert(rest[i - 1] == s[i]);
            }
        }
        from + 1
    } else {
        assert(s.skip(0) == s);
        0
    }
}

/// Where the white space that a text ends with begins.
proof fn lemma_end_of_trimmed(s: Seq<char>) -> (to: int)
    ensures
        0 <= to <= s.len(),
        trimmed_end(s) == s.take(to),
        forall|i: int| to <= i < s.len() ==> white_space(#[trigger] s[i]),
        to > 0 ==> !white_space(s[to - 1]),
    decreases s.len(),
{
    if s.len() > 0 && white_space(s.last()) {
        let rest = s.drop_last();
        let to = lemma_end_of_trimmed(rest);
        assert(rest.take(to) == s.take(to));
        assert forall|i: int| to <= i < s.len() implies white_space(#[trigger] s[i]) by {
            if i < rest.len() {
                assert(rest[i] == s[i]);
            }
        }
        to
    } else {
        assert(s.take(s.len() as int) == s);
        s.len() as int
    }
}

/// White space around a text makes no difference to what is left of it.
pub proof fn law_trimming_ignores_surrounding_white_space(
    before: Seq<char>,
    s: Seq<char>,
    after: Seq<char>,
)
    requires
        forall|i: int| 0 <= i < before.len() ==> white_space(#[trigger] before[i]),
        forall|i: int| 0 <= i < after.len() ==> white_space(#[trigger] after[i]),
        s.len() > 0 ==> !white_space(s[0]) && !white_space(s.last()),
    ensures
        trimmed(before + s + after) == s,
{
    let whole = before + s + after;
    let (from, to) = law_trimming_cuts_white_space_off_the_ends(whole);
    let (n, m) = (before.len() as int, s.len() as int);
    if m == 0 {
        if from < to {
            assert(whole[from] == if from < n {
                before[from]
            } else {
                after[from - n]
            });
        }
        assert(trimmed(whole) == s);
    } else {
        assert(whole[n] == s[0] && whole[n + m - 1] == s.last());
        assert(from <= n && n + m <= to);
        assert(from == n) by {
            if from < n {
                assert(whole[from] == before[from]);
            }
        }
        assert(to == n + m) by {
            if to > n + m {
                assert(whole[to - 1] == after[to - 1 - n - m]);
            }
        }
        assert(whole.subrange(n, n + m) == s);
    }
}

/// Lower case changes the letters `A` to `Z`, each into its own small letter,
/// and nothing else.
pub proof fn law_lower_case_letters(s: Seq<char>, i: int)
    requires
        0 <= i < s.len(),
    ensures
        lowered(s).len() == s.len(),
        'A' <= s[i] && s[i] <= 'Z' ==> {
            let k = s[i] as u32 - 'A' as u32;
            &&& 0 <= k < 26
            &&& lowered(s)[i] == "abcdefghijklmnopqrstuvwxyz"@[k as int]
        },
        !('A' <= s[i] && s[i] <= 'Z') ==> lowered(s)[i] == s[i],
{
    reveal_strlit("abcdefghijklmnopqrstuvwxyz");
}

/// Decimal numbers are written digit by digit, the last digit last and without
/// leading zeros.
pub proof fn law_decimal_digits(n: nat, d: nat)
    requires
        d < 10,
    ensures
        decimal_text(d) == seq!["0123456789"@[d as int]],
        n > 0 ==> decimal_text(10 * n + d) == decimal_text(n).push("0123456789"@[d as int]),
        n > 0 ==> decimal_text(n)[0] != '0',
    decreases n,
{
    reveal_strlit("0123456789");
    assert((10 * n + d) / 10 == n && (10 * n + d) % 10 == d);
    if n >= 10 {
        law_decimal_digits(n / 10, n % 10);
        assert(decimal_text(n / 10).len() > 0) by {
            law_decimal_round_trip(n / 10);
        }
    }
}

/// Different numbers are written differently.
pub proof fn law_decimal_tells_numbers_apart(n: nat, m: nat)
    requires
        decimal_text(n) == decimal_text(m),
    ensures
        n == m,
{
    law_decimal_round_trip(n);
    law_decimal_round_trip(m);
}

/// Padding puts zeros in front of a number, as many as are missing.
pub proof fn law_padding_is_zeros_in_front(n: nat, width: nat)
    ensures
        ({
            let digits = decimal_text(n);
            let all = padded_text(n, width);
            let missing = all.len() - digits.len();
            &&& missing >= 0
            &&& all.len() == if digits.len() < width {
                width
            } else {
                digits.len()
            }
            &&& all.skip(missing) == digits
            &&& forall|i: int| 0 <= i < missing ==> #[trigger] all[i] == '0'
        }),
{
    let digits = decimal_text(n);
    let all = padded_text(n, width);
    assert(all.skip(all.len() - digits.len()) == digits);
}

/// Reading a number: there is at least one digit, each digit counts ten times
/// what stands behind it, and there is no number where there is anything but
/// digits, or more than 32 bits can hold. A plus sign in front changes nothing.
pub proof fn law_numbers_are_read_digit_by_digit(s: Seq<char>, c: char)
    requires
        s.len() > 0 ==> s[0] != '+',
    ensures
        unsigned_value(Seq::empty()) is None,
        unsigned_value(seq!['+'] + s) == unsigned_value(s),
        s.len() == 0 && '0' <= c && c <= '9' ==> unsigned_value(s.push(c)) == Some(
            (c as u32 - '0' as u32) as u32,
        ),
        s.len() > 0 && '0' <= c && c <= '9' ==> unsigned_value(s.push(c)) == match unsigned_value(
            s,
        ) {
            Some(v) => if 10 * v + (c as u32 - '0' as u32) <= u32::MAX {
                Some((10 * v + (c as u32 - '0' as u32)) as u32)
            } else {
                None
            },
            None => None,
        },
        !('0' <= c && c <= '9') && c != '+' ==> unsigned_value(s.push(c)) is None,
        s.len() > 0 && !('0' <= c && c <= '9') ==> unsigned_value(s.push(c)) is None,
{
    let t = s.push(c);
    assert((seq!['+'] + s).drop_first() == s);
    assert(t.drop_last() == s);
    assert(digits_value(Seq::<char>::empty()) == 0);
    if s.len() == 0 {
        assert(s == Seq::<char>::empty());
    }
    if s.len() > 0 {
        assert(t[0] == s[0]);
    }
    assert(t[t.len() - 1] == c);
    if '0' <= c && c <= '9' {
        assert(all_digits(t) == all_digits(s)) by {
            if all_digits(t) {
                assert forall|i: int| 0 <= i < s.len() implies '0' <= #[trigger] s[i] && s[i]
                    <= '9' by {
                    assert(t[i] == s[i]);
                }
            }
            if all_digits(s) {
                assert forall|i: int| 0 <= i < t.len() implies '0' <= #[trigger] t[i] && t[i]
                    <= '9' by {
                    if i < s.len() {
                        assert(t[i] == s[i]);
                    }
                }
            }
        }
    } else {
        assert(!all_digits(t));
    }
}

/// A number is read back from its decimal form, if 32 bits can hold it.
pub proof fn law_numbers_are_read_back(n: nat)
    ensures
        n <= u32::MAX ==> unsigned_value(decimal_text(n)) == Some(n as u32),
        n > u32::MAX ==> unsigned_value(decimal_text(n)) is None,
{
    law_decimal_round_trip(n);
    assert('0' <= decimal_text(n)[0]);
}

/// A text occurs in another exactly when the other is something, the text, and
/// something else; and it begins another exactly when there is nothing before.
pub proof fn law_occurrence_is_being_part(s: Seq<char>, needle: Seq<char>)
    ensures
        has_text(s, needle) <==> exists|before: Seq<char>, after: Seq<char>| #[trigger]
            (before + needle + after) == s,
        begins_with(s, needle) <==> exists|after: Seq<char>| #[trigger] (needle + after) == s,
{
    if has_text(s, needle) {
        let at = choose|at: int| occurs_at(s, needle, at);
        let before = s.take(at);
        let after = s.skip(at + needle.len());
        assert(before + needle + after =~= s) by {
            assert forall|i: int| at <= i < at + needle.len() implies s[i] == needle[i - at] by {
                assert(s.subrange(at, at + needle.len())[i - at] == needle[i - at]);
            }
        }
    }
    if exists|before: Seq<char>, after: Seq<char>| #[trigger] (before + needle + after) == s {
        let (before, after) = choose|before: Seq<char>, after: Seq<char>| #[trigger]
            (before + needle + after) == s;
        let at = before.len() as int;
        assert(s.subrange(at, at + needle.len()) == needle);
        assert(occurs_at(s, needle, at));
    }
    if begins_with(s, needle) {
        let after = s.skip(needle.len() as int);
        assert(needle + after =~= s) by {
            assert forall|i: int| 0 <= i < needle.len() implies s[i] == needle[i] by {
                assert(s.subrange(0, needle.len() as int)[i] == needle[i]);
            }
        }
    }
    if exists|after: Seq<char>| #[trigger] (needle + after) == s {
        let after = choose|after: Seq<char>| #[trigger] (needle + after) == s;
        assert(s.subrange(0, needle.len() as int) == needle);
    }
}

/// The lines of a text follow one another: a line feed ends a line, a carriage
/// return before it is no part of the line, and what stands behind the line
/// feed has its own lines. A text without a line feed is one line, if there is
/// any text.
pub proof fn law_lines_follow_one_another(line: Seq<char>, rest: Seq<char>)
    requires
        forall|i: int| 0 <= i < line.len() ==> #[trigger] line[i] != '\n',
    ensures
        lines_of(Seq::empty()) == Seq::<Seq<char>>::empty(),
        line.len() > 0 ==> lines_of(line) == seq![line],
        lines_of(line + seq!['\n'] + rest) == seq![
            if line.len() > 0 && line[line.len() - 1] == '\r' {
                line.take(line.len() - 1)
            } else {
                line
            },
        ] + lines_of(rest),
{
    let n = line.len() as int;
    lemma_line_end_is(line, 0, n);
    assert(line.subrange(0, n) == line);
    let whole = line + seq!['\n'] + rest;
    assert forall|i: int| 0 <= i < n implies #[trigger] whole[i] != '\n' by {
        assert(whole[i] == line[i]);
    }
    lemma_line_end_is(whole, 0, n);
    assert(whole.subrange(0, n) == line);
    assert(line.len() > 0 ==> line.take(n - 1) == line.drop_last());
    assert(whole == (line + seq!['\n']) + rest);
    lemma_lines_shift(line + seq!['\n'], rest, 0);
}

/// Lines do not depend on what stands before the position they begin at.
proof fn lemma_lines_shift(before: Seq<char>, s: Seq<char>, from: int)
    requires
        0 <= from,
    ensures
        lines_from(before + s, before.len() + from) == lines_from(s, from),
    decreases s.len() - from,
{
    let whole = before + s;
    let n = before.len() as int;
    if from < s.len() {
        lemma_line_end_shift(before, s, from);
        let end = line_end(s, from);
        lemma_line_end_bounds(s, from);
        if end < s.len() {
            assert(whole.subrange(n + from, n + end) == s.subrange(from, end));
            lemma_lines_shift(before, s, end + 1);
        } else {
            assert(whole.subrange(n + from, whole.len() as int) == s.subrange(
                from,
                s.len() as int,
            ));
        }
    }
}

/// The end of a line lies between where it begins and the end of the text.
proof fn lemma_line_end_bounds(s: Seq<char>, from: int)
    requires
        0 <= from <= s.len(),
    ensures
        from <= line_end(s, from) <= s.len(),
    decreases s.len() - from,
{
    if from < s.len() && s[from] != '\n' {
        lemma_line_end_bounds(s, from + 1);
    }
}

/// The end of a line does not depend on what stands before it.
proof fn lemma_line_end_shift(before: Seq<char>, s: Seq<char>, from: int)
    requires
        0 <= from <= s.len(),
    ensures
        line_end(before + s, before.len() + from) == before.len() + line_end(s, from),
    decreases s.len() - from,
{
    if from < s.len() {
        assert((before + s)[before.len() + from] == s[from]);
        if s[from] != '\n' {
            lemma_line_end_shift(before, s, from + 1);
        }
    }
}

/// Numbers below 100, or below 10000, padded to two, or four, digits, digit by
/// digit.
pub proof fn law_padded_digits(n: nat)
    ensures
        n < 100 ==> padded_text(n, 2) == seq![
            "0123456789"@[n as int / 10],
            "0123456789"@[n as int % 10],
        ],
        n < 10_000 ==> padded_text(n, 4) == seq![
            "0123456789"@[n as int / 1000],
            "0123456789"@[n as int / 100 % 10],
            "0123456789"@[n as int / 10 % 10],
            "0123456789"@[n as int % 10],
        ],
{
    reveal_strlit("0123456789");
    reveal_with_fuel(decimal_text, 5);
    if n < 100 {
        assert(padded_text(n, 2) =~= seq![
            "0123456789"@[n as int / 10],
            "0123456789"@[n as int % 10],
        ]);
    }
    if n < 10_000 {
        assert(n / 10 / 10 == n / 100 && n / 10 / 10 / 10 == n / 1000);
        assert(padded_text(n, 4) =~= seq![
            "0123456789"@[n as int / 1000],
            "0123456789"@[n as int / 100 % 10],
            "0123456789"@[n as int / 10 % 10],
            "0123456789"@[n as int % 10],
        ]);
    }
}

} // verus!
