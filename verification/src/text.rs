//! Text building and scanning, character by character.

use vstd::prelude::*;
use vstd::string::*;

verus! {

broadcast use group_string_axioms;

/// `String::push`: appends one character at the end.
pub assume_specification[ String::push ](s: &mut String, c: char)
    ensures
        final(s)@ == old(s)@.push(c),
;

/// Whether a character has Unicode's `White_Space` property.
pub open spec fn is_white_space(c: char) -> bool {
    let n = c as u32;
    ||| 0x9 <= n <= 0xD
    ||| n == 0x20
    ||| n == 0x85
    ||| n == 0xA0
    ||| n == 0x1680
    ||| 0x2000 <= n <= 0x200A
    ||| 0x2028 <= n <= 0x2029
    ||| n == 0x202F
    ||| n == 0x205F
    ||| n == 0x3000
}

/// `char::is_whitespace`: whether the character is white space.
pub assume_specification[ char::is_whitespace ](c: char) -> (r: bool)
    ensures
        r == is_white_space(c),
;

/// Whether a character is one of ASCII's.
pub open spec fn is_ascii(c: char) -> bool {
    c as u32 <= 0x7F
}

/// Whether a text consists of ASCII's characters.
pub open spec fn all_ascii(s: Seq<char>) -> bool {
    forall|i: int| 0 <= i < s.len() ==> is_ascii(#[trigger] s[i])
}

/// A letter from 'A' to 'Z' as one from 'a' to 'z', and anything else as it
/// is.
pub open spec fn ascii_lower(c: char) -> char {
    if 'A' <= c && c <= 'Z' {
        (c as u32 + 32) as char
    } else {
        c
    }
}

/// A letter from 'a' to 'z' as one from 'A' to 'Z', and anything else as it
/// is.
pub open spec fn ascii_upper(c: char) -> char {
    if 'a' <= c && c <= 'z' {
        (c as u32 - 32) as char
    } else {
        c
    }
}

/// Whether a character is one of ASCII's letters and digits.
pub open spec fn is_ascii_letter_or_digit(c: char) -> bool {
    ||| 'a' <= c && c <= 'z'
    ||| 'A' <= c && c <= 'Z'
    ||| '0' <= c && c <= '9'
}

/// Whether a character outside ASCII is alphabetic or numeric in Unicode's
/// sense.
pub uninterp spec fn is_other_letter_or_digit(c: char) -> bool;

/// Whether a character is alphabetic or numeric in Unicode's sense.
pub open spec fn is_letter_or_digit(c: char) -> bool {
    if is_ascii(c) {
        is_ascii_letter_or_digit(c)
    } else {
        is_other_letter_or_digit(c)
    }
}

/// `char::is_alphanumeric`: says yes to ASCII's letters and digits, and to no
/// other character of ASCII; outside ASCII it answers for the character alone.
pub assume_specification[ char::is_alphanumeric ](c: char) -> (r: bool)
    ensures
        r == (if is_ascii(c) {
            is_ascii_letter_or_digit(c)
        } else {
            is_other_letter_or_digit(c)
        }),
;

/// The lowercase form, by Unicode's rules, of a text that goes beyond ASCII.
pub uninterp spec fn other_lowercase(s: Seq<char>) -> Seq<char>;

/// The lowercase form of a text, by Unicode's rules.
pub open spec fn lowercase(s: Seq<char>) -> Seq<char> {
    if all_ascii(s) {
        s.map_values(|c: char| ascii_lower(c))
    } else {
        other_lowercase(s)
    }
}

/// `str::to_lowercase`: puts the letters of an ASCII text into lowercase, one
/// by one; the form of any other text depends on the text alone.
#[verifier::external_body]
pub(crate) fn to_lowercase(s: &str) -> (r: String)
    ensures
        r@ == (if all_ascii(s@) {
            s@.map_values(|c: char| ascii_lower(c))
        } else {
            other_lowercase(s@)
        }),
{
    s.to_lowercase()
}

/// The uppercase form, by Unicode's rules, of a character outside ASCII; it
/// may be several characters long.
pub uninterp spec fn other_uppercase(c: char) -> Seq<char>;

/// The uppercase form of one character, by Unicode's rules.
pub open spec fn uppercase(c: char) -> Seq<char> {
    if is_ascii(c) {
        seq![ascii_upper(c)]
    } else {
        other_uppercase(c)
    }
}

/// `char::to_uppercase`: puts an ASCII letter into uppercase, and leaves any
/// other character of ASCII as it is; outside ASCII the form depends on the
/// character alone.
#[verifier::external_body]
pub(crate) fn to_uppercase(c: char) -> (r: String)
    ensures
        r@ == (if is_ascii(c) {
            seq![ascii_upper(c)]
        } else {
            other_uppercase(c)
        }),
{
    c.to_uppercase().to_string()
}

// ── Numbers ─────────────────────────────────────────────────────────────────

/// The character of one decimal digit.
pub open spec fn digit_char(d: int) -> char {
    (48 + d) as char
}

/// A number in decimal, without leading zeros.
pub open spec fn decimal(n: nat) -> Seq<char>
    decreases n,
{
    if n < 10 {
        seq![digit_char(n as int)]
    } else {
        decimal(n / 10).push(digit_char((n % 10) as int))
    }
}

/// A number in decimal, with a minus sign where it is negative.
pub open spec fn signed_decimal(i: int) -> Seq<char> {
    if i < 0 {
        seq!['-'] + decimal((-i) as nat)
    } else {
        decimal(i as nat)
    }
}

/// The items of a byte list, separated by a comma and a space.
pub open spec fn byte_items(bytes: Seq<u8>) -> Seq<char>
    decreases bytes.len(),
{
    if bytes.len() == 0 {
        Seq::empty()
    } else if bytes.len() == 1 {
        decimal(bytes[0] as nat)
    } else {
        byte_items(bytes.drop_last()) + ", "@ + decimal(bytes.last() as nat)
    }
}

/// A byte list as `[1, 2, 3]`.
pub open spec fn byte_list(bytes: Seq<u8>) -> Seq<char> {
    "["@ + byte_items(bytes) + "]"@
}

fn digit(d: u8) -> (c: char)
    requires
        d < 10,
    ensures
        c == digit_char(d as int),
{
    (48u8 + d) as char
}

/// Appends a number in decimal.
pub fn push_decimal(out: &mut String, n: u64)
    ensures
        final(out)@ == old(out)@ + decimal(n as nat),
    decreases n,
{
    if n < 10 {
        out.push(digit(n as u8));
    } else {
        push_decimal(out, n / 10);
        out.push(digit((n % 10) as u8));
    }
    assert(out@ =~= old(out)@ + decimal(n as nat));
}

/// Appends a number in decimal, with its sign where it is negative.
pub fn push_signed(out: &mut String, n: i32)
    ensures
        final(out)@ == old(out)@ + signed_decimal(n as int),
{
    if n < 0 {
        out.push('-');
        let magnitude: i64 = -(n as i64);
        push_decimal(out, magnitude as u64);
        assert(out@ =~= old(out)@ + signed_decimal(n as int));
    } else {
        push_decimal(out, n as u64);
    }
}

/// Appends a byte list as `[1, 2, 3]`.
pub fn push_byte_list(out: &mut String, bytes: &Vec<u8>)
    ensures
        final(out)@ == old(out)@ + byte_list(bytes@),
{
    out.append("[");
    let mut i: usize = 0;
    assert(byte_items(bytes@.take(0)) =~= Seq::<char>::empty());
    while i < bytes.len()
        invariant
            i <= bytes.len(),
            out@ == old(out)@ + "["@ + byte_items(bytes@.take(i as int)),
        decreases bytes.len() - i,
    {
        let ghost before = out@;
        if i > 0 {
            out.append(", ");
        }
        push_decimal(out, bytes[i] as u64);
        proof {
            let shorter = bytes@.take(i as int);
            let longer = bytes@.take(i + 1);
            assert(longer.drop_last() =~= shorter);
            assert(longer.last() == bytes@[i as int]);
            assert(out@ =~= old(out)@ + "["@ + byte_items(longer));
        }
        i = i + 1;
    }
    assert(bytes@.take(bytes@.len() as int) =~= bytes@);
    out.append("]");
    assert(out@ =~= old(out)@ + byte_list(bytes@));
}

// ── Characters and strings ──────────────────────────────────────────────────

/// The characters of a text.
pub fn chars_of(s: &str) -> (r: Vec<char>)
    ensures
        r@ == s@,
{
    let mut out: Vec<char> = Vec::new();
    for c in it: s.chars()
        invariant
            out@ == it.seq().take(it.index() as int),
    {
        out.push(c);
    }
    assert(out@ == s@);
    out
}

/// The text made of the given characters.
pub fn text_of(chars: &Vec<char>) -> (r: String)
    ensures
        r@ == chars@,
{
    let mut out: String = String::new();
    let mut i: usize = 0;
    while i < chars.len()
        invariant
            i <= chars.len(),
            out@ == chars@.take(i as int),
        decreases chars.len() - i,
    {
        out.push(chars[i]);
        assert(out@ =~= chars@.take(i + 1));
        i = i + 1;
    }
    assert(chars@.take(chars@.len() as int) =~= chars@);
    out
}

/// Two texts, one after the other.
pub fn join2(a: &str, b: &str) -> (r: String)
    ensures
        r@ == a@ + b@,
{
    let mut out: String = String::new();
    out.append(a);
    out.append(b);
    assert(out@ =~= a@ + b@);
    out
}

/// Three texts, one after the other.
pub fn join3(a: &str, b: &str, c: &str) -> (r: String)
    ensures
        r@ == a@ + b@ + c@,
{
    let mut out: String = join2(a, b);
    out.append(c);
    out
}

/// A text copied into a string of its own.
pub fn owned(s: &str) -> (r: String)
    ensures
        r@ == s@,
{
    let mut out: String = String::new();
    out.append(s);
    assert(out@ =~= s@);
    out
}

/// Whether two texts are the same.
pub fn same_text(a: &str, b: &str) -> (r: bool)
    ensures
        r == (a@ == b@),
{
    let x: Vec<char> = chars_of(a);
    let y: Vec<char> = chars_of(b);
    if x.len() != y.len() {
        return false;
    }
    let mut i: usize = 0;
    while i < x.len()
        invariant
            i <= x.len(),
            x.len() == y.len(),
            x@ == a@,
            y@ == b@,
            forall|j: int| 0 <= j < i ==> x@[j] == y@[j],
        decreases x.len() - i,
    {
        if x[i] != y[i] {
            assert(a@[i as int] != b@[i as int]);
            return false;
        }
        i = i + 1;
    }
    assert(a@ =~= b@);
    true
}

// ── Searching ───────────────────────────────────────────────────────────────

/// Whether `pat` stands in `s` at position `i`.
pub open spec fn occurs_at(s: Seq<char>, pat: Seq<char>, i: int) -> bool {
    &&& 0 <= i
    &&& i + pat.len() <= s.len()
    &&& s.subrange(i, i + pat.len()) == pat
}

/// Whether `pat` stands somewhere in `s`.
pub open spec fn contains_text(s: Seq<char>, pat: Seq<char>) -> bool {
    exists|i: int| occurs_at(s, pat, i)
}

/// Whether `s` begins with `pat`.
pub open spec fn begins_with(s: Seq<char>, pat: Seq<char>) -> bool {
    occurs_at(s, pat, 0)
}

/// Whether `s` ends with `pat`.
pub open spec fn finishes_with(s: Seq<char>, pat: Seq<char>) -> bool {
    occurs_at(s, pat, s.len() - pat.len())
}

pub(crate) fn matches_at(s: &Vec<char>, pat: &Vec<char>, i: usize) -> (r: bool)
    requires
        i <= s.len(),
    ensures
        r == occurs_at(s@, pat@, i as int),
{
    if s.len() - i < pat.len() {
        return false;
    }
    let mut j: usize = 0;
    while j < pat.len()
        invariant
            j <= pat.len(),
            i + pat.len() <= s.len(),
            forall|k: int| 0 <= k < j ==> s@[i + k] == pat@[k],
        decreases pat.len() - j,
    {
        if s[i + j] != pat[j] {
            assert(s@.subrange(i as int, i + pat@.len())[j as int] != pat@[j as int]);
            return false;
        }
        j = j + 1;
    }
    assert(s@.subrange(i as int, i + pat@.len()) =~= pat@);
    true
}

/// Whether `pat` stands somewhere in `s`.
pub fn contains(s: &str, pat: &str) -> (r: bool)
    ensures
        r == contains_text(s@, pat@),
{
    let x: Vec<char> = chars_of(s);
    let p: Vec<char> = chars_of(pat);
    let mut i: usize = 0;
    loop
        invariant
            x@ == s@,
            p@ == pat@,
            i <= x.len(),
            forall|k: int| 0 <= k < i ==> !occurs_at(x@, p@, k),
        decreases x.len() - i,
    {
        if matches_at(&x, &p, i) {
            return true;
        }
        if i == x.len() {
            return false;
        }
        i = i + 1;
    }
}

/// Whether `s` begins with `pat`.
pub fn starts_with(s: &str, pat: &str) -> (r: bool)
    ensures
        r == begins_with(s@, pat@),
{
    let x: Vec<char> = chars_of(s);
    let p: Vec<char> = chars_of(pat);
    matches_at(&x, &p, 0)
}

/// Whether `s` ends with `pat`.
pub fn ends_with(s: &str, pat: &str) -> (r: bool)
    ensures
        r == finishes_with(s@, pat@),
{
    let x: Vec<char> = chars_of(s);
    let p: Vec<char> = chars_of(pat);
    if x.len() < p.len() {
        return false;
    }
    matches_at(&x, &p, x.len() - p.len())
}

// ── Cutting ─────────────────────────────────────────────────────────────────

/// `s` without its leading white space.
pub open spec fn trim_front(s: Seq<char>) -> Seq<char>
    decreases s.len(),
{
    if s.len() > 0 && is_white_space(s[0]) {
        trim_front(s.drop_first())
    } else {
        s
    }
}

/// `s` without its trailing white space.
pub open spec fn trim_back(s: Seq<char>) -> Seq<char>
    decreases s.len(),
{
    if s.len() > 0 && is_white_space(s.last()) {
        trim_back(s.drop_last())
    } else {
        s
    }
}

/// `s` without the white space around it.
pub open spec fn trimmed(s: Seq<char>) -> Seq<char> {
    trim_back(trim_front(s))
}

/// `s` without the `c`s that it begins with.
pub open spec fn strip_front(s: Seq<char>, c: char) -> Seq<char>
    decreases s.len(),
{
    if s.len() > 0 && s[0] == c {
        strip_front(s.drop_first(), c)
    } else {
        s
    }
}

/// `s` without the `c`s that it ends with.
pub open spec fn strip_back(s: Seq<char>, c: char) -> Seq<char>
    decreases s.len(),
{
    if s.len() > 0 && s.last() == c {
        strip_back(s.drop_last(), c)
    } else {
        s
    }
}

/// `s` without the `c`s around it.
pub open spec fn stripped(s: Seq<char>, c: char) -> Seq<char> {
    strip_back(strip_front(s, c), c)
}

/// The part of `s` before the first `sep`, or all of `s` where there is none.
pub open spec fn before(s: Seq<char>, sep: char) -> Seq<char>
    decreases s.len(),
{
    if s.len() == 0 || s[0] == sep {
        Seq::empty()
    } else {
        seq![s[0]] + before(s.drop_first(), sep)
    }
}

/// The part of `s` after the first `sep`, if there is one.
pub open spec fn after(s: Seq<char>, sep: char) -> Option<Seq<char>>
    decreases s.len(),
{
    if s.len() == 0 {
        None
    } else if s[0] == sep {
        Some(s.drop_first())
    } else {
        after(s.drop_first(), sep)
    }
}

/// The second of the fields that `sep` separates, if there is one.
pub open spec fn second_field(s: Seq<char>, sep: char) -> Option<Seq<char>> {
    match after(s, sep) {
        Some(rest) => Some(before(rest, sep)),
        None => None,
    }
}

/// The rest after the first separator is shorter than the whole.
pub proof fn lemma_after_shorter(s: Seq<char>, sep: char)
    ensures
        after(s, sep) matches Some(rest) ==> rest.len() < s.len(),
    decreases s.len(),
{
    if s.len() > 0 && s[0] != sep {
        lemma_after_shorter(s.drop_first(), sep);
    }
}

/// The fields that `sep` separates; always at least one.
pub open spec fn fields(s: Seq<char>, sep: char) -> Seq<Seq<char>>
    decreases s.len(),
{
    proof {
        lemma_after_shorter(s, sep);
    }
    match after(s, sep) {
        Some(rest) => seq![before(s, sep)] + fields(rest, sep),
        None => seq![s],
    }
}

/// One line without its line ending's carriage return.
pub open spec fn without_return(s: Seq<char>) -> Seq<char> {
    if s.len() > 0 && s.last() == '\r' {
        s.drop_last()
    } else {
        s
    }
}

/// The lines of a text: each ends in `\n` or `\r\n`, and the last one need
/// not end in either.
pub open spec fn lines(s: Seq<char>) -> Seq<Seq<char>>
    decreases s.len(),
{
    proof {
        lemma_after_shorter(s, '\n');
    }
    if s.len() == 0 {
        Seq::empty()
    } else {
        match after(s, '\n') {
            Some(rest) => seq![without_return(before(s, '\n'))] + lines(rest),
            None => seq![s],
        }
    }
}

/// `s` with every `pat`, taken from the left without overlap, replaced by
/// `value`.
pub open spec fn replaced(s: Seq<char>, pat: Seq<char>, value: Seq<char>) -> Seq<char>
    decreases s.len(),
{
    if pat.len() == 0 || s.len() < pat.len() {
        s
    } else if begins_with(s, pat) {
        value + replaced(s.skip(pat.len() as int), pat, value)
    } else {
        seq![s[0]] + replaced(s.drop_first(), pat, value)
    }
}

/// `s` with every character `from` replaced by the character `to`.
pub open spec fn char_replaced(s: Seq<char>, from: char, to: char) -> Seq<char> {
    s.map_values(|c: char| if c == from { to } else { c })
}

proof fn lemma_trim_front_step(s: Seq<char>, i: int)
    requires
        0 <= i < s.len(),
        is_white_space(s[i]),
    ensures
        trim_front(s.skip(i)) == trim_front(s.skip(i + 1)),
{
    assert(s.skip(i).drop_first() =~= s.skip(i + 1));
}

/// `s` without the white space around it.
pub fn trim(s: &Vec<char>) -> (r: Vec<char>)
    ensures
        r@ == trimmed(s@),
{
    let mut start: usize = 0;
    assert(s@.skip(0) =~= s@);
    while start < s.len() && s[start].is_whitespace()
        invariant
            start <= s.len(),
            trim_front(s@.skip(start as int)) == trim_front(s@),
        decreases s.len() - start,
    {
        proof {
            lemma_trim_front_step(s@, start as int);
        }
        start = start + 1;
    }
    let ghost front = s@.skip(start as int);
    assert(front == trim_front(s@));
    let mut end: usize = s.len();
    assert(s@.subrange(start as int, end as int) =~= front);
    while end > start && s[end - 1].is_whitespace()
        invariant
            start <= end <= s.len(),
            trim_back(s@.subrange(start as int, end as int)) == trim_back(front),
        decreases end,
    {
        assert(s@.subrange(start as int, end as int).drop_last() =~= s@.subrange(
            start as int,
            end - 1,
        ));
        end = end - 1;
    }
    copy_range(s, start, end)
}

/// `s` without the `c`s around it.
pub fn strip(s: &Vec<char>, c: char) -> (r: Vec<char>)
    ensures
        r@ == stripped(s@, c),
{
    let mut start: usize = 0;
    assert(s@.skip(0) =~= s@);
    while start < s.len() && s[start] == c
        invariant
            start <= s.len(),
            strip_front(s@.skip(start as int), c) == strip_front(s@, c),
        decreases s.len() - start,
    {
        assert(s@.skip(start as int).drop_first() =~= s@.skip(start + 1));
        start = start + 1;
    }
    let ghost front = s@.skip(start as int);
    assert(front == strip_front(s@, c));
    let mut end: usize = s.len();
    assert(s@.subrange(start as int, end as int) =~= front);
    while end > start && s[end - 1] == c
        invariant
            start <= end <= s.len(),
            strip_back(s@.subrange(start as int, end as int), c) == strip_back(front, c),
        decreases end,
    {
        assert(s@.subrange(start as int, end as int).drop_last() =~= s@.subrange(
            start as int,
            end - 1,
        ));
        end = end - 1;
    }
    copy_range(s, start, end)
}

/// The characters from `start` up to `end`.
pub(crate) fn copy_range(s: &Vec<char>, start: usize, end: usize) -> (r: Vec<char>)
    requires
        start <= end <= s.len(),
    ensures
        r@ == s@.subrange(start as int, end as int),
{
    let mut out: Vec<char> = Vec::new();
    let mut i: usize = start;
    while i < end
        invariant
            start <= i <= end <= s.len(),
            out@ == s@.subrange(start as int, i as int),
        decreases end - i,
    {
        out.push(s[i]);
        assert(out@ =~= s@.subrange(start as int, i + 1));
        i = i + 1;
    }
    out
}

proof fn lemma_cut_at(s: Seq<char>, sep: char, i: int)
    requires
        0 <= i <= s.len(),
        forall|k: int| 0 <= k < i ==> s[k] != sep,
    ensures
        i < s.len() && s[i] == sep ==> before(s, sep) == s.take(i) && after(s, sep) == Some(
            s.skip(i + 1),
        ),
        i == s.len() ==> before(s, sep) == s && after(s, sep) is None,
    decreases i,
{
    if i == 0 {
        assert(s.take(0) =~= Seq::<char>::empty());
        assert(s.len() > 0 ==> s.skip(1) =~= s.drop_first());
        assert(i == s.len() ==> s =~= Seq::<char>::empty());
    } else {
        let rest = s.drop_first();
        lemma_cut_at(rest, sep, i - 1);
        assert(seq![s[0]] + rest.take(i - 1) =~= s.take(i));
        assert(i < s.len() ==> rest.skip(i) =~= s.skip(i + 1));
        assert(seq![s[0]] + rest =~= s);
    }
}

fn position(s: &Vec<char>, sep: char, from: usize) -> (i: usize)
    requires
        from <= s.len(),
    ensures
        from <= i <= s.len(),
        i < s.len() ==> s@[i as int] == sep,
        forall|k: int| from <= k < i ==> s@[k] != sep,
{
    let mut i: usize = from;
    while i < s.len() && s[i] != sep
        invariant
            from <= i <= s.len(),
            forall|k: int| from <= k < i ==> s@[k] != sep,
        decreases s.len() - i,
    {
        i = i + 1;
    }
    i
}

/// The second of the fields that `sep` separates, if there is one.
pub fn nth_second(s: &Vec<char>, sep: char) -> (r: Option<Vec<char>>)
    ensures
        match r {
            Some(v) => second_field(s@, sep) == Some(v@),
            None => second_field(s@, sep) is None,
        },
{
    let first: usize = position(s, sep, 0);
    proof {
        lemma_cut_at(s@, sep, first as int);
    }
    if first == s.len() {
        return None;
    }
    let end: usize = position(s, sep, first + 1);
    proof {
        let rest = s@.skip(first + 1);
        assert forall|k: int| 0 <= k < end - (first + 1) implies rest[k] != sep by {
            assert(rest[k] == s@[first + 1 + k]);
        }
        lemma_cut_at(rest, sep, end - (first + 1));
        assert(rest.take(end - (first + 1)) =~= s@.subrange(first + 1, end as int));
    }
    Some(copy_range(s, first + 1, end))
}

/// The fields that `sep` separates.
pub fn split(s: &Vec<char>, sep: char) -> (r: Vec<Vec<char>>)
    ensures
        r@.map_values(|v: Vec<char>| v@) == fields(s@, sep),
{
    let mut out: Vec<Vec<char>> = Vec::new();
    let mut start: usize = 0;
    let ghost view = |v: Vec<char>| v@;
    assert(s@.skip(0) =~= s@);
    loop
        invariant
            start <= s.len(),
            view == (|v: Vec<char>| v@),
            out@.map_values(view) + fields(s@.skip(start as int), sep) == fields(s@, sep),
        decreases s.len() - start,
    {
        let end: usize = position(s, sep, start);
        let ghost rest = s@.skip(start as int);
        let ghost done = out@.map_values(view);
        proof {
            assert forall|k: int| 0 <= k < end - start implies rest[k] != sep by {
                assert(rest[k] == s@[start + k]);
            }
            lemma_cut_at(rest, sep, end - start);
            assert(rest.take(end - start) =~= s@.subrange(start as int, end as int));
        }
        let piece: Vec<char> = copy_range(s, start, end);
        let ghost one = piece@;
        out.push(piece);
        assert(out@.map_values(view) =~= done.push(one));
        if end == s.len() {
            assert(s@.subrange(start as int, end as int) =~= rest);
            assert(out@.map_values(view) =~= fields(s@, sep));
            return out;
        }
        proof {
            assert(rest.skip(end - start + 1) =~= s@.skip(end + 1));
            assert(done + (seq![one] + fields(s@.skip(end + 1), sep)) =~= done.push(one) + fields(
                s@.skip(end + 1),
                sep,
            ));
        }
        start = end + 1;
    }
}

/// The lines of a text.
pub fn split_lines(s: &Vec<char>) -> (r: Vec<Vec<char>>)
    ensures
        r@.map_values(|v: Vec<char>| v@) == lines(s@),
{
    let mut out: Vec<Vec<char>> = Vec::new();
    let mut start: usize = 0;
    let ghost view = |v: Vec<char>| v@;
    assert(s@.skip(0) =~= s@);
    while start < s.len()
        invariant
            start <= s.len(),
            view == (|v: Vec<char>| v@),
            out@.map_values(view) + lines(s@.skip(start as int)) == lines(s@),
        decreases s.len() - start,
    {
        let end: usize = position(s, '\n', start);
        let ghost rest = s@.skip(start as int);
        let ghost done = out@.map_values(view);
        proof {
            assert forall|k: int| 0 <= k < end - start implies rest[k] != '\n' by {
                assert(rest[k] == s@[start + k]);
            }
            lemma_cut_at(rest, '\n', end - start);
            assert(rest.take(end - start) =~= s@.subrange(start as int, end as int));
        }
        if end == s.len() {
            let piece: Vec<char> = copy_range(s, start, end);
            let ghost one = piece@;
            out.push(piece);
            proof {
                assert(one =~= rest);
                assert(out@.map_values(view) =~= done.push(one));
                assert(s@.skip(end as int) =~= Seq::<char>::empty());
                assert(out@.map_values(view) + lines(s@.skip(end as int)) =~= done + seq![one]);
            }
            start = end;
        } else {
            let stop: usize = if end > start && s[end - 1] == '\r' {
                end - 1
            } else {
                end
            };
            let piece: Vec<char> = copy_range(s, start, stop);
            let ghost one = piece@;
            out.push(piece);
            proof {
                assert(one =~= without_return(rest.take(end - start)));
                assert(out@.map_values(view) =~= done.push(one));
                assert(rest.skip(end - start + 1) =~= s@.skip(end + 1));
                assert(done + (seq![one] + lines(s@.skip(end + 1))) =~= done.push(one) + lines(
                    s@.skip(end + 1),
                ));
            }
            start = end + 1;
        }
    }
    proof {
        assert(s@.skip(s@.len() as int) =~= Seq::<char>::empty());
        assert(out@.map_values(view) + Seq::<Seq<char>>::empty() =~= out@.map_values(view));
    }
    out
}

/// `s` with every `pat` replaced by `value`.
pub fn replace(s: &str, pat: &str, value: &str) -> (r: String)
    requires
        pat@.len() > 0,
    ensures
        r@ == replaced(s@, pat@, value@),
{
    let x: Vec<char> = chars_of(s);
    let p: Vec<char> = chars_of(pat);
    let mut out: String = String::new();
    let mut i: usize = 0;
    proof {
        assert(x@.skip(0) =~= x@);
        assert(out@ + replaced(x@, pat@, value@) =~= replaced(x@, pat@, value@));
    }
    while i < x.len()
        invariant
            x@ == s@,
            p@ == pat@,
            p.len() > 0,
            i <= x.len(),
            out@ + replaced(x@.skip(i as int), pat@, value@) == replaced(s@, pat@, value@),
        decreases x.len() - i,
    {
        let ghost rest = x@.skip(i as int);
        let ghost done = out@;
        let here: bool = matches_at(&x, &p, i);
        proof {
            if i + p@.len() <= x@.len() {
                assert(rest.subrange(0, p@.len() as int) =~= x@.subrange(i as int, i + p@.len()));
            }
        }
        if here {
            out.append(value);
            proof {
                assert(rest.skip(p@.len() as int) =~= x@.skip(i + p@.len()));
                assert(done + (value@ + replaced(x@.skip(i + p@.len()), pat@, value@)) =~= done
                    + value@ + replaced(x@.skip(i + p@.len()), pat@, value@));
            }
            i = i + p.len();
        } else {
            out.push(x[i]);
            proof {
                assert(rest.drop_first() =~= x@.skip(i + 1));
                if rest.len() < p@.len() {
                    assert(x@.skip(i + 1).len() < p@.len());
                    assert(done.push(x@[i as int]) + x@.skip(i + 1) =~= done + rest);
                } else {
                    assert(done + (seq![rest[0]] + replaced(x@.skip(i + 1), pat@, value@))
                        =~= done.push(x@[i as int]) + replaced(x@.skip(i + 1), pat@, value@));
                }
            }
            i = i + 1;
        }
    }
    assert(x@.skip(x@.len() as int) =~= Seq::<char>::empty());
    assert(out@ + Seq::<char>::empty() =~= out@);
    out
}

/// `s` with every character `from` replaced by the character `to`.
pub fn replace_char(s: &str, from: char, to: char) -> (r: String)
    ensures
        r@ == char_replaced(s@, from, to),
{
    let x: Vec<char> = chars_of(s);
    let mut out: String = String::new();
    let mut i: usize = 0;
    while i < x.len()
        invariant
            x@ == s@,
            i <= x.len(),
            out@ == char_replaced(s@.take(i as int), from, to),
        decreases x.len() - i,
    {
        let c: char = x[i];
        if c == from {
            out.push(to);
        } else {
            out.push(c);
        }
        assert(out@ =~= char_replaced(s@.take(i + 1), from, to));
        i = i + 1;
    }
    assert(s@.take(s@.len() as int) =~= s@);
    out
}

// ── Lists of names ──────────────────────────────────────────────────────────

/// The names that could be read, in order.
pub open spec fn readable_names(found: Seq<Option<String>>) -> Seq<String>
    decreases found.len(),
{
    if found.len() == 0 {
        Seq::empty()
    } else {
        match found.last() {
            Some(name) => readable_names(found.drop_last()).push(name),
            None => readable_names(found.drop_last()),
        }
    }
}

/// Appends the names that could be read, in order.
pub fn append_readable(names: &mut Vec<String>, found: &Vec<Option<String>>)
    ensures
        final(names)@ == old(names)@ + readable_names(found@),
{
    let mut i: usize = 0;
    assert(found@.take(0) =~= Seq::empty());
    assert(names@ =~= old(names)@ + readable_names(found@.take(0)));
    while i < found.len()
        invariant
            i <= found.len(),
            names@ == old(names)@ + readable_names(found@.take(i as int)),
        decreases found.len() - i,
    {
        let ghost seen = found@.take(i + 1);
        assert(seen.drop_last() =~= found@.take(i as int));
        match &found[i] {
            Some(name) => {
                names.push(name.clone());
            },
            None => {},
        }
        assert(names@ =~= old(names)@ + readable_names(seen));
        i = i + 1;
    }
    assert(found@.take(found@.len() as int) =~= found@);
}

// ── Laws ────────────────────────────────────────────────────────────────────

proof fn lemma_trim_front_of(space: Seq<char>, rest: Seq<char>)
    requires
        forall|i: int| 0 <= i < space.len() ==> is_white_space(#[trigger] space[i]),
        rest.len() > 0 ==> !is_white_space(rest[0]),
    ensures
        trim_front(space + rest) == rest,
    decreases space.len(),
{
    let s = space + rest;
    if space.len() > 0 {
        assert(is_white_space(space[0]));
        assert(s[0] == space[0]);
        let tail = space.drop_first();
        assert forall|i: int| 0 <= i < tail.len() implies is_white_space(#[trigger] tail[i]) by {
            assert(is_white_space(space[i + 1]));
        }
        lemma_trim_front_of(tail, rest);
        assert(s.drop_first() =~= tail + rest);
    } else {
        assert(s =~= rest);
    }
}

proof fn lemma_trim_back_of(rest: Seq<char>, space: Seq<char>)
    requires
        forall|i: int| 0 <= i < space.len() ==> is_white_space(#[trigger] space[i]),
        rest.len() > 0 ==> !is_white_space(rest.last()),
    ensures
        trim_back(rest + space) == rest,
    decreases space.len(),
{
    let s = rest + space;
    if space.len() > 0 {
        assert(is_white_space(space[space.len() - 1]));
        assert(s.last() == space.last());
        let head = space.drop_last();
        assert forall|i: int| 0 <= i < head.len() implies is_white_space(#[trigger] head[i]) by {
            assert(is_white_space(space[i]));
        }
        lemma_trim_back_of(rest, head);
        assert(s.drop_last() =~= rest + head);
    } else {
        assert(s =~= rest);
    }
}

/// Trimming takes off the white space at both ends, all of it, and nothing
/// else.
pub proof fn law_trim_leaves_the_core(left: Seq<char>, core: Seq<char>, right: Seq<char>)
    requires
        forall|i: int| 0 <= i < left.len() ==> is_white_space(#[trigger] left[i]),
        forall|i: int| 0 <= i < right.len() ==> is_white_space(#[trigger] right[i]),
        core.len() > 0 ==> !is_white_space(core[0]) && !is_white_space(core.last()),
    ensures
        trimmed(left + core + right) == core,
{
    let empty = Seq::<char>::empty();
    if core.len() > 0 {
        assert(left + core + right =~= left + (core + right));
        lemma_trim_front_of(left, core + right);
        lemma_trim_back_of(core, right);
    } else {
        let space = left + right;
        assert forall|i: int| 0 <= i < space.len() implies is_white_space(#[trigger] space[i]) by {
            if i < left.len() {
                assert(is_white_space(left[i]));
            } else {
                assert(is_white_space(right[i - left.len()]));
            }
        }
        assert(left + core + right =~= space + empty);
        lemma_trim_front_of(space, empty);
        assert(core =~= empty);
    }
}

proof fn lemma_strip_front_of(marks: Seq<char>, rest: Seq<char>, c: char)
    requires
        forall|i: int| 0 <= i < marks.len() ==> #[trigger] marks[i] == c,
        rest.len() > 0 ==> rest[0] != c,
    ensures
        strip_front(marks + rest, c) == rest,
    decreases marks.len(),
{
    let s = marks + rest;
    if marks.len() > 0 {
        assert(s[0] == marks[0]);
        let tail = marks.drop_first();
        assert forall|i: int| 0 <= i < tail.len() implies #[trigger] tail[i] == c by {
            assert(marks[i + 1] == c);
        }
        lemma_strip_front_of(tail, rest, c);
        assert(s.drop_first() =~= tail + rest);
    } else {
        assert(s =~= rest);
    }
}

proof fn lemma_strip_back_of(rest: Seq<char>, marks: Seq<char>, c: char)
    requires
        forall|i: int| 0 <= i < marks.len() ==> #[trigger] marks[i] == c,
        rest.len() > 0 ==> rest.last() != c,
    ensures
        strip_back(rest + marks, c) == rest,
    decreases marks.len(),
{
    let s = rest + marks;
    if marks.len() > 0 {
        assert(marks[marks.len() - 1] == c);
        assert(s.last() == marks.last());
        let head = marks.drop_last();
        assert forall|i: int| 0 <= i < head.len() implies #[trigger] head[i] == c by {
            assert(marks[i] == c);
        }
        lemma_strip_back_of(rest, head, c);
        assert(s.drop_last() =~= rest + head);
    } else {
        assert(s =~= rest);
    }
}

/// Stripping a character takes it off both ends, as often as it stands there,
/// and takes off nothing else.
pub proof fn law_strip_leaves_the_core(left: Seq<char>, core: Seq<char>, right: Seq<char>, c: char)
    requires
        forall|i: int| 0 <= i < left.len() ==> #[trigger] left[i] == c,
        forall|i: int| 0 <= i < right.len() ==> #[trigger] right[i] == c,
        core.len() > 0 ==> core[0] != c && core.last() != c,
    ensures
        stripped(left + core + right, c) == core,
{
    let empty = Seq::<char>::empty();
    if core.len() > 0 {
        assert(left + core + right =~= left + (core + right));
        lemma_strip_front_of(left, core + right, c);
        lemma_strip_back_of(core, right, c);
    } else {
        let marks = left + right;
        assert forall|i: int| 0 <= i < marks.len() implies #[trigger] marks[i] == c by {
            if i < left.len() {
                assert(left[i] == c);
            } else {
                assert(right[i - left.len()] == c);
            }
        }
        assert(left + core + right =~= marks + empty);
        lemma_strip_front_of(marks, empty, c);
        assert(core =~= empty);
    }
}

/// The second field stands between the first separator and the next one, or
/// the end; without a separator there is none.
pub proof fn law_second_field_is_between(a: Seq<char>, b: Seq<char>, rest: Seq<char>, sep: char)
    requires
        !a.contains(sep),
        !b.contains(sep),
    ensures
        second_field(a, sep) is None,
        second_field(a + seq![sep] + b, sep) == Some(b),
        second_field(a + seq![sep] + b + seq![sep] + rest, sep) == Some(b),
{
    assert forall|k: int| 0 <= k < a.len() implies a[k] != sep by {
        assert(a.contains(a[k]));
    }
    assert forall|k: int| 0 <= k < b.len() implies b[k] != sep by {
        assert(b.contains(b[k]));
    }
    lemma_cut_at(a, sep, a.len() as int);
    let short = a + seq![sep] + b;
    lemma_cut_at(short, sep, a.len() as int);
    assert(short.skip(a.len() as int + 1) =~= b);
    lemma_cut_at(b, sep, b.len() as int);
    let long = a + seq![sep] + b + seq![sep] + rest;
    lemma_cut_at(long, sep, a.len() as int);
    let tail = long.skip(a.len() as int + 1);
    assert(tail =~= b + seq![sep] + rest);
    lemma_cut_at(tail, sep, b.len() as int);
    assert(tail.take(b.len() as int) =~= b);
}

/// The fields of two texts with a separator between them are those of the one
/// and then those of the other; a text without a separator is its only field.
pub proof fn law_fields_split_at_separators(a: Seq<char>, b: Seq<char>, sep: char)
    ensures
        fields(a + seq![sep] + b, sep) == fields(a, sep) + fields(b, sep),
        !a.contains(sep) ==> fields(a, sep) == seq![a],
    decreases a.len(),
{
    let s = a + seq![sep] + b;
    lemma_after_shorter(a, sep);
    lemma_after_shorter(s, sep);
    if a.contains(sep) {
        let i = lemma_first(a, sep);
        lemma_cut_at(a, sep, i);
        lemma_cut_at(s, sep, i);
        let rest = a.skip(i + 1);
        assert(s.take(i) =~= a.take(i));
        assert(s.skip(i + 1) =~= rest + seq![sep] + b);
        law_fields_split_at_separators(rest, b, sep);
        assert(fields(s, sep) =~= fields(a, sep) + fields(b, sep));
    } else {
        assert forall|k: int| 0 <= k < a.len() implies a[k] != sep by {
            assert(a.contains(a[k]));
        }
        lemma_cut_at(a, sep, a.len() as int);
        lemma_cut_at(s, sep, a.len() as int);
        assert(s.take(a.len() as int) =~= a);
        assert(s.skip(a.len() as int + 1) =~= b);
        assert(fields(s, sep) =~= fields(a, sep) + fields(b, sep));
    }
}

proof fn lemma_first(s: Seq<char>, c: char) -> (i: int)
    requires
        s.contains(c),
    ensures
        0 <= i < s.len(),
        s[i] == c,
        forall|k: int| 0 <= k < i ==> s[k] != c,
    decreases s.len(),
{
    if s[0] == c {
        0
    } else {
        let rest = s.drop_first();
        let j = choose|j: int| 0 <= j < s.len() && s[j] == c;
        assert(rest[j - 1] == c);
        let i = lemma_first(rest, c);
        assert forall|k: int| 0 <= k < i + 1 implies s[k] != c by {
            if k > 0 {
                assert(rest[k - 1] != c);
            }
        }
        i + 1
    }
}

/// A line ends at each line feed, without a carriage return right before it;
/// what comes after the last line feed is a line too, unless it is empty.
pub proof fn law_lines_end_at_line_feeds(line: Seq<char>, rest: Seq<char>)
    requires
        !line.contains('\n'),
    ensures
        !(line.len() > 0 && line.last() == '\r') ==> lines(line + seq!['\n'] + rest) == seq![line]
            + lines(rest),
        lines(line + seq!['\r'] + seq!['\n'] + rest) == seq![line] + lines(rest),
        line.len() > 0 ==> lines(line) == seq![line],
        line.len() == 0 ==> lines(line).len() == 0,
{
    assert forall|k: int| 0 <= k < line.len() implies line[k] != '\n' by {
        assert(line.contains(line[k]));
    }
    lemma_cut_at(line, '\n', line.len() as int);
    let plain = line + seq!['\n'] + rest;
    lemma_after_shorter(plain, '\n');
    lemma_cut_at(plain, '\n', line.len() as int);
    assert(plain.take(line.len() as int) =~= line);
    assert(plain.skip(line.len() as int + 1) =~= rest);
    let other = line + seq!['\r'] + seq!['\n'] + rest;
    lemma_after_shorter(other, '\n');
    lemma_cut_at(other, '\n', line.len() as int + 1);
    assert(other.take(line.len() as int + 1) =~= line.push('\r'));
    assert(line.push('\r').drop_last() =~= line);
    assert(other.skip(line.len() as int + 2) =~= rest);
}

/// A text holds another one exactly where it is that one with something before
/// and something after it; it begins or ends with it where there is nothing
/// before or nothing after.
pub proof fn law_searching_finds_what_is_there(
    s: Seq<char>,
    left: Seq<char>,
    pat: Seq<char>,
    right: Seq<char>,
)
    ensures
        contains_text(left + pat + right, pat),
        begins_with(pat + right, pat),
        finishes_with(left + pat, pat),
        contains_text(s, pat) ==> exists|l: Seq<char>, r: Seq<char>| #[trigger] (l + pat + r) == s,
        begins_with(s, pat) ==> exists|r: Seq<char>| #[trigger] (pat + r) == s,
        finishes_with(s, pat) ==> exists|l: Seq<char>| #[trigger] (l + pat) == s,
{
    let n = pat.len() as int;
    let whole = left + pat + right;
    assert(whole.subrange(left.len() as int, left.len() + n) =~= pat);
    assert(occurs_at(whole, pat, left.len() as int));
    assert((pat + right).subrange(0, n) =~= pat);
    assert((left + pat).subrange(left.len() as int, left.len() + n) =~= pat);
    if contains_text(s, pat) {
        let i = choose|i: int| occurs_at(s, pat, i);
        let l = s.take(i);
        let r = s.skip(i + n);
        assert(l + pat + r =~= s) by {
            assert(s.subrange(i, i + n) == pat);
            assert forall|k: int| 0 <= k < n implies s[i + k] == pat[k] by {
                assert(s.subrange(i, i + n)[k] == pat[k]);
            }
        }
    }
    if begins_with(s, pat) {
        let r = s.skip(n);
        assert forall|k: int| 0 <= k < n implies s[k] == pat[k] by {
            assert(s.subrange(0, n)[k] == pat[k]);
        }
        assert(pat + r =~= s);
    }
    if finishes_with(s, pat) {
        let m = s.len() - n;
        let l = s.take(m);
        assert forall|k: int| 0 <= k < n implies s[m + k] == pat[k] by {
            assert(s.subrange(m, m + n)[k] == pat[k]);
        }
        assert(l + pat =~= s);
    }
}

/// Replacing puts the value where the pattern first stands, and goes on behind
/// it; where the pattern does not stand at all, nothing changes.
pub proof fn law_replacing_goes_from_left_to_right(
    s: Seq<char>,
    pat: Seq<char>,
    value: Seq<char>,
    i: int,
)
    requires
        pat.len() > 0,
        0 <= i,
        forall|k: int| 0 <= k < i ==> !occurs_at(s, pat, k),
    ensures
        occurs_at(s, pat, i) ==> replaced(s, pat, value) == s.take(i) + value + replaced(
            s.skip(i + pat.len()),
            pat,
            value,
        ),
        i >= s.len() ==> replaced(s, pat, value) == s,
    decreases i,
{
    if i == 0 {
        assert(s.take(0) + value =~= value);
        assert(s.len() == 0 ==> s =~= Seq::<char>::empty());
    } else if s.len() > 0 {
        let rest = s.drop_first();
        assert(!occurs_at(s, pat, 0));
        assert forall|k: int| 0 <= k < i - 1 implies !occurs_at(rest, pat, k) by {
            if occurs_at(rest, pat, k) {
                assert(rest.subrange(k, k + pat.len()) =~= s.subrange(k + 1, k + 1 + pat.len()));
                assert(occurs_at(s, pat, k + 1));
            }
        }
        law_replacing_goes_from_left_to_right(rest, pat, value, i - 1);
        if occurs_at(s, pat, i) {
            assert(rest.subrange(i - 1, i - 1 + pat.len()) =~= s.subrange(i, i + pat.len()));
            assert(occurs_at(rest, pat, i - 1));
            assert(rest.skip(i - 1 + pat.len()) =~= s.skip(i + pat.len()));
            assert(seq![s[0]] + (rest.take(i - 1) + value + replaced(
                s.skip(i + pat.len()),
                pat,
                value,
            )) =~= s.take(i) + value + replaced(s.skip(i + pat.len()), pat, value));
        }
        assert(seq![s[0]] + rest =~= s);
    }
}

/// Replacing a character keeps the length; each place that held it holds the
/// other one, and each other place what it held.
pub proof fn law_replacing_a_character(s: Seq<char>, from: char, to: char)
    ensures
        char_replaced(s, from, to).len() == s.len(),
        forall|i: int|
            0 <= i < s.len() && s[i] == from ==> #[trigger] char_replaced(s, from, to)[i] == to,
        forall|i: int|
            0 <= i < s.len() && s[i] != from ==> #[trigger] char_replaced(s, from, to)[i] == s[i],
{
}

/// A number is written digit after digit: the digits of a tenth of it, and the
/// digit of what is left over.
pub proof fn law_decimal_digits(n: nat, d: nat)
    requires
        d < 10,
    ensures
        decimal(d).len() == 1,
        decimal(d)[0] as int == '0' as int + d,
        n > 0 ==> decimal(10 * n + d) == decimal(n) + decimal(d),
        n > 0 ==> decimal(n)[0] != '0',
        signed_decimal(n as int) == decimal(n),
        n > 0 ==> signed_decimal(-n) == seq!['-'] + decimal(n),
    decreases n,
{
    if n > 0 {
        let m = 10 * n + d;
        assert(m / 10 == n);
        assert(m % 10 == d);
        assert(decimal(m) =~= decimal(n) + decimal(d));
        if n >= 10 {
            law_decimal_digits(n / 10, (n % 10) as nat);
            assert(decimal(n)[0] == decimal(n / 10)[0]);
        }
    }
}

/// Two byte lists, one after the other, are written as one, with a comma and
/// a space between their items.
pub proof fn law_byte_lists_join(a: Seq<u8>, b: Seq<u8>, x: u8)
    ensures
        byte_items(Seq::<u8>::empty()).len() == 0,
        byte_items(seq![x]) == decimal(x as nat),
        a.len() > 0 && b.len() > 0 ==> byte_items(a + b) == byte_items(a) + ", "@ + byte_items(b),
        byte_list(a) == "["@ + byte_items(a) + "]"@,
    decreases b.len(),
{
    if a.len() > 0 && b.len() > 0 {
        assert((a + b).drop_last() =~= a + b.drop_last());
        assert((a + b).last() == b.last());
        if b.len() == 1 {
            assert(a + b.drop_last() =~= a);
            assert(byte_items(a + b) =~= byte_items(a) + ", "@ + byte_items(b));
        } else {
            law_byte_lists_join(a, b.drop_last(), x);
            assert(byte_items(a + b) =~= byte_items(a) + ", "@ + byte_items(b));
        }
    }
}

/// Every name that can be read is listed, once and in order, and nothing else.
pub proof fn law_readable_names_are_kept(
    a: Seq<Option<String>>,
    b: Seq<Option<String>>,
    name: String,
)
    ensures
        readable_names(a + b) == readable_names(a) + readable_names(b),
        readable_names(seq![Some(name)]) == seq![name],
        readable_names(seq![None::<String>]) == Seq::<String>::empty(),
    decreases b.len(),
{
    reveal_with_fuel(readable_names, 2);
    assert(seq![Some(name)].drop_last() =~= Seq::<Option<String>>::empty());
    assert(seq![None::<String>].drop_last() =~= Seq::<Option<String>>::empty());
    assert(readable_names(seq![Some(name)]) =~= seq![name]);
    if b.len() == 0 {
        assert(a + b =~= a);
        assert(readable_names(a) + readable_names(b) =~= readable_names(a));
    } else {
        law_readable_names_are_kept(a, b.drop_last(), name);
        assert((a + b).drop_last() =~= a + b.drop_last());
        assert((a + b).last() == b.last());
        assert(readable_names(a + b) =~= readable_names(a) + readable_names(b));
    }
}

} // verus!
