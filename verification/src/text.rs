//! Text helpers over the characters of a string: searching, trimming,
//! case folding, and UTF-16 as the Win32 API takes it.

use vstd::prelude::*;

verus! {

/// Appends `c` with `String::push`.
#[verifier::external_body]
fn push_char(s: &mut String, c: char)
    ensures
        final(s)@ == old(s)@.push(c),
{
    s.push(c);
}

/// What `str::to_lowercase` gives for a string: its full Unicode lowercase mapping.
pub uninterp spec fn lowercase(s: Seq<char>) -> Seq<char>;

/// Calls `str::to_lowercase`. Claimed: the result is `lowercase` of the input,
/// a function of the input alone.
#[verifier::external_body]
pub(crate) fn to_lowercase(s: &str) -> (r: String)
    ensures
        r@ == lowercase(s@),
{
    s.to_lowercase()
}

/// Calls `char::from_u32`. Claimed, as its documentation says: a character
/// exactly for the Unicode scalar values.
#[verifier::external_body]
fn char_from_u32(v: u32) -> (r: Option<char>)
    ensures
        r == (if vstd::utf8::is_scalar(v) {
            Some(v as char)
        } else {
            None
        }),
{
    char::from_u32(v)
}

/// The characters of `s`, in order.
pub fn chars_of(s: &str) -> (v: Vec<char>)
    ensures
        v@ == s@,
{
    let mut v: Vec<char> = Vec::new();
    for c in it: s.chars()
        invariant
            v@ == it.seq().take(it.index() as int),
            it.seq() == s@,
    {
        v.push(c);
    }
    v
}

/// The string of the given characters.
pub fn string_from_chars(chars: &Vec<char>) -> (s: String)
    ensures
        s@ == chars@,
{
    let mut s = String::new();
    let mut i: usize = 0;
    while i < chars.len()
        invariant
            0 <= i <= chars@.len(),
            s@ == chars@.take(i as int),
        decreases chars.len() - i,
    {
        push_char(&mut s, chars[i]);
        i = i + 1;
        assert(s@ =~= chars@.take(i as int));
    }
    assert(chars@.take(chars@.len() as int) =~= chars@);
    s
}

/* Whitespace */

/// A character with the Unicode `White_Space` property, which
/// `char::is_whitespace` tests and `str::trim` removes.
pub open spec fn is_white_space(c: char) -> bool {
    let v = c as u32;
    ||| 0x09 <= v <= 0x0D
    ||| v == 0x20
    ||| v == 0x85
    ||| v == 0xA0
    ||| v == 0x1680
    ||| 0x2000 <= v <= 0x200A
    ||| v == 0x2028
    ||| v == 0x2029
    ||| v == 0x202F
    ||| v == 0x205F
    ||| v == 0x3000
}

/// Tests the Unicode `White_Space` property.
pub fn is_whitespace(c: char) -> (r: bool)
    ensures
        r == is_white_space(c),
{
    let v = c as u32;
    (0x09 <= v && v <= 0x0D) || v == 0x20 || v == 0x85 || v == 0xA0 || v == 0x1680 || (0x2000 <= v
        && v <= 0x200A) || v == 0x2028 || v == 0x2029 || v == 0x202F || v == 0x205F || v == 0x3000
}

/// The characters left when leading and trailing whitespace is removed, as by `str::trim`.
pub open spec fn trimmed(s: Seq<char>) -> Seq<char> {
    s.subrange(trim_start(s), trim_end(s))
}

/// Index of the first character that is not whitespace, or the length.
pub open spec fn trim_start(s: Seq<char>) -> int
    decreases s.len(),
{
    if s.len() > 0 && is_white_space(s[0]) {
        1 + trim_start(s.drop_first())
    } else {
        0
    }
}

/// One past the last character that is not whitespace, but not before `trim_start`.
pub open spec fn trim_end(s: Seq<char>) -> int
    decreases s.len(),
{
    if s.len() > 0 && is_white_space(s.last()) && trim_start(s) < s.len() {
        trim_end(s.drop_last())
    } else {
        s.len() as int
    }
}

proof fn lemma_trim_start_bounds(s: Seq<char>)
    ensures
        0 <= trim_start(s) <= s.len(),
        forall|i: int| 0 <= i < trim_start(s) ==> is_white_space(#[trigger] s[i]),
        trim_start(s) < s.len() ==> !is_white_space(s[trim_start(s)]),
    decreases s.len(),
{
    if s.len() > 0 && is_white_space(s[0]) {
        lemma_trim_start_bounds(s.drop_first());
        assert forall|i: int| 0 <= i < trim_start(s) implies is_white_space(#[trigger] s[i]) by {
            if i > 0 {
                assert(s[i] == s.drop_first()[i - 1]);
            }
        }
    }
}

proof fn lemma_trim_start_drop_last(s: Seq<char>)
    requires
        trim_start(s) < s.len(),
    ensures
        trim_start(s.drop_last()) == (if trim_start(s) < s.len() - 1 {
            trim_start(s)
        } else {
            s.len() - 1
        }),
    decreases s.len(),
{
    lemma_trim_start_bounds(s);
    if s.len() > 0 && is_white_space(s[0]) {
        assert(s.drop_first().drop_last() =~= s.drop_last().drop_first());
        lemma_trim_start_drop_last(s.drop_first());
    }
}

proof fn lemma_trim_end_bounds(s: Seq<char>)
    ensures
        trim_start(s) <= trim_end(s) <= s.len(),
        forall|i: int| trim_end(s) <= i < s.len() ==> is_white_space(#[trigger] s[i]),
        trim_start(s) < trim_end(s) ==> !is_white_space(s[trim_end(s) - 1]),
    decreases s.len(),
{
    lemma_trim_start_bounds(s);
    if s.len() > 0 && is_white_space(s.last()) && trim_start(s) < s.len() {
        let t = s.drop_last();
        lemma_trim_start_drop_last(s);
        lemma_trim_end_bounds(t);
        assert forall|i: int| trim_end(s) <= i < s.len() implies is_white_space(#[trigger] s[i]) by {
            if i < s.len() - 1 {
                assert(s[i] == t[i]);
            }
        }
        if trim_start(s) < trim_end(s) {
            assert(s[trim_end(s) - 1] == t[trim_end(t) - 1]);
        }
    }
}

/// The characters of `s` without leading and trailing whitespace.
pub fn trim_chars(s: &Vec<char>) -> (r: Vec<char>)
    ensures
        r@ == trimmed(s@),
{
    proof {
        lemma_trim_start_bounds(s@);
        lemma_trim_end_bounds(s@);
    }
    let mut start: usize = 0;
    while start < s.len() && is_whitespace(s[start])
        invariant
            0 <= start <= s@.len(),
            start <= trim_start(s@),
            0 <= trim_start(s@) <= s@.len(),
            forall|i: int| 0 <= i < trim_start(s@) ==> is_white_space(#[trigger] s@[i]),
            trim_start(s@) < s@.len() ==> !is_white_space(s@[trim_start(s@)]),
        decreases s.len() - start,
    {
        start = start + 1;
    }
    assert(start == trim_start(s@));
    let mut end: usize = s.len();
    while end > start && is_whitespace(s[end - 1])
        invariant
            start == trim_start(s@),
            start <= end <= s@.len(),
            end >= trim_end(s@),
            trim_start(s@) <= trim_end(s@) <= s@.len(),
            forall|i: int| trim_end(s@) <= i < s@.len() ==> is_white_space(#[trigger] s@[i]),
            trim_start(s@) < trim_end(s@) ==> !is_white_space(s@[trim_end(s@) - 1]),
        decreases end,
    {
        end = end - 1;
    }
    assert(end == trim_end(s@));
    let mut r: Vec<char> = Vec::new();
    let mut i = start;
    while i < end
        invariant
            start <= i <= end <= s@.len(),
            r@ == s@.subrange(start as int, i as int),
        decreases end - i,
    {
        r.push(s[i]);
        i = i + 1;
        assert(r@ =~= s@.subrange(start as int, i as int));
    }
    r
}

/// Every character is whitespace, so that `str::trim` leaves nothing.
pub open spec fn is_blank_text(s: Seq<char>) -> bool {
    forall|i: int| 0 <= i < s.len() ==> is_white_space(#[trigger] s[i])
}

/// Tells whether `s` trims to the empty string.
pub fn is_blank(s: &str) -> (r: bool)
    ensures
        r == is_blank_text(s@),
{
    let chars = chars_of(s);
    let mut i: usize = 0;
    while i < chars.len()
        invariant
            chars@ == s@,
            0 <= i <= chars@.len(),
            forall|j: int| 0 <= j < i ==> is_white_space(#[trigger] chars@[j]),
        decreases chars.len() - i,
    {
        if !is_whitespace(chars[i]) {
            return false;
        }
        i = i + 1;
    }
    true
}

/* Searching */

/// `pattern` occurs in `text` starting at character `at`.
pub open spec fn occurs_at(text: Seq<char>, pattern: Seq<char>, at: int) -> bool {
    0 <= at && at + pattern.len() <= text.len() && text.subrange(at, at + pattern.len()) == pattern
}

/// `pattern` occurs somewhere in `text`.
pub open spec fn contains_text(text: Seq<char>, pattern: Seq<char>) -> bool {
    exists|at: int| occurs_at(text, pattern, at)
}

/// Tells whether `pattern` occurs in `text` at `at`.
pub fn matches_at(text: &Vec<char>, pattern: &Vec<char>, at: usize) -> (r: bool)
    ensures
        r == occurs_at(text@, pattern@, at as int),
{
    if at > text.len() || pattern.len() > text.len() - at {
        return false;
    }
    let mut k: usize = 0;
    while k < pattern.len()
        invariant
            at + pattern@.len() <= text@.len(),
            text@.len() == text.len(),
            0 <= k <= pattern@.len(),
            forall|j: int| 0 <= j < k ==> text@[at + j] == pattern@[j],
        decreases pattern.len() - k,
    {
        if text[at + k] != pattern[k] {
            assert(text@.subrange(at as int, at + pattern@.len())[k as int] != pattern@[k as int]);
            return false;
        }
        k = k + 1;
    }
    assert(text@.subrange(at as int, at + pattern@.len()) =~= pattern@);
    true
}

/// The first character index at which `pattern` occurs in `text`, if any.
pub fn find_chars(text: &Vec<char>, pattern: &Vec<char>) -> (r: Option<usize>)
    ensures
        match r {
            Some(at) => occurs_at(text@, pattern@, at as int) && forall|j: int|
                0 <= j < at ==> !occurs_at(text@, pattern@, j),
            None => !contains_text(text@, pattern@),
        },
{
    let mut at: usize = 0;
    loop
        invariant
            0 <= at <= text@.len(),
            forall|j: int| 0 <= j < at ==> !occurs_at(text@, pattern@, j),
        decreases text.len() - at,
    {
        if matches_at(text, pattern, at) {
            return Some(at);
        }
        if at == text.len() {
            assert forall|j: int| !occurs_at(text@, pattern@, j) by {
                if 0 <= j && j < at {
                }
            }
            return None;
        }
        at = at + 1;
    }
}

/// Tells whether `pattern` occurs in `text`.
pub fn contains_str(text: &str, pattern: &str) -> (r: bool)
    ensures
        r == contains_text(text@, pattern@),
{
    let t = chars_of(text);
    let p = chars_of(pattern);
    find_chars(&t, &p).is_some()
}

/// `text` with each non-overlapping occurrence of `pattern`, scanning from the
/// front, replaced by `replacement`, as `str::replace` does.
pub open spec fn replace_all(text: Seq<char>, pattern: Seq<char>, replacement: Seq<char>) -> Seq<
    char,
>
    recommends
        pattern.len() > 0,
    decreases text.len(),
{
    if text.len() == 0 || pattern.len() == 0 {
        text
    } else if occurs_at(text, pattern, 0) {
        replacement + replace_all(text.subrange(pattern.len() as int, text.len() as int), pattern, replacement)
    } else {
        seq![text[0]] + replace_all(text.drop_first(), pattern, replacement)
    }
}

proof fn lemma_occurs_shift(text: Seq<char>, pattern: Seq<char>, at: int)
    requires
        0 <= at <= text.len(),
    ensures
        occurs_at(text, pattern, at) == occurs_at(text.subrange(at, text.len() as int), pattern, 0),
{
    let rest = text.subrange(at, text.len() as int);
    if at + pattern.len() <= text.len() {
        assert(rest.subrange(0, pattern.len() as int) =~= text.subrange(at, at + pattern.len()));
    }
}

/// Replaces every non-overlapping occurrence of a non-empty `pattern`.
pub fn replace_str(text: &str, pattern: &str, replacement: &str) -> (r: String)
    requires
        pattern@.len() > 0,
    ensures
        r@ == replace_all(text@, pattern@, replacement@),
{
    let t = chars_of(text);
    let p = chars_of(pattern);
    let rep = chars_of(replacement);
    let mut out: Vec<char> = Vec::new();
    let mut i: usize = 0;
    assert(t@.subrange(0, t@.len() as int) =~= t@);
    assert(out@ + t@ =~= t@);
    while i < t.len()
        invariant
            t@ == text@,
            p@ == pattern@,
            rep@ == replacement@,
            p@.len() > 0,
            0 <= i <= t@.len(),
            out@ + replace_all(t@.subrange(i as int, t@.len() as int), p@, rep@) == replace_all(
                t@,
                p@,
                rep@,
            ),
        decreases t.len() - i,
    {
        let rest = Ghost(t@.subrange(i as int, t@.len() as int));
        proof {
            lemma_occurs_shift(t@, p@, i as int);
        }
        if matches_at(&t, &p, i) {
            let mut k: usize = 0;
            let ghost before = out@;
            while k < rep.len()
                invariant
                    0 <= k <= rep@.len(),
                    out@ == before + rep@.take(k as int),
                decreases rep.len() - k,
            {
                out.push(rep[k]);
                k = k + 1;
                assert(out@ =~= before + rep@.take(k as int));
            }
            assert(rep@.take(rep@.len() as int) =~= rep@);
            let ghost next = i + p.len();
            assert(rest@.subrange(p@.len() as int, rest@.len() as int) =~= t@.subrange(
                next as int,
                t@.len() as int,
            ));
            assert(out@ + replace_all(t@.subrange(next as int, t@.len() as int), p@, rep@) =~= before
                + replace_all(rest@, p@, rep@));
            i = i + p.len();
        } else {
            let ghost before = out@;
            out.push(t[i]);
            assert(rest@.drop_first() =~= t@.subrange(i + 1, t@.len() as int));
            assert(out@ + replace_all(t@.subrange(i + 1, t@.len() as int), p@, rep@) =~= before
                + replace_all(rest@, p@, rep@));
            i = i + 1;
        }
    }
    assert(t@.subrange(i as int, t@.len() as int) =~= Seq::<char>::empty());
    assert(out@ + replace_all(Seq::<char>::empty(), p@, rep@) =~= out@);
    string_from_chars(&out)
}

/// Each character of `text` that is in `targets` replaced by a space.
pub open spec fn spaced(text: Seq<char>, targets: Seq<char>) -> Seq<char> {
    text.map_values(|c: char| if targets.contains(c) { ' ' } else { c })
}

/// Replaces each character of `text` that is in `targets` by a space, as
/// `str::replace` with a character array does.
pub fn replace_chars_with_space(text: &str, targets: &Vec<char>) -> (r: String)
    ensures
        r@ == spaced(text@, targets@),
{
    let t = chars_of(text);
    let mut out: Vec<char> = Vec::new();
    let mut i: usize = 0;
    while i < t.len()
        invariant
            t@ == text@,
            0 <= i <= t@.len(),
            out@ == spaced(t@.take(i as int), targets@),
        decreases t.len() - i,
    {
        let c = t[i];
        let mut hit = false;
        let mut k: usize = 0;
        while k < targets.len()
            invariant
                0 <= k <= targets@.len(),
                hit == (exists|j: int| 0 <= j < k && targets@[j] == c),
            decreases targets.len() - k,
        {
            if targets[k] == c {
                hit = true;
            }
            k = k + 1;
        }
        out.push(if hit {
            ' '
        } else {
            c
        });
        i = i + 1;
        assert(out@ =~= spaced(t@.take(i as int), targets@));
    }
    assert(t@.take(t@.len() as int) =~= t@);
    string_from_chars(&out)
}

/* ASCII case */

/// The character with ASCII uppercase letters mapped to lowercase.
pub open spec fn ascii_folded(c: char) -> u32 {
    if 'A' <= c <= 'Z' {
        (c as u32 + 32) as u32
    } else {
        c as u32
    }
}

/// The strings are equal when ASCII letters are compared without case, as
/// `str::eq_ignore_ascii_case` compares them.
pub open spec fn eq_ignoring_ascii_case(a: Seq<char>, b: Seq<char>) -> bool {
    a.len() == b.len() && forall|i: int| 0 <= i < a.len() ==> ascii_folded(a[i]) == ascii_folded(
        #[trigger] b[i],
    )
}

fn fold_ascii(c: char) -> (r: u32)
    ensures
        r == ascii_folded(c),
{
    if 'A' <= c && c <= 'Z' {
        c as u32 + 32
    } else {
        c as u32
    }
}

/// Compares two strings with ASCII letters folded to lowercase.
pub fn eq_ignore_ascii_case(a: &str, b: &str) -> (r: bool)
    ensures
        r == eq_ignoring_ascii_case(a@, b@),
{
    let x = chars_of(a);
    let y = chars_of(b);
    if x.len() != y.len() {
        return false;
    }
    let mut i: usize = 0;
    while i < x.len()
        invariant
            x@ == a@,
            y@ == b@,
            x@.len() == y@.len(),
            0 <= i <= x@.len(),
            forall|j: int| 0 <= j < i ==> ascii_folded(x@[j]) == ascii_folded(#[trigger] y@[j]),
        decreases x.len() - i,
    {
        if fold_ascii(x[i]) != fold_ascii(y[i]) {
            return false;
        }
        i = i + 1;
    }
    true
}

/// Some entry of `list` equals `name` without regard to ASCII case.
pub open spec fn listed_ignoring_ascii_case(list: Seq<String>, name: Seq<char>) -> bool {
    exists|i: int| 0 <= i < list.len() && eq_ignoring_ascii_case(#[trigger] list[i]@, name)
}

/// Tells whether some entry of `list` equals `name` without regard to ASCII case.
pub fn is_listed(list: &Vec<String>, name: &str) -> (r: bool)
    ensures
        r == listed_ignoring_ascii_case(list@, name@),
{
    let mut i: usize = 0;
    while i < list.len()
        invariant
            0 <= i <= list@.len(),
            forall|j: int| 0 <= j < i ==> !eq_ignoring_ascii_case(#[trigger] list@[j]@, name@),
        decreases list.len() - i,
    {
        if eq_ignore_ascii_case(list[i].as_str(), name) {
            return true;
        }
        i = i + 1;
    }
    false
}

/* Numbers as text */

/// The lowercase hexadecimal digit of `n`.
pub open spec fn lower_hex_digit(n: int) -> char {
    if n < 10 {
        (48 + n) as char
    } else {
        (87 + n) as char
    }
}

/// The uppercase hexadecimal digit of `n`.
pub open spec fn upper_hex_digit(n: int) -> char {
    if n < 10 {
        (48 + n) as char
    } else {
        (55 + n) as char
    }
}

/// Two lowercase hexadecimal digits per byte, high nibble first.
pub open spec fn lower_hex(bytes: Seq<u8>) -> Seq<char>
    decreases bytes.len(),
{
    if bytes.len() == 0 {
        seq![]
    } else {
        lower_hex(bytes.drop_last()) + seq![
            lower_hex_digit(bytes.last() as int / 16),
            lower_hex_digit(bytes.last() as int % 16),
        ]
    }
}

fn hex_digit(n: u8) -> (c: char)
    requires
        n < 16,
    ensures
        c == lower_hex_digit(n as int),
{
    if n < 10 {
        (48 + n) as char
    } else {
        (87 + n) as char
    }
}

/// The lowercase hexadecimal text of `bytes`.
pub fn hex(bytes: &[u8]) -> (r: String)
    ensures
        r@ == lower_hex(bytes@),
{
    let mut out: Vec<char> = Vec::new();
    let mut i: usize = 0;
    while i < bytes.len()
        invariant
            0 <= i <= bytes@.len(),
            out@ == lower_hex(bytes@.take(i as int)),
        decreases bytes.len() - i,
    {
        let byte = bytes[i];
        out.push(hex_digit(byte / 16));
        out.push(hex_digit(byte % 16));
        i = i + 1;
        assert(bytes@.take(i as int).drop_last() =~= bytes@.take(i - 1));
        assert(out@ =~= lower_hex(bytes@.take(i as int)));
    }
    assert(bytes@.take(bytes@.len() as int) =~= bytes@);
    string_from_chars(&out)
}

/// The decimal digits of `n`, most significant first, without leading zeros.
pub open spec fn decimal(n: nat) -> Seq<char>
    decreases n,
{
    if n < 10 {
        seq![(48 + n) as char]
    } else {
        decimal(n / 10).push((48 + n % 10) as char)
    }
}

fn decimal_chars(n: u64, out: &mut Vec<char>)
    ensures
        final(out)@ == old(out)@ + decimal(n as nat),
    decreases n,
{
    if n >= 10 {
        decimal_chars(n / 10, out);
    }
    out.push(((n % 10) as u8 + 48) as char);
    assert(final(out)@ =~= old(out)@ + decimal(n as nat));
}

/// The decimal text of `n`, as `Display` writes integers.
pub fn decimal_string(n: u64) -> (r: String)
    ensures
        r@ == decimal(n as nat),
{
    let mut out: Vec<char> = Vec::new();
    decimal_chars(n, &mut out);
    assert(out@ =~= decimal(n as nat));
    string_from_chars(&out)
}


/* UTF-16 */

/// The UTF-16 code units of one character.
pub open spec fn utf16_of_char(c: char) -> Seq<u16> {
    let v = c as u32 as int;
    if v < 0x10000 {
        seq![v as u16]
    } else {
        seq![(0xD800 + (v - 0x10000) / 1024) as u16, (0xDC00 + (v - 0x10000) % 1024) as u16]
    }
}

/// The UTF-16 code units of a string, as `str::encode_utf16` yields them.
pub open spec fn utf16(s: Seq<char>) -> Seq<u16>
    decreases s.len(),
{
    if s.len() == 0 {
        seq![]
    } else {
        utf16_of_char(s[0]) + utf16(s.drop_first())
    }
}

/// Encoding a concatenation encodes each part.
pub proof fn lemma_utf16_concat(a: Seq<char>, b: Seq<char>)
    ensures
        utf16(a + b) == utf16(a) + utf16(b),
    decreases a.len(),
{
    if a.len() == 0 {
        assert(a + b =~= b);
    } else {
        assert((a + b).drop_first() =~= a.drop_first() + b);
        lemma_utf16_concat(a.drop_first(), b);
        assert(utf16(a + b) =~= utf16(a) + utf16(b));
    }
}

proof fn lemma_utf16_single(c: char)
    ensures
        utf16(seq![c]) == utf16_of_char(c),
{
    let one = seq![c];
    assert(one.drop_first() =~= Seq::<char>::empty());
    assert(utf16(one.drop_first()) == Seq::<u16>::empty());
    assert(utf16(one) == utf16_of_char(one[0]) + utf16(one.drop_first()));
    assert(utf16(one) =~= utf16_of_char(c));
}

/// The UTF-16 code units of `s`.
pub fn encode_utf16(s: &str) -> (r: Vec<u16>)
    ensures
        r@ == utf16(s@),
{
    let chars = chars_of(s);
    let mut out: Vec<u16> = Vec::new();
    let mut i: usize = 0;
    while i < chars.len()
        invariant
            chars@ == s@,
            0 <= i <= chars@.len(),
            out@ == utf16(chars@.take(i as int)),
        decreases chars.len() - i,
    {
        let c = chars[i];
        let v = c as u32;
        let ghost before = out@;
        if v < 0x10000 {
            out.push(v as u16);
        } else {
            let w = v - 0x10000;
            out.push((0xD800 + w / 1024) as u16);
            out.push((0xDC00 + w % 1024) as u16);
        }
        proof {
            assert(chars@.take(i + 1) =~= chars@.take(i as int) + seq![c]);
            lemma_utf16_concat(chars@.take(i as int), seq![c]);
            lemma_utf16_single(c);
            vstd::utf8::char_is_scalar(c);
            assert(out@ =~= before + utf16_of_char(c));
        }
        i = i + 1;
    }
    assert(chars@.take(chars@.len() as int) =~= chars@);
    out
}

/// The UTF-16 code units of `s` followed by a terminating zero, as the wide
/// string arguments of the Win32 API take them.
pub fn wide(s: &str) -> (r: Vec<u16>)
    ensures
        r@ == utf16(s@).push(0),
{
    let mut units = encode_utf16(s);
    units.push(0);
    units
}

/// The `N` code units of a fixed-size wide-string field holding as much of
/// `value` as fits before a terminating zero, zero-padded.
pub open spec fn fixed_wide(value: Seq<char>, n: int) -> Seq<u16> {
    Seq::new(
        n as nat,
        |i: int|
            if i < n - 1 && i < utf16(value).len() {
                utf16(value)[i]
            } else {
                0u16
            },
    )
}

/// Fills a fixed-size wide-string field with `value`, cut to fit and
/// zero-terminated.
pub fn copy_wide_fixed<const N: usize>(destination: &mut [u16; N], value: &str)
    ensures
        final(destination)@ == fixed_wide(value@, N as int),
{
    let units = encode_utf16(value);
    let mut i: usize = 0;
    while i < N
        invariant
            units@ == utf16(value@),
            destination@.len() == N,
            0 <= i <= N,
            forall|j: int| 0 <= j < i ==> destination@[j] == fixed_wide(value@, N as int)[j],
        decreases N - i,
    {
        let unit = if i + 1 < N && i < units.len() {
            units[i]
        } else {
            0u16
        };
        destination[i] = unit;
        i = i + 1;
    }
    assert(destination@ =~= fixed_wide(value@, N as int));
}

/// A UTF-16 lead surrogate.
pub open spec fn is_high_surrogate(u: u16) -> bool {
    0xD800 <= u <= 0xDBFF
}

/// A UTF-16 trail surrogate.
pub open spec fn is_low_surrogate(u: u16) -> bool {
    0xDC00 <= u <= 0xDFFF
}

/// The characters of UTF-16 code units, each unpaired surrogate read as
/// U+FFFD, as `String::from_utf16_lossy` reads them.
pub open spec fn utf16_lossy(u: Seq<u16>) -> Seq<char>
    decreases u.len(),
{
    if u.len() == 0 {
        seq![]
    } else if is_high_surrogate(u[0]) && u.len() >= 2 && is_low_surrogate(u[1]) {
        seq![(0x10000 + (u[0] - 0xD800) * 1024 + (u[1] - 0xDC00)) as char] + utf16_lossy(
            u.skip(2),
        )
    } else if is_high_surrogate(u[0]) || is_low_surrogate(u[0]) {
        seq!['\u{FFFD}'] + utf16_lossy(u.skip(1))
    } else {
        seq![u[0] as char] + utf16_lossy(u.skip(1))
    }
}

/// The code units before the first zero unit, or all of them.
pub open spec fn before_nul(u: Seq<u16>) -> Seq<u16>
    decreases u.len(),
{
    if u.len() == 0 || u[0] == 0 {
        seq![]
    } else {
        seq![u[0]] + before_nul(u.drop_first())
    }
}

/// Reads zero-terminated UTF-16 text, such as the clipboard's Unicode text,
/// replacing unpaired surrogates with U+FFFD.
pub fn text_from_wide(units: &[u16]) -> (r: String)
    ensures
        r@ == utf16_lossy(before_nul(units@)),
{
    let mut end: usize = 0;
    assert(units@.take(0) =~= Seq::<u16>::empty());
    assert(units@.skip(0) =~= units@);
    while end < units.len() && units[end] != 0
        invariant
            0 <= end <= units@.len(),
            before_nul(units@) == units@.take(end as int) + before_nul(units@.skip(end as int)),
        decreases units.len() - end,
    {
        assert(units@.skip(end as int).drop_first() =~= units@.skip(end + 1));
        assert(units@.take(end + 1) =~= units@.take(end as int) + seq![units@[end as int]]);
        end = end + 1;
    }
    proof {
        if end == units.len() {
            assert(units@.skip(end as int) =~= Seq::<u16>::empty());
        }
        assert(before_nul(units@) =~= units@.take(end as int));
    }
    let ghost text = units@.take(end as int);
    let mut out: Vec<char> = Vec::new();
    let mut i: usize = 0;
    assert(text.skip(0) =~= text);
    while i < end
        invariant
            end <= units@.len(),
            text == units@.take(end as int),
            0 <= i <= end,
            out@ + utf16_lossy(text.skip(i as int)) == utf16_lossy(text),
        decreases end - i,
    {
        let unit = units[i];
        let rest = Ghost(text.skip(i as int));
        assert(rest@[0] == unit);
        let ghost before = out@;
        if 0xD800 <= unit && unit <= 0xDBFF && i + 1 < end && 0xDC00 <= units[i + 1]
            && units[i + 1] <= 0xDFFF {
            let v = 0x10000 + (unit as u32 - 0xD800) * 1024 + (units[i + 1] as u32 - 0xDC00);
            assert(rest@[1] == units@[i + 1]);
            let c = char_from_u32(v);
            assert(vstd::utf8::is_scalar(v));
            out.push(c.unwrap());
            assert(rest@.skip(2) =~= text.skip(i + 2));
            assert(out@ + utf16_lossy(text.skip(i + 2)) =~= before + utf16_lossy(rest@));
            i = i + 2;
        } else {
            if 0xD800 <= unit && unit <= 0xDFFF {
                out.push('\u{FFFD}');
            } else {
                let c = char_from_u32(unit as u32);
                assert(vstd::utf8::is_scalar(unit as u32));
                out.push(c.unwrap());
            }
            proof {
                if i + 1 < end {
                    assert(rest@[1] == units@[i + 1]);
                }
            }
            assert(rest@.skip(1) =~= text.skip(i + 1));
            assert(out@ + utf16_lossy(text.skip(i + 1)) =~= before + utf16_lossy(rest@));
            i = i + 1;
        }
    }
    assert(text.skip(end as int) =~= Seq::<u16>::empty());
    assert(out@ + utf16_lossy(Seq::<u16>::empty()) =~= out@);
    string_from_chars(&out)
}

/// Reading back the UTF-16 of a string gives the string.
pub proof fn lemma_utf16_lossy_of_utf16(s: Seq<char>)
    ensures
        utf16_lossy(utf16(s)) == s,
    decreases s.len(),
{
    if s.len() > 0 {
        let c = s[0];
        let rest = s.drop_first();
        let u = utf16(s);
        let v = c as u32 as int;
        vstd::utf8::char_is_scalar(c);
        lemma_utf16_lossy_of_utf16(rest);
        assert(u == utf16_of_char(c) + utf16(rest));
        if v < 0x10000 {
            assert(u[0] == v as u16);
            assert(u.skip(1) =~= utf16(rest));
            vstd::utf8::char_u32_cast(c, v as u32);
            assert(utf16_lossy(u) =~= s);
        } else {
            let w = v - 0x10000;
            assert(u.skip(2) =~= utf16(rest));
            assert(0x10000 + (u[0] - 0xD800) * 1024 + (u[1] - 0xDC00) == v);
            vstd::utf8::char_u32_cast(c, v as u32);
            assert(utf16_lossy(u) =~= s);
        }
    }
}

/// The units of a string without NUL characters hold no zero.
proof fn lemma_utf16_nonzero(s: Seq<char>)
    requires
        forall|i: int| 0 <= i < s.len() ==> s[i] != '\0',
    ensures
        forall|i: int| 0 <= i < utf16(s).len() ==> utf16(s)[i] != 0,
    decreases s.len(),
{
    if s.len() > 0 {
        lemma_utf16_nonzero(s.drop_first());
        vstd::utf8::char_is_scalar(s[0]);
        let u = utf16(s);
        assert forall|i: int| 0 <= i < u.len() implies u[i] != 0 by {
            let head = utf16_of_char(s[0]);
            assert(u == head + utf16(s.drop_first()));
            if i >= head.len() {
                assert(u[i] == utf16(s.drop_first())[i - head.len()]);
            } else {
                assert(s[0] != '\0');
                assert(u[i] == head[i]);
                let v = s[0] as u32 as int;
                if v < 0x10000 {
                    vstd::utf8::char_u32_cast(s[0], s[0] as u32);
                    vstd::utf8::char_u32_cast('\0', '\0' as u32);
                    assert(v != 0);
                    assert(head[0] == v as u16);
                } else {
                    assert(0xD800 + (v - 0x10000) / 1024 < 0x10000);
                    assert(0xDC00 + (v - 0x10000) % 1024 < 0x10000);
                }
            }
        }
    }
}

proof fn lemma_before_nul_of_terminated(u: Seq<u16>)
    requires
        forall|i: int| 0 <= i < u.len() ==> u[i] != 0,
    ensures
        before_nul(u.push(0)) == u,
    decreases u.len(),
{
    if u.len() > 0 {
        assert(u.push(0).drop_first() =~= u.drop_first().push(0));
        lemma_before_nul_of_terminated(u.drop_first());
        assert(before_nul(u.push(0)) =~= u);
    } else {
        assert(before_nul(u.push(0)) =~= u);
    }
}

/// Reading back the zero-terminated wide string of a text without NUL
/// characters gives the text.
pub proof fn lemma_wide_round_trip(s: Seq<char>)
    requires
        forall|i: int| 0 <= i < s.len() ==> s[i] != '\0',
    ensures
        utf16_lossy(before_nul(utf16(s).push(0))) == s,
{
    lemma_utf16_nonzero(s);
    lemma_before_nul_of_terminated(utf16(s));
    lemma_utf16_lossy_of_utf16(s);
}

} // verus!
