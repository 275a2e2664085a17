//! Text helpers: characters, comparison, trimming, decimal notation, padding.
use vstd::prelude::*;

verus! {

/// The ASCII lower-case form of a character; every other character is kept.
pub open spec fn ascii_lower(c: char) -> char {
    if 'A' <= c && c <= 'Z' {
        ((c as u32) + 32) as char
    } else {
        c
    }
}

/// `c` is an ASCII upper-case letter, `A` to `Z`.
pub open spec fn is_ascii_upper(c: char) -> bool {
    'A' <= c && c <= 'Z'
}

/// The characters `c` and `d` are equal but for ASCII case: the same, or an
/// upper-case letter `A` to `Z` and the lower-case letter 32 code points on.
pub open spec fn same_letter_ignoring_case(c: char, d: char) -> bool {
    ||| c == d
    ||| is_ascii_upper(c) && d as u32 == c as u32 + 32
    ||| is_ascii_upper(d) && c as u32 == d as u32 + 32
}

/// Lower-casing maps each letter `A` to `Z` to its lower-case letter `a` to
/// `z` and keeps every other character, so no upper-case ASCII letter is
/// left, and two characters equal but for ASCII case come out the same.
pub proof fn lemma_ascii_lower(c: char, d: char)
    ensures
        is_ascii_upper(c) ==> ascii_lower(c) as u32 == c as u32 + 32,
        !is_ascii_upper(c) ==> ascii_lower(c) == c,
        !is_ascii_upper(ascii_lower(c)),
        'a' <= ascii_lower(c) && ascii_lower(c) <= 'z' <==> ('a' <= c && c <= 'z') || is_ascii_upper(c),
        same_letter_ignoring_case(c, d) ==> ascii_lower(c) == ascii_lower(d),
{
}

/// Two texts equal but for ASCII case have the same lower-case form.
pub proof fn lemma_ascii_lowercase_ignores_case(s: Seq<char>, t: Seq<char>)
    requires
        s.len() == t.len(),
        forall|i: int| 0 <= i < s.len() ==> same_letter_ignoring_case(#[trigger] s[i], t[i]),
    ensures
        ascii_lowercase(s) == ascii_lowercase(t),
{
    assert forall|i: int| 0 <= i < s.len() implies #[trigger] ascii_lowercase(s)[i] == ascii_lowercase(t)[i] by {
        lemma_ascii_lower(s[i], t[i]);
    }
    assert(ascii_lowercase(s) =~= ascii_lowercase(t));
}

/// The ASCII lower-case form of a whole text.
pub open spec fn ascii_lowercase(s: Seq<char>) -> Seq<char> {
    s.map_values(|c: char| ascii_lower(c))
}

/// `s` ends with `suffix`.
pub open spec fn ends_with(s: Seq<char>, suffix: Seq<char>) -> bool {
    suffix.len() <= s.len() && s.skip(s.len() - suffix.len()) == suffix
}

/// `s` begins with `prefix`.
pub open spec fn begins_with(s: Seq<char>, prefix: Seq<char>) -> bool {
    prefix.len() <= s.len() && s.take(prefix.len() as int) == prefix
}

/// The characters that Unicode gives the White_Space property.
pub open spec fn is_white(c: char) -> bool {
    ||| ('\t' <= c && c <= '\r')
    ||| c == ' '
    ||| c == '\u{85}'
    ||| c == '\u{a0}'
    ||| c == '\u{1680}'
    ||| ('\u{2000}' <= c && c <= '\u{200a}')
    ||| c == '\u{2028}'
    ||| c == '\u{2029}'
    ||| c == '\u{202f}'
    ||| c == '\u{205f}'
    ||| c == '\u{3000}'
}

/// `s` without its leading white space.
pub open spec fn trim_start(s: Seq<char>) -> Seq<char>
    decreases s.len(),
{
    if s.len() > 0 && is_white(s[0]) {
        trim_start(s.drop_first())
    } else {
        s
    }
}

/// `s` without its trailing white space.
pub open spec fn trim_end(s: Seq<char>) -> Seq<char>
    decreases s.len(),
{
    if s.len() > 0 && is_white(s.last()) {
        trim_end(s.drop_last())
    } else {
        s
    }
}

/// `s` without white space at either end.
pub open spec fn trimmed(s: Seq<char>) -> Seq<char> {
    trim_end(trim_start(s))
}

/// The character of a decimal digit.
pub open spec fn digit_char(d: nat) -> char {
    (48 + d) as char
}

/// The decimal notation of `n`, without leading zeros.
pub open spec fn decimal(n: nat) -> Seq<char>
    decreases n,
{
    if n < 10 {
        seq![digit_char(n)]
    } else {
        decimal(n / 10).push(digit_char(n % 10))
    }
}

/// `n` copies of the space character.
pub open spec fn spaces(n: nat) -> Seq<char> {
    Seq::new(n, |i: int| ' ')
}

/// `s` right-aligned in a field of `width` characters.
pub open spec fn pad_left(s: Seq<char>, width: nat) -> Seq<char> {
    if s.len() < width {
        spaces((width - s.len()) as nat) + s
    } else {
        s
    }
}

/// `s` left-aligned in a field of `width` characters.
pub open spec fn pad_right(s: Seq<char>, width: nat) -> Seq<char> {
    if s.len() < width {
        s + spaces((width - s.len()) as nat)
    } else {
        s
    }
}

/// `String::push`: the string afterwards is the string before with `c` at its end.
#[verifier::external_body]
pub(crate) fn push_char(s: &mut String, c: char)
    ensures
        final(s)@ == old(s)@.push(c),
{
    s.push(c);
}

/// The ASCII lower-case form of a character.
pub fn lower_char(c: char) -> (r: char)
    ensures
        r == ascii_lower(c),
        'A' <= c && c <= 'Z' ==> r as u32 == c as u32 + 32,
        !('A' <= c && c <= 'Z') ==> r == c,
{
    if 'A' <= c && c <= 'Z' {
        let n: u8 = (c as u8) + 32;
        n as char
    } else {
        c
    }
}

/// The characters of a string slice, in order.
pub fn chars_of(s: &str) -> (v: Vec<char>)
    ensures
        v@ == s@,
{
    let mut v: Vec<char> = Vec::new();
    for c in it: s.chars()
        invariant
            v@ == it.seq().take(it.index() as int),
    {
        v.push(c);
    }
    v
}

/// Appends the characters of `chars` to `out`.
pub fn push_chars(out: &mut String, chars: &Vec<char>)
    ensures
        final(out)@ == old(out)@ + chars@,
{
    let ghost start = out@;
    let n = chars.len();
    for i in 0..n
        invariant
            n == chars@.len(),
            out@ == start + chars@.take(i as int),
    {
        push_char(out, chars[i]);
        assert(chars@.take(i + 1) == chars@.take(i as int).push(chars@[i as int]));
    }
    assert(chars@.take(n as int) == chars@);
}

/// A string made of the characters of `chars`.
pub fn string_of(chars: &Vec<char>) -> (s: String)
    ensures
        s@ == chars@,
{
    let mut s = String::new();
    push_chars(&mut s, chars);
    s
}

/// Appends a string slice to `out`.
pub fn push_str(out: &mut String, s: &str)
    ensures
        final(out)@ == old(out)@ + s@,
{
    out.append(s);
}

/// Whether two character vectors hold the same characters.
pub fn same_chars(a: &Vec<char>, b: &Vec<char>) -> (r: bool)
    ensures
        r == (a@ == b@),
{
    if a.len() != b.len() {
        return false;
    }
    let n = a.len();
    for i in 0..n
        invariant
            n == a@.len(),
            n == b@.len(),
            forall|j: int| 0 <= j < i ==> a@[j] == b@[j],
    {
        if a[i] != b[i] {
            return false;
        }
    }
    assert(a@ =~= b@);
    true
}

/// Whether two string slices hold the same characters.
pub fn same_text(a: &str, b: &str) -> (r: bool)
    ensures
        r == (a@ == b@),
{
    same_chars(&chars_of(a), &chars_of(b))
}

/// Whether the characters of `s` end with those of `suffix`.
pub fn chars_end_with(s: &Vec<char>, suffix: &str) -> (r: bool)
    ensures
        r == ends_with(s@, suffix@),
{
    let suf = chars_of(suffix);
    if suf.len() > s.len() {
        return false;
    }
    let off = s.len() - suf.len();
    let n = suf.len();
    for i in 0..n
        invariant
            n == suf@.len(),
            off + n == s@.len(),
            s@.len() <= usize::MAX,
            suf@ == suffix@,
            forall|j: int| 0 <= j < i ==> s@[off + j] == suf@[j],
    {
        if s[off + i] != suf[i] {
            assert(s@.skip(off as int)[i as int] == s@[off + i]);
            return false;
        }
    }
    assert(s@.skip(off as int) =~= suf@);
    true
}

/// Whether the characters of `s` begin with those of `prefix`.
pub fn chars_begin_with(s: &Vec<char>, prefix: &str) -> (r: bool)
    ensures
        r == begins_with(s@, prefix@),
{
    let pre = chars_of(prefix);
    if pre.len() > s.len() {
        return false;
    }
    let n = pre.len();
    for i in 0..n
        invariant
            n == pre@.len(),
            n <= s@.len(),
            pre@ == prefix@,
            forall|j: int| 0 <= j < i ==> s@[j] == pre@[j],
    {
        if s[i] != pre[i] {
            assert(s@.take(n as int)[i as int] == s@[i as int]);
            return false;
        }
    }
    assert(s@.take(n as int) =~= pre@);
    true
}

/// The ASCII lower-case form of a character vector.
pub fn lowercase_chars(s: &Vec<char>) -> (r: Vec<char>)
    ensures
        r@ == ascii_lowercase(s@),
{
    let mut r: Vec<char> = Vec::new();
    let n = s.len();
    for i in 0..n
        invariant
            n == s@.len(),
            r@ == ascii_lowercase(s@.take(i as int)),
    {
        r.push(lower_char(s[i]));
        assert(ascii_lowercase(s@.take(i + 1)) =~= ascii_lowercase(s@.take(i as int)).push(
            ascii_lower(s@[i as int]),
        ));
    }
    assert(s@.take(n as int) == s@);
    r
}

/// Whether a character is white space.
pub fn white_char(c: char) -> (r: bool)
    ensures
        r == is_white(c),
{
    ('\t' <= c && c <= '\r') || c == ' ' || c == '\u{85}' || c == '\u{a0}' || c == '\u{1680}' || (
    '\u{2000}' <= c && c <= '\u{200a}') || c == '\u{2028}' || c == '\u{2029}' || c == '\u{202f}'
        || c == '\u{205f}' || c == '\u{3000}'
}

proof fn lemma_trim_start_skip(s: Seq<char>, i: int)
    requires
        0 <= i <= s.len(),
        forall|j: int| 0 <= j < i ==> is_white(s[j]),
    ensures
        trim_start(s) == trim_start(s.skip(i)),
    decreases i,
{
    if i > 0 {
        lemma_trim_start_skip(s.drop_first(), i - 1);
        assert(s.drop_first().skip(i - 1) =~= s.skip(i));
    } else {
        assert(s.skip(0) =~= s);
    }
}

proof fn lemma_trim_end_take(s: Seq<char>, k: int)
    requires
        0 <= k <= s.len(),
        forall|j: int| k <= j < s.len() ==> is_white(s[j]),
    ensures
        trim_end(s) == trim_end(s.take(k)),
    decreases s.len() - k,
{
    if k < s.len() {
        lemma_trim_end_take(s.drop_last(), k);
        assert(s.drop_last().take(k) =~= s.take(k));
    } else {
        assert(s.take(k) =~= s);
    }
}

/// `s` without white space at either end.
pub fn trim(s: &str) -> (r: String)
    ensures
        r@ == trimmed(s@),
{
    let v = chars_of(s);
    let n = v.len();
    let mut i: usize = 0;
    while i < n && white_char(v[i])
        invariant
            n == v@.len(),
            v@ == s@,
            i <= n,
            forall|j: int| 0 <= j < i ==> is_white(v@[j]),
        decreases n - i,
    {
        i = i + 1;
    }
    proof {
        lemma_trim_start_skip(v@, i as int);
    }
    let mut k: usize = n;
    while k > i && white_char(v[k - 1])
        invariant
            n == v@.len(),
            i <= k <= n,
            forall|j: int| k <= j < n ==> is_white(v@[j]),
        decreases k,
    {
        k = k - 1;
    }
    let ghost rest = v@.skip(i as int);
    proof {
        assert forall|j: int| k - i <= j < rest.len() implies is_white(rest[j]) by {
            assert(rest[j] == v@[i + j]);
        }
        lemma_trim_end_take(rest, k - i);
        if k > i {
            assert(!is_white(v@[k - 1]));
            assert(rest.take(k - i).last() == v@[k - 1]);
            assert(trim_start(rest) == rest);
        } else {
            assert(trim_start(rest) == rest) by {
                if rest.len() > 0 {
                    assert(rest[0] == v@[i as int]);
                }
            }
        }
    }
    let mut out: Vec<char> = Vec::new();
    for j in i..k
        invariant
            i <= k <= n,
            n == v@.len(),
            out@ == v@.subrange(i as int, j as int),
    {
        out.push(v[j]);
        assert(v@.subrange(i as int, j + 1) =~= v@.subrange(i as int, j as int).push(v@[j as int]));
    }
    assert(out@ =~= rest.take(k - i));
    string_of(&out)
}

/// Appends the decimal notation of `n` to `out`.
pub fn push_decimal(out: &mut String, n: u64)
    ensures
        final(out)@ == old(out)@ + decimal(n as nat),
    decreases n,
{
    if n >= 10 {
        push_decimal(out, n / 10);
    }
    let d: u8 = (n % 10) as u8;
    push_char(out, (48u8 + d) as char);
    proof {
        if n >= 10 {
            assert(decimal(n as nat) == decimal((n / 10) as nat).push(digit_char((n % 10) as nat)));
        }
    }
}

/// The decimal notation of `n`.
pub fn decimal_string(n: u64) -> (s: String)
    ensures
        s@ == decimal(n as nat),
{
    let mut s = String::new();
    push_decimal(&mut s, n);
    s
}

/// Appends `count` spaces to `out`.
pub fn push_spaces(out: &mut String, count: usize)
    ensures
        final(out)@ == old(out)@ + spaces(count as nat),
{
    let ghost start = out@;
    for i in 0..count
        invariant
            out@ == start + spaces(i as nat),
    {
        push_char(out, ' ');
        assert(spaces((i + 1) as nat) =~= spaces(i as nat).push(' '));
    }
}

} // verus!
