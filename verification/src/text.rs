//! Small text operations that the rest of the crate is stated over:
//! trimming white space, folding case, comparing, writing numbers.

use vstd::prelude::*;

verus! {

/// `String::push` of the standard library appends one character.
pub assume_specification[ String::push ](s: &mut String, ch: char)
    ensures
        final(s)@ == old(s)@.push(ch),
;

/// The view of a text that may be absent.
pub open spec fn optional_text(text: Option<&str>) -> Option<Seq<char>> {
    match text {
        Some(t) => Some(t@),
        None => None,
    }
}

/// The view of an owned text that may be absent.
pub open spec fn optional_string(text: Option<String>) -> Option<Seq<char>> {
    match text {
        Some(t) => Some(t@),
        None => None,
    }
}

/// The characters that count as white space: those with the Unicode
/// property `White_Space`.
pub open spec fn is_white_space(c: char) -> bool {
    let u = c as u32;
    (0x09 <= u <= 0x0D) || u == 0x20 || u == 0x85 || u == 0xA0 || u == 0x1680 || (0x2000 <= u
        <= 0x200A) || u == 0x2028 || u == 0x2029 || u == 0x202F || u == 0x205F || u == 0x3000
}

/// `s` without its leading white space.
pub open spec fn trim_start(s: Seq<char>) -> Seq<char>
    decreases s.len(),
{
    if s.len() > 0 && is_white_space(s.first()) {
        trim_start(s.drop_first())
    } else {
        s
    }
}

/// `s` without its trailing white space.
pub open spec fn trim_end(s: Seq<char>) -> Seq<char>
    decreases s.len(),
{
    if s.len() > 0 && is_white_space(s.last()) {
        trim_end(s.drop_last())
    } else {
        s
    }
}

/// `s` without leading and trailing white space.
pub open spec fn trimmed(s: Seq<char>) -> Seq<char> {
    trim_end(trim_start(s))
}

/// Nothing but white space, or nothing at all.
pub open spec fn is_blank(s: Seq<char>) -> bool {
    trimmed(s).len() == 0
}

/// Cutting leading white space leaves the part from the first character
/// that is not white space.
pub proof fn lemma_trim_start(s: Seq<char>, from: int)
    requires
        0 <= from <= s.len(),
        forall|k: int| 0 <= k < from ==> is_white_space(#[trigger] s[k]),
        from < s.len() ==> !is_white_space(s[from]),
    ensures
        trim_start(s) == s.subrange(from, s.len() as int),
    decreases from,
{
    if from == 0 {
        assert(s.subrange(0, s.len() as int) =~= s);
    } else {
        let rest = s.drop_first();
        assert forall|k: int| 0 <= k < from - 1 implies is_white_space(#[trigger] rest[k]) by {
            assert(rest[k] == s[k + 1]);
        }
        lemma_trim_start(rest, from - 1);
        assert(rest.subrange(from - 1, rest.len() as int) =~= s.subrange(from, s.len() as int));
    }
}

/// Cutting trailing white space leaves the part up to the last character
/// that is not white space.
pub proof fn lemma_trim_end(s: Seq<char>, to: int)
    requires
        0 <= to <= s.len(),
        forall|k: int| to <= k < s.len() ==> is_white_space(#[trigger] s[k]),
        0 < to ==> !is_white_space(s[to - 1]),
    ensures
        trim_end(s) == s.subrange(0, to),
    decreases s.len() - to,
{
    if to == s.len() {
        assert(s.subrange(0, to) =~= s);
    } else {
        let rest = s.drop_last();
        lemma_trim_end(rest, to);
        assert(rest.subrange(0, to) =~= s.subrange(0, to));
    }
}

/// Whether `c` is white space.
pub fn is_white_space_char(c: char) -> (b: bool)
    ensures
        b == is_white_space(c),
{
    let u: u32 = c as u32;
    (0x09 <= u && u <= 0x0D) || u == 0x20 || u == 0x85 || u == 0xA0 || u == 0x1680 || (0x2000
        <= u && u <= 0x200A) || u == 0x2028 || u == 0x2029 || u == 0x202F || u == 0x205F || u
        == 0x3000
}

/// `text` without leading and trailing white space.
pub fn trim_text(text: &str) -> (r: String)
    ensures
        r@ == trimmed(text@),
{
    let n: usize = text.unicode_len();
    let mut start: usize = 0;
    let mut end: usize = 0;
    let mut seen: bool = false;
    let mut i: usize = 0;
    for c in it: text.chars()
        invariant
            it.seq() == text@,
            n == text@.len(),
            i == it.index(),
            i <= n,
            !seen ==> forall|k: int| 0 <= k < i ==> is_white_space(#[trigger] text@[k]),
            seen ==> start < end <= i,
            seen ==> !is_white_space(text@[start as int]) && !is_white_space(text@[end - 1]),
            seen ==> forall|k: int| 0 <= k < start ==> is_white_space(#[trigger] text@[k]),
            seen ==> forall|k: int| end <= k < i ==> is_white_space(#[trigger] text@[k]),
    {
        if !is_white_space_char(c) {
            if !seen {
                start = i;
                seen = true;
            }
            end = i + 1;
        }
        i += 1;
    }
    if !seen {
        proof {
            lemma_trim_start(text@, n as int);
            assert(text@.subrange(n as int, n as int) =~= Seq::<char>::empty());
        }
        return String::new();
    }
    proof {
        lemma_trim_start(text@, start as int);
        let tail = text@.subrange(start as int, n as int);
        lemma_trim_end(tail, end - start);
        assert(tail.subrange(0, end - start) =~= text@.subrange(start as int, end as int));
    }
    text.substring_char(start, end).to_owned()
}

/// `text` in lower case: what `str::to_lowercase` of the standard
/// library returns for it. The mapping is that of the Unicode character
/// database and is not written out here.
pub uninterp spec fn lowercased(text: Seq<char>) -> Seq<char>;

/// `text` in upper case: what `str::to_uppercase` of the standard
/// library returns for it.
pub uninterp spec fn uppercased(text: Seq<char>) -> Seq<char>;

/// Calls `str::to_lowercase` of the standard library. Trusted: the
/// result depends on the text alone, so it is given the name
/// [`lowercased`]; nothing else is claimed of it.
#[verifier::external_body]
pub(crate) fn lowercase(text: &str) -> (r: String)
    ensures
        r@ == lowercased(text@),
{
    text.to_lowercase()
}

/// Calls `str::to_uppercase` of the standard library. Trusted: the
/// result depends on the text alone, so it is given the name
/// [`uppercased`]; nothing else is claimed of it.
#[verifier::external_body]
pub(crate) fn uppercase(text: &str) -> (r: String)
    ensures
        r@ == uppercased(text@),
{
    text.to_uppercase()
}

/// Whether two texts hold the same characters.
pub fn text_eq(a: &str, b: &str) -> (r: bool)
    ensures
        r == (a@ == b@),
{
    a.to_owned() == b.to_owned()
}

/// The character for the decimal digit `d`.
pub open spec fn digit(d: int) -> char {
    ('0' as u8 + d) as char
}

/// `n` written out in decimal, without leading zeros.
pub open spec fn decimal(n: nat) -> Seq<char>
    decreases n,
{
    if n < 10 {
        seq![digit(n as int)]
    } else {
        decimal(n / 10).push(digit((n % 10) as int))
    }
}

/// Appends `n`, written out in decimal, to `out`.
pub fn push_decimal(out: &mut String, n: u64)
    ensures
        final(out)@ == old(out)@ + decimal(n as nat),
    decreases n,
{
    if n >= 10 {
        push_decimal(out, n / 10);
    }
    let last: u8 = (n % 10) as u8;
    out.push((48u8 + last) as char);
    assert(final(out)@ =~= old(out)@ + decimal(n as nat));
}

/// `n` written out in decimal.
pub fn to_decimal(n: u64) -> (r: String)
    ensures
        r@ == decimal(n as nat),
{
    let mut out = String::new();
    push_decimal(&mut out, n);
    assert(out@ =~= decimal(n as nat));
    out
}

} // verus!
