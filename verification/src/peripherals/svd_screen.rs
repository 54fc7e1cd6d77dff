//! The device-description texts that the bus layout hands to the SVD
//! parser. A few element shapes send that parser down a path that does not
//! return normally: a `writeConstraint` without a child element (an
//! `unwrap` on its first child), a bit range whose most significant bit is
//! `u32::MAX` with least significant bit 0 (an overflowing width), and a
//! `dimIndex` range that spells out billions of names. Texts that could
//! hold one of them are screened out first. The screen is purely textual,
//! so it also turns away a few unusual spellings that the parser would
//! read fine: namespaced or attributed forms of these elements, white
//! space around their numbers, a comment before the first constraint, and
//! entity declarations.
use vstd::prelude::*;
use crate::text::{chars_of, contains, occurs_at, spec_contains};

verus! {

pub open spec fn is_xml_space(c: char) -> bool {
    c == ' ' || c == '\t' || c == '\n' || c == '\r'
}

pub open spec fn is_ascii_letter(c: char) -> bool {
    ('a' <= c && c <= 'z') || ('A' <= c && c <= 'Z')
}

pub open spec fn is_dec_digit(c: char) -> bool {
    '0' <= c && c <= '9'
}

/// The first position at or after `k` that holds no XML white space.
pub open spec fn skip_space(s: Seq<char>, k: int) -> int
    decreases s.len() - k,
{
    if 0 <= k < s.len() && is_xml_space(s[k]) {
        skip_space(s, k + 1)
    } else {
        k
    }
}

/// The first position at or after `k` that holds no decimal digit.
pub open spec fn digits_end(s: Seq<char>, k: int) -> int
    decreases s.len() - k,
{
    if 0 <= k < s.len() && is_dec_digit(s[k]) {
        digits_end(s, k + 1)
    } else {
        k
    }
}

/// The first position at or after `k` that starts markup or a reference
/// (`<` or `&`), or the end of the text.
pub open spec fn text_end(s: Seq<char>, k: int) -> int
    decreases s.len() - k,
{
    if 0 <= k < s.len() && s[k] != '<' && s[k] != '&' {
        text_end(s, k + 1)
    } else {
        k
    }
}

/// An end tag starts at `e`.
pub open spec fn closes_at(s: Seq<char>, e: int) -> bool {
    0 <= e && e + 1 < s.len() && s[e] == '<' && s[e + 1] == '/'
}

/// Between `a` and `e` there is a digit run of at most two digits.
pub open spec fn small_number(s: Seq<char>, a: int) -> bool {
    let e = digits_end(s, a);
    a + 1 <= e && e <= a + 2
}

pub open spec fn five_digits_at(s: Seq<char>, m: int) -> bool {
    &&& is_dec_digit(s[m])
    &&& is_dec_digit(s[m + 1])
    &&& is_dec_digit(s[m + 2])
    &&& is_dec_digit(s[m + 3])
    &&& is_dec_digit(s[m + 4])
}

/// No run of five or more decimal digits lies between `a` and `e`.
pub open spec fn short_digit_runs(s: Seq<char>, a: int, e: int) -> bool {
    forall|m: int| a <= m && m + 5 <= e ==> !#[trigger] five_digits_at(s, m)
}

/// What the text of each screened element must look like.
#[derive(Clone, Copy, PartialEq, Eq, Debug)]
pub enum ContentRule {
    /// After the start tag, white space and then a child element.
    ChildElement,
    /// A number of one or two digits, then the end tag.
    SmallNumber,
    /// `[msb:lsb]` with one or two digits each, then the end tag.
    BitRange,
    /// Plain text with no run of five digits, then the end tag.
    IndexList,
}

/// The start tag whose name ends before `j` closes at `j` and the element
/// content that follows it satisfies `rule`.
pub open spec fn content_ok(s: Seq<char>, j: int, rule: ContentRule) -> bool {
    &&& 0 <= j < s.len()
    &&& s[j] == '>'
    &&& match rule {
        ContentRule::ChildElement => {
            let k = skip_space(s, j + 1);
            k + 1 < s.len() && s[k] == '<' && is_ascii_letter(s[k + 1])
        },
        ContentRule::SmallNumber => small_number(s, j + 1) && closes_at(
            s,
            digits_end(s, j + 1),
        ),
        ContentRule::BitRange => {
            let e1 = digits_end(s, j + 2);
            let e2 = digits_end(s, e1 + 1);
            &&& j + 1 < s.len()
            &&& s[j + 1] == '['
            &&& small_number(s, j + 2)
            &&& e1 < s.len()
            &&& s[e1] == ':'
            &&& small_number(s, e1 + 1)
            &&& e2 < s.len()
            &&& s[e2] == ']'
            &&& closes_at(s, e2 + 1)
        },
        ContentRule::IndexList => {
            let e = text_end(s, j + 1);
            closes_at(s, e) && short_digit_runs(s, j + 1, e)
        },
    }
}

/// `w` occurs at `i` as an element name: right after `<`, or after the
/// `:` of a namespace prefix.
pub open spec fn names_element_at(s: Seq<char>, i: int, w: Seq<char>) -> bool {
    &&& 1 <= i
    &&& i + w.len() <= s.len()
    &&& s.subrange(i, i + w.len()) == w
    &&& (s[i - 1] == '<' || s[i - 1] == ':')
}

/// Every element named `w` is followed by content that satisfies `rule`.
pub open spec fn every_element_ok(s: Seq<char>, w: Seq<char>, rule: ContentRule) -> bool {
    forall|i: int| #[trigger] names_element_at(s, i, w) ==> content_ok(s, i + w.len(), rule)
}

/// The text declares no entity, every `writeConstraint` opens with a child
/// element, every `msb` and `bitRange` holds bit numbers of at most two
/// digits, and no `dimIndex` holds a number of five digits or more.
pub open spec fn spec_svd_screened(s: Seq<char>) -> bool {
    &&& !spec_contains(s, "<!ENTITY"@)
    &&& every_element_ok(s, "writeConstraint"@, ContentRule::ChildElement)
    &&& every_element_ok(s, "msb"@, ContentRule::SmallNumber)
    &&& every_element_ok(s, "bitRange"@, ContentRule::BitRange)
    &&& every_element_ok(s, "dimIndex"@, ContentRule::IndexList)
}

fn skip_space_from(s: &Vec<char>, k: usize) -> (r: usize)
    requires
        k <= s@.len(),
    ensures
        r == skip_space(s@, k as int),
        k <= r <= s@.len(),
{
    let mut m = k;
    while m < s.len() && (s[m] == ' ' || s[m] == '\t' || s[m] == '\n' || s[m] == '\r')
        invariant
            k <= m <= s@.len(),
            skip_space(s@, k as int) == skip_space(s@, m as int),
        decreases s@.len() - m,
    {
        m += 1;
    }
    m
}

fn digits_end_from(s: &Vec<char>, k: usize) -> (r: usize)
    requires
        k <= s@.len(),
    ensures
        r == digits_end(s@, k as int),
        k <= r <= s@.len(),
{
    let mut m = k;
    while m < s.len() && '0' <= s[m] && s[m] <= '9'
        invariant
            k <= m <= s@.len(),
            digits_end(s@, k as int) == digits_end(s@, m as int),
        decreases s@.len() - m,
    {
        m += 1;
    }
    m
}

fn text_end_from(s: &Vec<char>, k: usize) -> (r: usize)
    requires
        k <= s@.len(),
    ensures
        r == text_end(s@, k as int),
        k <= r <= s@.len(),
{
    let mut m = k;
    while m < s.len() && s[m] != '<' && s[m] != '&'
        invariant
            k <= m <= s@.len(),
            text_end(s@, k as int) == text_end(s@, m as int),
        decreases s@.len() - m,
    {
        m += 1;
    }
    m
}

fn closes_at_exec(s: &Vec<char>, e: usize) -> (r: bool)
    ensures
        r == closes_at(s@, e as int),
{
    e < s.len() && s.len() - e > 1 && s[e] == '<' && s[e + 1] == '/'
}

fn small_number_at(s: &Vec<char>, a: usize) -> (r: (bool, usize))
    requires
        a <= s@.len(),
    ensures
        r.0 == small_number(s@, a as int),
        r.1 == digits_end(s@, a as int),
        r.1 <= s@.len(),
{
    let e = digits_end_from(s, a);
    (a < e && e - a <= 2, e)
}

fn short_digit_runs_exec(s: &Vec<char>, a: usize, e: usize) -> (r: bool)
    requires
        a <= e <= s@.len(),
    ensures
        r == short_digit_runs(s@, a as int, e as int),
{
    let mut m = a;
    while e - m >= 5
        invariant
            a <= m <= e,
            e <= s@.len(),
            forall|q: int| a <= q < m && q + 5 <= e ==> !#[trigger] five_digits_at(s@, q),
        decreases e - m,
    {
        let d0 = '0' <= s[m] && s[m] <= '9';
        let d1 = '0' <= s[m + 1] && s[m + 1] <= '9';
        let d2 = '0' <= s[m + 2] && s[m + 2] <= '9';
        let d3 = '0' <= s[m + 3] && s[m + 3] <= '9';
        let d4 = '0' <= s[m + 4] && s[m + 4] <= '9';
        if d0 && d1 && d2 && d3 && d4 {
            assert(five_digits_at(s@, m as int));
            return false;
        }
        m += 1;
    }
    true
}

fn content_ok_exec(s: &Vec<char>, j: usize, rule: ContentRule) -> (r: bool)
    ensures
        r == content_ok(s@, j as int, rule),
{
    if j >= s.len() || s[j] != '>' {
        return false;
    }
    match rule {
        ContentRule::ChildElement => {
            let k = skip_space_from(s, j + 1);
            k < s.len() && s.len() - k > 1 && s[k] == '<' && (('a' <= s[k + 1] && s[k + 1]
                <= 'z') || ('A' <= s[k + 1] && s[k + 1] <= 'Z'))
        },
        ContentRule::SmallNumber => {
            let (ok, e) = small_number_at(s, j + 1);
            ok && closes_at_exec(s, e)
        },
        ContentRule::BitRange => {
            if j + 1 >= s.len() || s[j + 1] != '[' {
                return false;
            }
            let (ok1, e1) = small_number_at(s, j + 2);
            if !ok1 || e1 >= s.len() || s[e1] != ':' {
                return false;
            }
            let (ok2, e2) = small_number_at(s, e1 + 1);
            if !ok2 || e2 >= s.len() || s[e2] != ']' {
                return false;
            }
            closes_at_exec(s, e2 + 1)
        },
        ContentRule::IndexList => {
            let e = text_end_from(s, j + 1);
            closes_at_exec(s, e) && short_digit_runs_exec(s, j + 1, e)
        },
    }
}

fn every_element_ok_exec(s: &Vec<char>, w: &Vec<char>, rule: ContentRule) -> (r: bool)
    requires
        w@.len() > 0,
    ensures
        r == every_element_ok(s@, w@, rule),
{
    if w.len() >= s.len() {
        assert forall|i: int| !#[trigger] names_element_at(s@, i, w@) by {}
        return true;
    }
    let slen = s.len();
    let last = slen - w.len();
    let mut i: usize = 1;
    while i <= last
        invariant
            slen == s@.len(),
            last == s@.len() - w@.len(),
            0 < w@.len() < s@.len(),
            1 <= i <= last + 1,
            forall|q: int|
                1 <= q < i && #[trigger] names_element_at(s@, q, w@) ==> content_ok(
                    s@,
                    q + w@.len(),
                    rule,
                ),
        decreases last + 1 - i,
    {
        if (s[i - 1] == '<' || s[i - 1] == ':') && occurs_at(s, w, i) {
            assert(names_element_at(s@, i as int, w@));
            if !content_ok_exec(s, i + w.len(), rule) {
                return false;
            }
        }
        i += 1;
    }
    assert forall|q: int| #[trigger] names_element_at(s@, q, w@) implies content_ok(
        s@,
        q + w@.len(),
        rule,
    ) by {
        assert(1 <= q < i);
    }
    true
}

/// Whether the device description passes the screen that keeps the SVD
/// parser off its non-returning paths.
pub fn svd_text_screened(xml: &str) -> (r: bool)
    ensures
        r == spec_svd_screened(xml@),
{
    if contains(xml, "<!ENTITY") {
        return false;
    }
    proof {
        reveal_strlit("writeConstraint");
        reveal_strlit("msb");
        reveal_strlit("bitRange");
        reveal_strlit("dimIndex");
    }
    let s = chars_of(xml);
    let write_constraint = chars_of("writeConstraint");
    let msb = chars_of("msb");
    let bit_range = chars_of("bitRange");
    let dim_index = chars_of("dimIndex");
    every_element_ok_exec(&s, &write_constraint, ContentRule::ChildElement)
        && every_element_ok_exec(&s, &msb, ContentRule::SmallNumber)
        && every_element_ok_exec(&s, &bit_range, ContentRule::BitRange)
        && every_element_ok_exec(&s, &dim_index, ContentRule::IndexList)
}

} // verus!
