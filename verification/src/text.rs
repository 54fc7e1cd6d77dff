use vstd::prelude::*;
use vstd::string::StrSliceExecFns;

verus! {

broadcast use vstd::string::group_string_axioms;

/// The characters of `s`, in order.
pub fn chars_of(s: &str) -> (v: Vec<char>)
    ensures
        v@ == s@,
{
    let mut v: Vec<char> = Vec::new();
    for c in it: s.chars()
        invariant
            v@ == it.seq().take(it.index() as int),
            it.seq() == s@,
    {
        v.push(c);
    }
    v
}

} // verus!

verus! {

/// Whether two strings hold the same characters.
pub fn str_eq(a: &str, b: &str) -> (r: bool)
    ensures
        r == (a@ == b@),
{
    let x = chars_of(a);
    let y = chars_of(b);
    if x.len() != y.len() {
        return false;
    }
    let mut i: usize = 0;
    while i < x.len()
        invariant
            x@ == a@,
            y@ == b@,
            x@.len() == y@.len(),
            i <= x@.len(),
            forall|j: int| 0 <= j < i ==> x@[j] == y@[j],
        decreases x@.len() - i,
    {
        if x[i] != y[i] {
            return false;
        }
        i += 1;
    }
    assert(x@ =~= y@);
    true
}

/// Whether `prefix` is a prefix of `s`.
pub open spec fn is_prefix(prefix: Seq<char>, s: Seq<char>) -> bool {
    prefix.len() <= s.len() && s.subrange(0, prefix.len() as int) == prefix
}

/// Whether `s` begins with `prefix`.
pub fn starts_with(s: &str, prefix: &str) -> (r: bool)
    ensures
        r == is_prefix(prefix@, s@),
{
    let x = chars_of(s);
    let p = chars_of(prefix);
    if p.len() > x.len() {
        return false;
    }
    let mut i: usize = 0;
    while i < p.len()
        invariant
            x@ == s@,
            p@ == prefix@,
            p@.len() <= x@.len(),
            i <= p@.len(),
            forall|j: int| 0 <= j < i ==> x@[j] == p@[j],
        decreases p@.len() - i,
    {
        if x[i] != p[i] {
            assert(s@.subrange(0, prefix@.len() as int)[i as int] != prefix@[i as int]);
            return false;
        }
        i += 1;
    }
    assert(s@.subrange(0, prefix@.len() as int) =~= prefix@);
    true
}

} // verus!

verus! {

/// Unicode `White_Space`, the set that `char::is_whitespace` and
/// `str::trim` use.
pub open spec fn spec_is_whitespace(c: char) -> bool {
    let u = c as u32;
    (0x09 <= u && u <= 0x0d) || u == 0x20 || u == 0x85 || u == 0xa0 || u == 0x1680 || (0x2000
        <= u && u <= 0x200a) || u == 0x2028 || u == 0x2029 || u == 0x202f || u == 0x205f || u
        == 0x3000
}

pub fn is_whitespace(c: char) -> (r: bool)
    ensures
        r == spec_is_whitespace(c),
{
    let u = c as u32;
    (0x09 <= u && u <= 0x0d) || u == 0x20 || u == 0x85 || u == 0xa0 || u == 0x1680 || (0x2000
        <= u && u <= 0x200a) || u == 0x2028 || u == 0x2029 || u == 0x202f || u == 0x205f || u
        == 0x3000
}

/// `s` without leading and trailing whitespace: the bounds `(start, end)`
/// such that everything outside them is whitespace and, when the result is
/// not empty, its first and last characters are not.
pub open spec fn is_trim_of(s: Seq<char>, start: int, end: int) -> bool {
    &&& 0 <= start <= end <= s.len()
    &&& forall|i: int| 0 <= i < start ==> spec_is_whitespace(#[trigger] s[i])
    &&& forall|i: int| end <= i < s.len() ==> spec_is_whitespace(#[trigger] s[i])
    &&& start < end ==> !spec_is_whitespace(s[start]) && !spec_is_whitespace(s[end - 1])
    &&& start == end ==> forall|i: int| 0 <= i < s.len() ==> spec_is_whitespace(#[trigger] s[i])
}

/// Index of the first non-whitespace character at or after `i`.
pub open spec fn lead(s: Seq<char>, i: int) -> int
    decreases s.len() - i,
{
    if i >= s.len() {
        s.len() as int
    } else if spec_is_whitespace(s[i]) {
        lead(s, i + 1)
    } else {
        i
    }
}

/// End of the text before trailing whitespace, looking back from `j` but
/// not past `start`.
pub open spec fn trail(s: Seq<char>, j: int, start: int) -> int
    decreases j - start,
{
    if j <= start {
        start
    } else if spec_is_whitespace(s[j - 1]) {
        trail(s, j - 1, start)
    } else {
        j
    }
}

/// `s` without leading and trailing whitespace, as `str::trim` gives it.
pub open spec fn spec_trim(s: Seq<char>) -> Seq<char> {
    let a = lead(s, 0);
    s.subrange(a, trail(s, s.len() as int, a))
}

/// The bounds of `s` without surrounding whitespace.
pub fn trim_bounds(s: &Vec<char>) -> (r: (usize, usize))
    ensures
        is_trim_of(s@, r.0 as int, r.1 as int),
        r.0 == lead(s@, 0),
        r.1 == trail(s@, s@.len() as int, r.0 as int),
{
    let mut start: usize = 0;
    while start < s.len() && is_whitespace(s[start])
        invariant
            start <= s@.len(),
            forall|i: int| 0 <= i < start ==> spec_is_whitespace(#[trigger] s@[i]),
            lead(s@, 0) == lead(s@, start as int),
        decreases s@.len() - start,
    {
        start += 1;
    }
    let mut end: usize = s.len();
    while end > start && is_whitespace(s[end - 1])
        invariant
            start <= end <= s@.len(),
            forall|i: int| 0 <= i < start ==> spec_is_whitespace(#[trigger] s@[i]),
            forall|i: int| end <= i < s@.len() ==> spec_is_whitespace(#[trigger] s@[i]),
            start < s@.len() ==> !spec_is_whitespace(s@[start as int]),
            lead(s@, 0) == start,
            trail(s@, s@.len() as int, start as int) == trail(s@, end as int, start as int),
        decreases end - start,
    {
        end -= 1;
    }
    (start, end)
}

/// Value of a string of decimal digits.
pub open spec fn digits_value(s: Seq<char>) -> int
    decreases s.len(),
{
    if s.len() == 0 {
        0
    } else {
        digits_value(s.drop_last()) * 10 + (s.last() as int - '0' as int)
    }
}

pub open spec fn is_digit(c: char) -> bool {
    '0' <= c && c <= '9'
}

pub open spec fn all_digits(s: Seq<char>) -> bool {
    forall|i: int| 0 <= i < s.len() ==> is_digit(#[trigger] s[i])
}

proof fn lemma_digits_value_nonneg(s: Seq<char>)
    requires
        all_digits(s),
    ensures
        digits_value(s) >= 0,
    decreases s.len(),
{
    if s.len() > 0 {
        assert(all_digits(s.drop_last()));
        lemma_digits_value_nonneg(s.drop_last());
    }
}

proof fn lemma_digits_value_prefix(s: Seq<char>, i: int)
    requires
        all_digits(s),
        0 <= i <= s.len(),
    ensures
        digits_value(s.take(i)) <= digits_value(s),
    decreases s.len() - i,
{
    if i < s.len() {
        lemma_digits_value_prefix(s, i + 1);
        let t = s.take(i + 1);
        assert(t.drop_last() =~= s.take(i));
        assert(all_digits(s.take(i)));
        lemma_digits_value_nonneg(s.take(i));
        assert(is_digit(t.last()));
    } else {
        assert(s.take(i) =~= s);
    }
}

/// Decimal value of `s[from..]` when every character is a digit, there is
/// at least one, and the value is at most `limit`.
pub open spec fn spec_parse_digits(s: Seq<char>, limit: int) -> Option<int> {
    if s.len() == 0 || !all_digits(s) || digits_value(s) > limit {
        None
    } else {
        Some(digits_value(s))
    }
}

/// Parses `s[from..]` as decimal digits, refusing values above `limit`.
pub fn parse_digits_from(s: &Vec<char>, from: usize, limit: u64) -> (r: Option<u64>)
    requires
        from <= s@.len(),
        limit < 0x1_0000_0000_0000,
    ensures
        r matches Some(v) ==> spec_parse_digits(s@.skip(from as int), limit as int) == Some(
            v as int,
        ),
        r is None ==> spec_parse_digits(s@.skip(from as int), limit as int) is None,
{
    let ghost body = s@.skip(from as int);
    if from == s.len() {
        return None;
    }
    let mut acc: u64 = 0;
    let mut i: usize = from;
    while i < s.len()
        invariant
            from <= i <= s@.len(),
            body == s@.skip(from as int),
            limit < 0x1_0000_0000_0000,
            all_digits(body.take(i - from)),
            acc as int == digits_value(body.take(i - from)),
            acc <= limit,
        decreases s@.len() - i,
    {
        let c = s[i];
        if !('0' <= c && c <= '9') {
            proof {
                assert(body[i - from] == c);
            }
            return None;
        }
        let d = (c as u32 - '0' as u32) as u64;
        let next = acc * 10 + d;
        proof {
            let t = body.take(i - from + 1);
            assert(t.drop_last() =~= body.take(i - from));
            assert(t.last() == c);
            assert(all_digits(t));
        }
        if next > limit {
            proof {
                let t = body.take(i - from + 1);
                assert(body.take(i - from + 1) =~= body.take(i - from + 1));
                if all_digits(body) {
                    lemma_digits_value_prefix(body, i - from + 1);
                }
            }
            return None;
        }
        acc = next;
        i += 1;
    }
    proof {
        assert(body.take(i - from) =~= body);
    }
    Some(acc)
}

/// What `str::parse::<u16>` accepts: an optional `+`, then one or more
/// decimal digits whose value fits in 16 bits.
pub open spec fn spec_parse_u16(s: Seq<char>) -> Option<u16> {
    let body = if s.len() > 0 && s[0] == '+' { s.skip(1) } else { s };
    match spec_parse_digits(body, 0xffff) {
        Some(v) => Some(v as u16),
        None => None,
    }
}

/// What `str::parse::<i32>` accepts: an optional `+` or `-`, then one or
/// more decimal digits whose signed value fits in 32 bits.
pub open spec fn spec_parse_i32(s: Seq<char>) -> Option<i32> {
    let neg = s.len() > 0 && s[0] == '-';
    let body = if s.len() > 0 && (s[0] == '+' || s[0] == '-') { s.skip(1) } else { s };
    match spec_parse_digits(body, if neg { 0x8000_0000 } else { 0x7fff_ffff }) {
        Some(v) => Some((if neg { -v } else { v }) as i32),
        None => None,
    }
}

pub fn parse_u16(s: &Vec<char>) -> (r: Option<u16>)
    ensures
        r == spec_parse_u16(s@),
{
    let from: usize = if s.len() > 0 && s[0] == '+' { 1 } else { 0 };
    assert(s@.skip(0) =~= s@);
    match parse_digits_from(s, from, 0xffff) {
        Some(v) => Some(v as u16),
        None => None,
    }
}

pub fn parse_i32(s: &Vec<char>) -> (r: Option<i32>)
    ensures
        r == spec_parse_i32(s@),
{
    let neg = s.len() > 0 && s[0] == '-';
    let from: usize = if s.len() > 0 && (s[0] == '+' || s[0] == '-') { 1 } else { 0 };
    assert(s@.skip(0) =~= s@);
    let limit: u64 = if neg { 0x8000_0000 } else { 0x7fff_ffff };
    match parse_digits_from(s, from, limit) {
        Some(v) => {
            if neg {
                Some((0 - (v as i64)) as i32)
            } else {
                Some(v as i32)
            }
        },
        None => None,
    }
}

} // verus!

verus! {

pub open spec fn digit_char(d: nat) -> char {
    (('0' as nat) + d) as char
}

/// Decimal representation of `v`, without leading zeros.
pub open spec fn decimal(v: nat) -> Seq<char>
    decreases v,
{
    if v < 10 {
        seq![digit_char(v)]
    } else {
        decimal(v / 10) + seq![digit_char(v % 10)]
    }
}

/// The one-character string holding digit `d`.
pub fn digit_str(d: u32) -> (s: &'static str)
    requires
        d < 10,
    ensures
        s@ == seq![digit_char(d as nat)],
{
    proof {
        reveal_strlit("0");
        reveal_strlit("1");
        reveal_strlit("2");
        reveal_strlit("3");
        reveal_strlit("4");
        reveal_strlit("5");
        reveal_strlit("6");
        reveal_strlit("7");
        reveal_strlit("8");
        reveal_strlit("9");
    }
    let s = if d == 0 {
        "0"
    } else if d == 1 {
        "1"
    } else if d == 2 {
        "2"
    } else if d == 3 {
        "3"
    } else if d == 4 {
        "4"
    } else if d == 5 {
        "5"
    } else if d == 6 {
        "6"
    } else if d == 7 {
        "7"
    } else if d == 8 {
        "8"
    } else {
        "9"
    };
    assert(s@ =~= seq![digit_char(d as nat)]);
    s
}

/// Appends the decimal representation of `v`.
pub fn push_decimal(out: &mut String, v: u32)
    ensures
        final(out)@ == old(out)@ + decimal(v as nat),
    decreases v,
{
    if v < 10 {
        out.append(digit_str(v));
    } else {
        push_decimal(out, v / 10);
        out.append(digit_str(v % 10));
        assert(old(out)@ + decimal(v as nat) =~= old(out)@ + decimal((v / 10) as nat) + seq![
            digit_char((v % 10) as nat),
        ]);
    }
}

pub proof fn lemma_decimal_digits(v: nat)
    ensures
        all_digits(decimal(v)),
        decimal(v).len() > 0,
        digits_value(decimal(v)) == v,
    decreases v,
{
    let s = decimal(v);
    assert(digit_char(v % 10) as int == '0' as int + v % 10);
    if v >= 10 {
        lemma_decimal_digits(v / 10);
        assert(s.drop_last() =~= decimal(v / 10));
        assert(s.last() == digit_char(v % 10));
        assert(v == (v / 10) * 10 + v % 10) by (nonlinear_arith);
        assert(digits_value(s.drop_last()) == v / 10);
        assert(digits_value(s) == v);
        assert forall|i: int| 0 <= i < s.len() implies is_digit(#[trigger] s[i]) by {
            if i < s.len() - 1 {
                assert(s[i] == decimal(v / 10)[i]);
            }
        }
    } else {
        assert(s.drop_last() =~= Seq::<char>::empty());
        assert(digits_value(s.drop_last()) == 0);
        assert(s.last() == digit_char(v));
        assert(v % 10 == v);
        assert(digits_value(s) == v);
    }
}

/// Reading back a decimal representation gives the number.
pub proof fn law_decimal_parses_back_u16(v: u16)
    ensures
        spec_parse_u16(decimal(v as nat)) == Some(v),
{
    lemma_decimal_digits(v as nat);
    let s = decimal(v as nat);
    assert(is_digit(s[0]));
    assert(s.skip(0) =~= s);
}

} // verus!

verus! {

/// The text `String::from_utf8_lossy` makes of `bytes`: invalid sequences
/// become U+FFFD.
pub uninterp spec fn utf8_lossy(bytes: Seq<u8>) -> Seq<char>;

pub open spec fn is_ascii_bytes(bytes: Seq<u8>) -> bool {
    forall|i: int| 0 <= i < bytes.len() ==> #[trigger] bytes[i] < 128
}

/// `String::from_utf8_lossy` on `bytes`. Its result is a function of the
/// bytes alone; ASCII bytes decode to the characters with the same codes.
/// What it makes of other bytes is not stated here.
#[verifier::external_body]
pub(crate) fn decode_utf8_lossy(bytes: &[u8]) -> (s: String)
    ensures
        s@ == utf8_lossy(bytes@),
        is_ascii_bytes(bytes@) ==> s@ == Seq::new(bytes@.len(), |i: int| bytes@[i] as char),
{
    String::from_utf8_lossy(bytes).into_owned()
}

/// What `str::to_lowercase` makes of a string.
pub uninterp spec fn lowercase_of(s: Seq<char>) -> Seq<char>;

/// `str::to_lowercase` on `s`: each character's lowercase mapping by the
/// standard library's Unicode tables. The result is a function of the
/// string alone; the mapping itself is not stated here.
#[verifier::external_body]
pub(crate) fn to_lowercase(s: &str) -> (r: String)
    ensures
        r@ == lowercase_of(s@),
{
    s.to_lowercase()
}

/// `needle` occurs in `hay` as a run of consecutive characters.
pub open spec fn spec_contains(hay: Seq<char>, needle: Seq<char>) -> bool {
    exists|i: int| 0 <= i && i + needle.len() <= hay.len() && #[trigger] hay.subrange(i, i + needle.len()) == needle
}

pub(crate) fn occurs_at(h: &Vec<char>, n: &Vec<char>, i: usize) -> (r: bool)
    requires
        i + n@.len() <= h@.len(),
    ensures
        r == (h@.subrange(i as int, i + n@.len()) == n@),
{
    let hl = h.len();
    let mut j: usize = 0;
    while j < n.len()
        invariant
            hl == h@.len(),
            j <= n@.len(),
            i + n@.len() <= h@.len(),
            forall|m: int| 0 <= m < j ==> h@[i + m] == n@[m],
        decreases n@.len() - j,
    {
        if h[i + j] != n[j] {
            assert(h@.subrange(i as int, i + n@.len())[j as int] != n@[j as int]);
            return false;
        }
        j += 1;
    }
    assert(h@.subrange(i as int, i + n@.len()) =~= n@);
    true
}

/// Whether `needle` occurs in `hay`.
pub fn contains(hay: &str, needle: &str) -> (r: bool)
    ensures
        r == spec_contains(hay@, needle@),
{
    let h = chars_of(hay);
    let n = chars_of(needle);
    if n.len() > h.len() {
        return false;
    }
    let last = h.len() - n.len();
    let mut i: usize = 0;
    loop
        invariant
            last == h@.len() - n@.len(),
            h@ == hay@,
            n@ == needle@,
            i <= last,
            forall|k: int| 0 <= k < i ==> #[trigger] h@.subrange(k, k + n@.len()) != n@,
        decreases last - i,
    {
        if occurs_at(&h, &n, i) {
            return true;
        }
        if i == last {
            assert forall|k: int| 0 <= k && k + needle@.len() <= hay@.len() implies #[trigger] hay@.subrange(
                k,
                k + needle@.len(),
            ) != needle@ by {
                if k < i {
                    assert(h@.subrange(k, k + n@.len()) != n@);
                }
            }
            return false;
        }
        i += 1;
    }
}

/// The characters of `s` between `start` and `end`, as a new string.
pub fn substring(s: &str, start: usize, end: usize) -> (r: String)
    requires
        start <= end <= s@.len(),
    ensures
        r@ == s@.subrange(start as int, end as int),
{
    s.substring_char(start, end).to_owned()
}

/// `s` with surrounding whitespace removed.
pub fn trim(s: &str) -> (r: String)
    ensures
        r@ == spec_trim(s@),
{
    let v = chars_of(s);
    let (a, b) = trim_bounds(&v);
    substring(s, a, b)
}

} // verus!

verus! {

pub open spec fn is_hex_digit(c: char) -> bool {
    ('0' <= c && c <= '9') || ('a' <= c && c <= 'f') || ('A' <= c && c <= 'F')
}

pub open spec fn hex_digit_value(c: char) -> int {
    if '0' <= c && c <= '9' {
        c as int - '0' as int
    } else if 'a' <= c && c <= 'f' {
        c as int - 'a' as int + 10
    } else {
        c as int - 'A' as int + 10
    }
}

/// Value of a string of hexadecimal digits.
pub open spec fn hex_value(s: Seq<char>) -> int
    decreases s.len(),
{
    if s.len() == 0 {
        0
    } else {
        hex_value(s.drop_last()) * 16 + hex_digit_value(s.last())
    }
}

pub open spec fn all_hex_digits(s: Seq<char>) -> bool {
    forall|i: int| 0 <= i < s.len() ==> is_hex_digit(#[trigger] s[i])
}

proof fn lemma_hex_value_prefix(s: Seq<char>, i: int)
    requires
        all_hex_digits(s),
        0 <= i <= s.len(),
    ensures
        0 <= hex_value(s.take(i)) <= hex_value(s),
    decreases s.len() - i,
{
    if i < s.len() {
        lemma_hex_value_prefix(s, i + 1);
        let t = s.take(i + 1);
        assert(t.drop_last() =~= s.take(i));
        assert(is_hex_digit(t.last()));
    } else {
        assert(s.take(i) =~= s);
        lemma_hex_value_nonneg(s);
    }
}

proof fn lemma_hex_value_nonneg(s: Seq<char>)
    requires
        all_hex_digits(s),
    ensures
        hex_value(s) >= 0,
    decreases s.len(),
{
    if s.len() > 0 {
        assert(all_hex_digits(s.drop_last()));
        lemma_hex_value_nonneg(s.drop_last());
        assert(is_hex_digit(s.last()));
    }
}

/// What `u32::from_str_radix(s, 16)` accepts: an optional `+`, then one
/// or more hexadecimal digits whose value fits in 32 bits.
pub open spec fn spec_parse_hex_u32(s: Seq<char>) -> Option<u32> {
    let body = if s.len() > 0 && s[0] == '+' { s.skip(1) } else { s };
    if body.len() == 0 || !all_hex_digits(body) || hex_value(body) > 0xffff_ffff {
        None
    } else {
        Some(hex_value(body) as u32)
    }
}

/// What `str::parse::<u32>` accepts: an optional `+`, then one or more
/// decimal digits whose value fits in 32 bits.
pub open spec fn spec_parse_u32(s: Seq<char>) -> Option<u32> {
    let body = if s.len() > 0 && s[0] == '+' { s.skip(1) } else { s };
    match spec_parse_digits(body, 0xffff_ffff) {
        Some(v) => Some(v as u32),
        None => None,
    }
}

pub fn parse_u32(s: &Vec<char>) -> (r: Option<u32>)
    ensures
        r == spec_parse_u32(s@),
{
    let from: usize = if s.len() > 0 && s[0] == '+' { 1 } else { 0 };
    assert(s@.skip(0) =~= s@);
    match parse_digits_from(s, from, 0xffff_ffff) {
        Some(v) => Some(v as u32),
        None => None,
    }
}

/// Parses `s[from..]` as hexadecimal with an optional leading `+`.
pub fn parse_hex_u32_from(s: &Vec<char>, from: usize) -> (r: Option<u32>)
    requires
        from <= s@.len(),
    ensures
        r == spec_parse_hex_u32(s@.skip(from as int)),
{
    let ghost t = s@.skip(from as int);
    let start: usize = if from < s.len() && s[from] == '+' { from + 1 } else { from };
    let ghost body = s@.skip(start as int);
    assert(body =~= if t.len() > 0 && t[0] == '+' { t.skip(1) } else { t });
    if start == s.len() {
        return None;
    }
    let mut acc: u64 = 0;
    let mut i: usize = start;
    while i < s.len()
        invariant
            start <= i <= s@.len(),
            body == s@.skip(start as int),
            t == s@.skip(from as int),
            body == (if t.len() > 0 && t[0] == '+' { t.skip(1) } else { t }),
            all_hex_digits(body.take(i - start)),
            acc as int == hex_value(body.take(i - start)),
            acc <= 0xffff_ffff,
        decreases s@.len() - i,
    {
        let c = s[i];
        let d: u64 = if '0' <= c && c <= '9' {
            (c as u32 - '0' as u32) as u64
        } else if 'a' <= c && c <= 'f' {
            (c as u32 - 'a' as u32 + 10) as u64
        } else if 'A' <= c && c <= 'F' {
            (c as u32 - 'A' as u32 + 10) as u64
        } else {
            proof {
                assert(body[i - start] == c);
                assert(!is_hex_digit(body[i - start]));
            }
            return None;
        };
        let next = acc * 16 + d;
        proof {
            let t2 = body.take(i - start + 1);
            assert(t2.drop_last() =~= body.take(i - start));
            assert(t2.last() == c);
            assert(all_hex_digits(t2));
        }
        if next > 0xffff_ffff {
            proof {
                let t2 = body.take(i - start + 1);
                assert(hex_value(t2) == next);
                if all_hex_digits(body) {
                    lemma_hex_value_prefix(body, i - start + 1);
                }
            }
            return None;
        }
        acc = next;
        i += 1;
    }
    proof {
        assert(body.take(i - start) =~= body);
    }
    Some(acc as u32)
}

} // verus!

verus! {

pub open spec fn hex_digit_char(d: int) -> char {
    if d < 10 {
        (('0' as int) + d) as char
    } else {
        (('a' as int) + d - 10) as char
    }
}

/// The low `n` hexadecimal digits of `v`, most significant first,
/// lowercase and zero-padded.
pub open spec fn hex_digits(v: u32, n: nat) -> Seq<char>
    decreases n,
{
    if n == 0 {
        Seq::empty()
    } else {
        hex_digits(v / 16, (n - 1) as nat).push(hex_digit_char((v % 16) as int))
    }
}

/// The one-character string holding hexadecimal digit `d`.
pub fn hex_digit_str(d: u32) -> (s: &'static str)
    requires
        d < 16,
    ensures
        s@ == seq![hex_digit_char(d as int)],
{
    if d < 10 {
        return digit_str(d);
    }
    proof {
        reveal_strlit("a");
        reveal_strlit("b");
        reveal_strlit("c");
        reveal_strlit("d");
        reveal_strlit("e");
        reveal_strlit("f");
    }
    let s = if d == 10 {
        "a"
    } else if d == 11 {
        "b"
    } else if d == 12 {
        "c"
    } else if d == 13 {
        "d"
    } else if d == 14 {
        "e"
    } else {
        "f"
    };
    assert(s@ =~= seq![hex_digit_char(d as int)]);
    s
}

/// Appends the low `n` hexadecimal digits of `v`.
pub fn push_hex(out: &mut String, v: u32, n: u32)
    ensures
        final(out)@ == old(out)@ + hex_digits(v, n as nat),
    decreases n,
{
    if n > 0 {
        push_hex(out, v / 16, n - 1);
        out.append(hex_digit_str(v % 16));
        assert(old(out)@ + hex_digits(v, n as nat) =~= old(out)@ + hex_digits(
            v / 16,
            (n - 1) as nat,
        ) + seq![hex_digit_char((v % 16) as int)]);
    }
}

} // verus!

verus! {

/// How many hexadecimal digits `v` needs (at least one).
pub open spec fn hex_len(v: u32) -> nat
    decreases v,
{
    if v < 16 {
        1
    } else {
        1 + hex_len(v / 16)
    }
}

/// `v` in hexadecimal, zero-padded to at least `width` digits, as `{:0w$x}`
/// formats it.
pub open spec fn hex_padded(v: u32, width: nat) -> Seq<char> {
    hex_digits(v, if hex_len(v) > width { hex_len(v) } else { width })
}

pub fn hex_digit_count(v: u32) -> (n: u32)
    ensures
        n == hex_len(v),
{
    proof {
        reveal_with_fuel(hex_len, 9);
    }
    if v < 0x10 {
        1
    } else if v < 0x100 {
        2
    } else if v < 0x1000 {
        3
    } else if v < 0x1_0000 {
        4
    } else if v < 0x10_0000 {
        5
    } else if v < 0x100_0000 {
        6
    } else if v < 0x1000_0000 {
        7
    } else {
        8
    }
}

/// Appends `v` in hexadecimal, zero-padded to at least `width` digits.
pub fn push_hex_padded(out: &mut String, v: u32, width: u32)
    ensures
        final(out)@ == old(out)@ + hex_padded(v, width as nat),
{
    let n = hex_digit_count(v);
    let w = if n > width {
        n
    } else {
        width
    };
    push_hex(out, v, w);
}

} // verus!
