use vstd::prelude::*;
use vstd::string::StrSliceExecFns;
use crate::text::chars_of;

verus! {

broadcast use vstd::string::group_string_axioms;

/// Both `/` and `\` separate path components, so that paths written for
/// either family of systems resolve the same way everywhere.
pub open spec fn is_separator(c: char) -> bool {
    c == '/' || c == '\\'
}

pub open spec fn is_ascii_alpha(c: char) -> bool {
    ('a' <= c && c <= 'z') || ('A' <= c && c <= 'Z')
}

/// A path is absolute when it starts at a root (`/x`, `\x`) or at a drive
/// root (`C:\x`, `C:/x`).
pub open spec fn spec_is_absolute(p: Seq<char>) -> bool {
    ||| p.len() > 0 && is_separator(p[0])
    ||| p.len() >= 3 && is_ascii_alpha(p[0]) && p[1] == ':' && is_separator(p[2])
}

/// The separator a base path uses: `\` when it holds one, else `/`.
pub open spec fn spec_separator_of(base: Seq<char>) -> char {
    if base.contains('\\') {
        '\\'
    } else {
        '/'
    }
}

/// `name` taken relative to `base`: an absolute `name` stands alone;
/// otherwise it follows `base` after one separator.
pub open spec fn spec_join(base: Seq<char>, name: Seq<char>) -> Seq<char> {
    if spec_is_absolute(name) || base.len() == 0 {
        name
    } else if is_separator(base.last()) {
        base + name
    } else {
        base + seq![spec_separator_of(base)] + name
    }
}

pub fn is_absolute(p: &str) -> (r: bool)
    ensures
        r == spec_is_absolute(p@),
{
    let v = chars_of(p);
    if v.len() > 0 && (v[0] == '/' || v[0] == '\\') {
        return true;
    }
    v.len() >= 3 && (('a' <= v[0] && v[0] <= 'z') || ('A' <= v[0] && v[0] <= 'Z')) && v[1] == ':'
        && (v[2] == '/' || v[2] == '\\')
}

/// `name` resolved against `base`.
pub fn join(base: &str, name: &str) -> (r: String)
    ensures
        r@ == spec_join(base@, name@),
{
    if is_absolute(name) {
        return name.to_owned();
    }
    let b = chars_of(base);
    if b.len() == 0 {
        return name.to_owned();
    }
    let last = b[b.len() - 1];
    let mut r = base.to_owned();
    if !(last == '/' || last == '\\') {
        let mut has_backslash = false;
        let mut i: usize = 0;
        while i < b.len()
            invariant
                i <= b@.len(),
                b@ == base@,
                has_backslash <==> (exists|k: int| 0 <= k < i && #[trigger] b@[k] == '\\'),
            decreases b@.len() - i,
        {
            if b[i] == '\\' {
                has_backslash = true;
            }
            i += 1;
        }
        assert(has_backslash == b@.contains('\\'));
        if has_backslash {
            r.append("\\");
        } else {
            r.append("/");
        }
        proof {
            reveal_strlit("\\");
            reveal_strlit("/");
        }
    }
    r.append(name);
    r
}

/// A path for display, or "not selected".
pub fn display_path(path: Option<&str>) -> (r: String)
    ensures
        r@ == match path {
            Some(p) => p@,
            None => "not selected"@,
        },
{
    match path {
        Some(p) => p.to_owned(),
        None => "not selected".to_owned(),
    }
}

} // verus!
