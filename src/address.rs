use vstd::prelude::*;

verus! {

/// An ASCII letter.
pub open spec fn is_alpha(c: char) -> bool {
    ('a' <= c && c <= 'z') || ('A' <= c && c <= 'Z')
}

/// A character that may follow the first letter of a URL scheme.
pub open spec fn is_scheme_char(c: char) -> bool {
    is_alpha(c) || ('0' <= c && c <= '9') || c == '+' || c == '-' || c == '.'
}

/// A character that a URL never holds unescaped: a space or an ASCII control.
pub open spec fn is_blank(c: char) -> bool {
    c <= ' ' || c == '\x7f'
}

/// A character that ends the authority part of a URL.
pub open spec fn ends_authority(c: char) -> bool {
    c == '/' || c == '?' || c == '#'
}

/// `s` is `scheme://authority...` with its scheme ending at `k`: the scheme
/// is a letter followed by scheme characters, and the authority is not empty.
pub open spec fn scheme_ends_at(s: Seq<char>, k: int) -> bool {
    &&& 1 <= k
    &&& k + 3 < s.len()
    &&& is_alpha(s[0])
    &&& forall|i: int| 1 <= i < k ==> is_scheme_char(#[trigger] s[i])
    &&& s[k] == ':'
    &&& s[k + 1] == '/'
    &&& s[k + 2] == '/'
    &&& !ends_authority(s[k + 3])
}

/// A well-formed absolute URL: a scheme, `://`, a non-empty authority and an
/// optional rest, with no blank character anywhere.
pub open spec fn absolute_url(s: Seq<char>) -> bool {
    &&& exists|k: int| scheme_ends_at(s, k)
    &&& forall|i: int| 0 <= i < s.len() ==> !is_blank(#[trigger] s[i])
}

/// A category is any non-empty name.
pub open spec fn valid_category(c: Seq<char>) -> bool {
    c.len() > 0
}

fn is_alpha_exec(c: char) -> (r: bool)
    ensures
        r == is_alpha(c),
{
    ('a' <= c && c <= 'z') || ('A' <= c && c <= 'Z')
}

fn is_scheme_char_exec(c: char) -> (r: bool)
    ensures
        r == is_scheme_char(c),
{
    is_alpha_exec(c) || ('0' <= c && c <= '9') || c == '+' || c == '-' || c == '.'
}

/// Whether `url` is a well-formed absolute URL.
pub fn is_absolute_url(url: &str) -> (r: bool)
    ensures
        r == absolute_url(url@),
{
    let n = url.unicode_len();
    let mut i: usize = 0;
    while i < n
        invariant
            n == url@.len(),
            i <= n,
            forall|j: int| 0 <= j < i ==> !is_blank(#[trigger] url@[j]),
        decreases n - i,
    {
        let c = url.get_char(i);
        if c <= ' ' || c == '\x7f' {
            return false;
        }
        i = i + 1;
    }
    if n == 0 || !is_alpha_exec(url.get_char(0)) {
        return false;
    }
    let mut k: usize = 1;
    while k < n && is_scheme_char_exec(url.get_char(k))
        invariant
            n == url@.len(),
            1 <= k <= n,
            forall|j: int| 1 <= j < k ==> is_scheme_char(#[trigger] url@[j]),
        decreases n - k,
    {
        k = k + 1;
    }
    // Any scheme end must be the first character that is not a scheme
    // character, since ':' is not one.
    assert forall|m: int| scheme_ends_at(url@, m) implies m == k by {
        if m < k {
            assert(is_scheme_char(url@[m]));
        } else if m > k {
            assert(is_scheme_char(url@[k as int]));
        }
    }
    if n - k > 3 && url.get_char(k) == ':' && url.get_char(k + 1) == '/' && url.get_char(k + 2)
        == '/' {
        let c = url.get_char(k + 3);
        if c == '/' || c == '?' || c == '#' {
            false
        } else {
            assert(scheme_ends_at(url@, k as int));
            true
        }
    } else {
        false
    }
}

/// Whether `category` is a valid category name.
pub fn is_valid_category(category: &str) -> (r: bool)
    ensures
        r == valid_category(category@),
{
    !category.is_empty()
}

} // verus!
