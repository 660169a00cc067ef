//! Character-level text handling: truncation, shortcode scanning and URL detection.
//!
//! Lengths and positions are counted in characters (Unicode scalar values),
//! never in bytes.

use vstd::prelude::*;
use vstd::string::*;

verus! {

broadcast use vstd::string::group_string_axioms;

/// The view of an optional string.
pub open spec fn opt_view(o: Option<String>) -> Option<Seq<char>> {
    match o {
        Some(s) => Some(s@),
        None => None,
    }
}

/// A copy of an optional string.
pub fn copy_opt(o: &Option<String>) -> (r: Option<String>)
    ensures
        r == *o,
{
    match o {
        Some(s) => Some(s.clone()),
        None => None,
    }
}

/// The marker appended to a text that was cut short.
pub open spec fn ellipsis() -> Seq<char> {
    seq!['.', '.', '.']
}

/// `s` cut to its first `limit` characters, followed by the ellipsis marker,
/// when it is longer than `limit`; otherwise `s` itself.
pub open spec fn truncated(s: Seq<char>, limit: nat) -> Seq<char> {
    if s.len() > limit {
        s.subrange(0, limit as int) + ellipsis()
    } else {
        s
    }
}

/// The characters of `s`, in order.
pub fn chars_of(s: &str) -> (r: Vec<char>)
    ensures
        r@ == s@,
{
    let mut r: Vec<char> = Vec::new();
    for c in it: s.chars()
        invariant
            r@ == it.seq().subrange(0, it.index() as int),
            it.seq() == s@,
    {
        r.push(c);
    }
    r
}

/// Cuts `s` to `limit` characters and marks the cut with "...".
pub fn truncate_chars(s: &str, limit: usize) -> (r: String)
    ensures
        r@ == truncated(s@, limit as nat),
        r@.len() <= limit + 3,
{
    let n = s.unicode_len();
    if n > limit {
        let head = s.substring_char(0, limit);
        let mut r = String::from_str(head);
        r.append("...");
        proof {
            reveal_strlit("...");
            assert("..."@ =~= ellipsis());
        }
        r
    } else {
        String::from_str(s)
    }
}

/// A character that may stand inside a `:shortcode:`.
pub open spec fn is_code_char(c: char) -> bool {
    ('a' <= c && c <= 'z') || ('A' <= c && c <= 'Z') || ('0' <= c && c <= '9') || c == '_'
        || c == '-'
}

pub fn is_code_char_exec(c: char) -> (r: bool)
    ensures
        r == is_code_char(c),
{
    ('a' <= c && c <= 'z') || ('A' <= c && c <= 'Z') || ('0' <= c && c <= '9') || c == '_'
        || c == '-'
}

/// The first position at or after `j` that holds no shortcode character.
pub open spec fn code_run_end(s: Seq<char>, j: int) -> int
    decreases s.len() - j,
{
    if 0 <= j < s.len() && is_code_char(s[j]) {
        code_run_end(s, j + 1)
    } else {
        j
    }
}

/// Whether a shortcode `:name:` opens at position `i`.
pub open spec fn shortcode_at(s: Seq<char>, i: int) -> bool {
    let e = code_run_end(s, i + 1);
    &&& 0 <= i < s.len()
    &&& s[i] == ':'
    &&& e > i + 1
    &&& e < s.len()
    &&& s[e] == ':'
}

/// The names of the `:name:` references in `s` from position `i` on, scanned
/// left to right; a reference's closing colon cannot open the next one.
pub open spec fn shortcodes_from(s: Seq<char>, i: int) -> Seq<Seq<char>>
    decreases s.len() - i,
{
    if i < 0 || i >= s.len() {
        Seq::empty()
    } else if shortcode_at(s, i) {
        let e = code_run_end(s, i + 1);
        seq![s.subrange(i + 1, e)] + shortcodes_from(s, e + 1)
    } else {
        shortcodes_from(s, i + 1)
    }
}

/// The names of all `:name:` references in `s`, in order of appearance.
pub open spec fn shortcodes(s: Seq<char>) -> Seq<Seq<char>> {
    shortcodes_from(s, 0)
}

/// The views of a sequence of strings.
pub open spec fn string_views(v: Seq<String>) -> Seq<Seq<char>> {
    v.map_values(|x: String| x@)
}

fn code_run_end_exec(cs: &Vec<char>, j: usize) -> (e: usize)
    requires
        j <= cs@.len(),
    ensures
        e == code_run_end(cs@, j as int),
        j <= e <= cs@.len(),
{
    let mut k = j;
    while k < cs.len() && is_code_char_exec(cs[k])
        invariant
            j <= k <= cs@.len(),
            code_run_end(cs@, j as int) == code_run_end(cs@, k as int),
        decreases cs@.len() - k,
    {
        k = k + 1;
    }
    k
}

/// The names of the `:name:` references in `s`, in order of appearance.
pub fn scan_shortcodes(s: &str) -> (r: Vec<String>)
    ensures
        string_views(r@) == shortcodes(s@),
{
    let cs = chars_of(s);
    let n = cs.len();
    let mut r: Vec<String> = Vec::new();
    let mut i: usize = 0;
    while i < n
        invariant
            n == cs@.len(),
            cs@ == s@,
            i <= n,
            string_views(r@) + shortcodes_from(cs@, i as int) == shortcodes(cs@),
        decreases n - i,
    {
        let mut matched = false;
        if cs[i] == ':' && i + 1 <= n {
            let e = code_run_end_exec(&cs, i + 1);
            if e > i + 1 && e < n && cs[e] == ':' {
                let name = String::from_str(s.substring_char(i + 1, e));
                proof {
                    assert(shortcode_at(cs@, i as int));
                    assert(string_views(r@.push(name)) =~= string_views(r@) + seq![name@]);
                }
                r.push(name);
                i = e + 1;
                matched = true;
            }
        }
        if !matched {
            i = i + 1;
        }
    }
    r
}

/// Unicode White_Space, the class that ends a bare URL.
pub open spec fn is_space(c: char) -> bool {
    let u = c as u32;
    (9 <= u && u <= 13) || u == 32 || u == 0x85 || u == 0xa0 || u == 0x1680 || (0x2000 <= u && u
        <= 0x200a) || u == 0x2028 || u == 0x2029 || u == 0x202f || u == 0x205f || u == 0x3000
}

pub fn is_space_exec(c: char) -> (r: bool)
    ensures
        r == is_space(c),
{
    let u = c as u32;
    (9 <= u && u <= 13) || u == 32 || u == 0x85 || u == 0xa0 || u == 0x1680 || (0x2000 <= u && u
        <= 0x200a) || u == 0x2028 || u == 0x2029 || u == 0x202f || u == 0x205f || u == 0x3000
}

/// The first position at or after `j` that holds a white-space character.
pub open spec fn word_end(s: Seq<char>, j: int) -> int
    decreases s.len() - j,
{
    if 0 <= j < s.len() && !is_space(s[j]) {
        word_end(s, j + 1)
    } else {
        j
    }
}

/// Whether `p` stands in `s` at position `i`.
pub open spec fn occurs_at(s: Seq<char>, i: int, p: Seq<char>) -> bool {
    0 <= i && i + p.len() <= s.len() && s.subrange(i, i + p.len()) == p
}

pub open spec fn https_prefix() -> Seq<char> {
    seq!['h', 't', 't', 'p', 's', ':', '/', '/']
}

pub open spec fn http_prefix() -> Seq<char> {
    seq!['h', 't', 't', 'p', ':', '/', '/']
}

/// The length of the scheme prefix of a URL that starts at `i`: the prefix
/// must be followed by at least one character that is not white space. Zero
/// where no URL starts at `i`.
pub open spec fn url_scheme_len(s: Seq<char>, i: int) -> int {
    if occurs_at(s, i, https_prefix()) && i + 8 < s.len() && !is_space(s[i + 8]) {
        8
    } else if occurs_at(s, i, http_prefix()) && i + 7 < s.len() && !is_space(s[i + 7]) {
        7
    } else {
        0
    }
}

/// The first bare `http://` or `https://` URL in `s` at or after `i`; it runs
/// up to the next white space.
pub open spec fn first_url_from(s: Seq<char>, i: int) -> Option<Seq<char>>
    decreases s.len() - i,
{
    if i < 0 || i >= s.len() {
        None
    } else if url_scheme_len(s, i) > 0 {
        Some(s.subrange(i, word_end(s, i + url_scheme_len(s, i))))
    } else {
        first_url_from(s, i + 1)
    }
}

/// The first bare URL in `s`.
pub open spec fn first_url(s: Seq<char>) -> Option<Seq<char>> {
    first_url_from(s, 0)
}

fn word_end_exec(cs: &Vec<char>, j: usize) -> (e: usize)
    requires
        j <= cs@.len(),
    ensures
        e == word_end(cs@, j as int),
        j <= e <= cs@.len(),
{
    let mut k = j;
    while k < cs.len() && !is_space_exec(cs[k])
        invariant
            j <= k <= cs@.len(),
            word_end(cs@, j as int) == word_end(cs@, k as int),
        decreases cs@.len() - k,
    {
        k = k + 1;
    }
    k
}

fn occurs_at_exec(cs: &Vec<char>, i: usize, p: &Vec<char>) -> (r: bool)
    ensures
        r == occurs_at(cs@, i as int, p@),
{
    if i > cs.len() || p.len() > cs.len() - i {
        return false;
    }
    let mut k: usize = 0;
    while k < p.len()
        invariant
            i + p@.len() <= cs@.len(),
            cs@.len() == cs.len(),
            k <= p@.len(),
            forall|m: int| 0 <= m < k ==> cs@[i + m] == p@[m],
        decreases p@.len() - k,
    {
        if cs[i + k] != p[k] {
            assert(cs@.subrange(i as int, i + p@.len())[k as int] != p@[k as int]);
            return false;
        }
        k = k + 1;
    }
    assert(cs@.subrange(i as int, i + p@.len()) =~= p@);
    true
}

fn prefix_chars(https: bool) -> (r: Vec<char>)
    ensures
        https ==> r@ == https_prefix(),
        !https ==> r@ == http_prefix(),
{
    if https {
        vec!['h', 't', 't', 'p', 's', ':', '/', '/']
    } else {
        vec!['h', 't', 't', 'p', ':', '/', '/']
    }
}

/// The first bare `http(s)://` URL in `text`, up to the next white space.
pub fn detect_url(text: &str) -> (r: Option<String>)
    ensures
        r matches Some(u) ==> first_url(text@) == Some(u@),
        r is None ==> first_url(text@) is None,
{
    let cs = chars_of(text);
    let n = cs.len();
    let https = prefix_chars(true);
    let http = prefix_chars(false);
    let mut i: usize = 0;
    while i < n
        invariant
            n == cs@.len(),
            cs@ == text@,
            i <= n,
            https@ == https_prefix(),
            http@ == http_prefix(),
            first_url_from(cs@, i as int) == first_url(cs@),
        decreases n - i,
    {
        let mut k: usize = 0;
        if occurs_at_exec(&cs, i, &https) && i + 8 < n && !is_space_exec(cs[i + 8]) {
            k = 8;
        } else if occurs_at_exec(&cs, i, &http) && i + 7 < n && !is_space_exec(cs[i + 7]) {
            k = 7;
        }
        if k > 0 {
            let e = word_end_exec(&cs, i + k);
            return Some(String::from_str(text.substring_char(i, e)));
        }
        i = i + 1;
    }
    None
}

} // verus!
