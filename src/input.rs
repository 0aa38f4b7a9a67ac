//! Reading a line of user input: shell-style word splitting, trimming, and recognising a
//! leading path that is not a slash command.
use crate::message::views_of;
use vstd::prelude::*;

verus! {

/// What `shlex::split` returns for a line: its words under POSIX shell quoting, or `None` when
/// the quoting is malformed.
pub uninterp spec fn shell_words(s: Seq<char>) -> Option<Seq<Seq<char>>>;

/// A Unicode White_Space character, as `char::is_whitespace` defines it.
pub open spec fn is_whitespace(c: char) -> bool {
    let n = c as u32;
    (9 <= n <= 13) || n == 32 || n == 0x85 || n == 0xa0 || n == 0x1680 || (0x2000 <= n <= 0x200a)
        || n == 0x2028 || n == 0x2029 || n == 0x202f || n == 0x205f || n == 0x3000
}

/// The first position from `i` on that holds no whitespace (the end when there is none).
pub open spec fn first_non_whitespace(s: Seq<char>, i: int) -> int
    decreases s.len() - i,
{
    if i < 0 || i >= s.len() {
        s.len() as int
    } else if !is_whitespace(s[i]) {
        i
    } else {
        first_non_whitespace(s, i + 1)
    }
}

/// The end of the text before `j` once trailing whitespace is dropped.
pub open spec fn end_without_whitespace(s: Seq<char>, j: int) -> int
    decreases j,
{
    if j <= 0 || j > s.len() {
        0
    } else if !is_whitespace(s[j - 1]) {
        j
    } else {
        end_without_whitespace(s, j - 1)
    }
}

/// The text without leading and trailing whitespace, as `str::trim` returns it.
pub open spec fn trimmed(s: Seq<char>) -> Seq<char> {
    let a = first_non_whitespace(s, 0);
    let b = end_without_whitespace(s, s.len() as int);
    if a < b {
        s.subrange(a, b)
    } else {
        Seq::empty()
    }
}

/// Relies on `shlex::split`: the words of a line under POSIX shell quoting, `None` when the
/// quoting is malformed; the result depends on the line alone.
#[verifier::external_body]
pub(crate) fn split_words(s: &str) -> (r: Option<Vec<String>>)
    ensures
        match r {
            Some(v) => shell_words(s@) == Some(views_of(v@)),
            None => shell_words(s@) is None,
        },
{
    shlex::split(s)
}

fn is_whitespace_char(c: char) -> (r: bool)
    ensures
        r == is_whitespace(c),
{
    let n = c as u32;
    (9 <= n && n <= 13) || n == 32 || n == 0x85 || n == 0xa0 || n == 0x1680 || (0x2000 <= n && n
        <= 0x200a) || n == 0x2028 || n == 0x2029 || n == 0x202f || n == 0x205f || n == 0x3000
}

/// The text without leading and trailing whitespace.
pub fn trim_text(s: &str) -> (r: String)
    ensures
        r@ == trimmed(s@),
{
    let n = s.unicode_len();
    let mut a: usize = 0;
    while a < n && is_whitespace_char(s.get_char(a))
        invariant
            n == s@.len(),
            a <= n,
            first_non_whitespace(s@, 0) == first_non_whitespace(s@, a as int),
        decreases n - a,
    {
        a = a + 1;
    }
    let mut b: usize = n;
    while b > 0 && is_whitespace_char(s.get_char(b - 1))
        invariant
            n == s@.len(),
            b <= n,
            end_without_whitespace(s@, n as int) == end_without_whitespace(s@, b as int),
        decreases b,
    {
        b = b - 1;
    }
    if a < b {
        String::from_str(s.substring_char(a, b))
    } else {
        String::new()
    }
}

/// The views of optional words.
pub open spec fn words_view(w: Option<Vec<String>>) -> Option<Seq<Seq<char>>> {
    match w {
        Some(v) => Some(views_of(v@)),
        None => None,
    }
}

/// A word that names a path: it holds a path separator or a dot.
pub open spec fn looks_like_path(w: Seq<char>) -> bool {
    w.contains('/') || w.contains('\\') || w.contains('.')
}

/// The first word, if the split succeeded and there is one, names a path.
pub open spec fn first_word_is_path(words: Option<Seq<Seq<char>>>) -> bool {
    match words {
        Some(ws) => ws.len() > 0 && looks_like_path(ws[0]),
        None => false,
    }
}

/// `s` starts with `c`.
pub open spec fn starts_with_char(s: Seq<char>, c: char) -> bool {
    s.len() > 0 && s[0] == c
}

/// Whether `w` holds a path separator or a dot.
pub fn word_looks_like_path(w: &str) -> (r: bool)
    ensures
        r == looks_like_path(w@),
{
    let n = w.unicode_len();
    let mut i: usize = 0;
    while i < n
        invariant
            n == w@.len(),
            i <= n,
            forall|j: int| 0 <= j < i ==> w@[j] != '/' && w@[j] != '\\' && w@[j] != '.',
        decreases n - i,
    {
        let c = w.get_char(i);
        if c == '/' || c == '\\' || c == '.' {
            assert(w@.contains(c));
            return true;
        }
        i = i + 1;
    }
    proof {
        if w@.contains('/') {
            let j = choose|j: int| 0 <= j < w@.len() && w@[j] == '/';
        }
        if w@.contains('\\') {
            let j = choose|j: int| 0 <= j < w@.len() && w@[j] == '\\';
        }
        if w@.contains('.') {
            let j = choose|j: int| 0 <= j < w@.len() && w@[j] == '.';
        }
    }
    false
}

/// Whether split words begin with a path.
pub fn words_reference_path(words: &Option<Vec<String>>) -> (r: bool)
    ensures
        r == first_word_is_path(words_view(*words)),
{
    match words {
        Some(v) => {
            if v.len() > 0 {
                word_looks_like_path(v[0].as_str())
            } else {
                false
            }
        },
        None => false,
    }
}

/// `s` without its first character, if it has one.
pub fn strip_first_char(s: &str) -> (r: Option<String>)
    ensures
        match r {
            Some(t) => s@.len() > 0 && t@ == s@.drop_first(),
            None => s@.len() == 0,
        },
{
    let n = s.unicode_len();
    if n > 0 {
        let rest = s.substring_char(1, n);
        assert(rest@ =~= s@.drop_first());
        Some(String::from_str(rest))
    } else {
        None
    }
}

/// `s` without its first character, when that is `c`.
pub fn strip_char_prefix(s: &str, c: char) -> (r: Option<String>)
    ensures
        match r {
            Some(t) => starts_with_char(s@, c) && t@ == s@.drop_first(),
            None => !starts_with_char(s@, c),
        },
{
    let n = s.unicode_len();
    if n > 0 && s.get_char(0) == c {
        let rest = s.substring_char(1, n);
        assert(rest@ =~= s@.drop_first());
        Some(String::from_str(rest))
    } else {
        None
    }
}

} // verus!
