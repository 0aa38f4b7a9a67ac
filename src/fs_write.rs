//! The file-write tool: its four commands and the pure text logic behind them. Reading and
//! writing the file, and rendering diffs, are left to the caller.
use crate::tools::PermissionEvalResult;
use vstd::prelude::*;

verus! {

/// A file-write command as requested by the backend.
#[derive(Debug, Clone)]
pub enum FsWrite {
    /// `file_text` is the required field; `new_str` is accepted in its place when missing.
    Create {
        path: String,
        file_text: Option<String>,
        new_str: Option<String>,
        summary: Option<String>,
    },
    StrReplace { path: String, old_str: String, new_str: String, summary: Option<String> },
    Insert { path: String, insert_line: usize, new_str: String, summary: Option<String> },
    Append { path: String, new_str: String, summary: Option<String> },
}

impl FsWrite {
    /// The summary of the command, whichever its variant.
    pub open spec fn summary_spec(&self) -> Option<String> {
        match self {
            FsWrite::Create { summary, .. } => *summary,
            FsWrite::StrReplace { summary, .. } => *summary,
            FsWrite::Insert { summary, .. } => *summary,
            FsWrite::Append { summary, .. } => *summary,
        }
    }

    /// Returns the summary of the command, whichever its variant.
    pub fn get_summary(&self) -> (r: Option<&String>)
        ensures
            r matches Some(s) ==> self.summary_spec() == Some(*s),
            r is None ==> self.summary_spec() is None,
    {
        match self {
            FsWrite::Create { summary, .. } => summary.as_ref(),
            FsWrite::StrReplace { summary, .. } => summary.as_ref(),
            FsWrite::Insert { summary, .. } => summary.as_ref(),
            FsWrite::Append { summary, .. } => summary.as_ref(),
        }
    }
}

} // verus!

verus! {

/// The decimal digit for `d`.
pub open spec fn digit_char(d: int) -> char {
    if d == 0 {
        '0'
    } else if d == 1 {
        '1'
    } else if d == 2 {
        '2'
    } else if d == 3 {
        '3'
    } else if d == 4 {
        '4'
    } else if d == 5 {
        '5'
    } else if d == 6 {
        '6'
    } else if d == 7 {
        '7'
    } else if d == 8 {
        '8'
    } else {
        '9'
    }
}

/// The decimal text of `n`.
pub open spec fn decimal(n: nat) -> Seq<char>
    decreases n,
{
    if n < 10 {
        seq![digit_char(n as int)]
    } else {
        decimal(n / 10).push(digit_char((n % 10) as int))
    }
}

/// Whether `p` occurs in `s` at `i`.
pub open spec fn occurs_at(s: Seq<char>, p: Seq<char>, i: int) -> bool {
    0 <= i && i + p.len() <= s.len() && s.subrange(i, i + p.len()) == p
}

/// The first position of `p` in `s` from `i` on.
pub open spec fn first_occurrence_from(s: Seq<char>, p: Seq<char>, i: int) -> Option<int>
    decreases s.len() + 1 - i,
{
    if i < 0 || i + p.len() > s.len() {
        None
    } else if occurs_at(s, p, i) {
        Some(i)
    } else {
        first_occurrence_from(s, p, i + 1)
    }
}

/// Number of non-overlapping occurrences of a non-empty `p` in `s`, scanning from `i`.
pub open spec fn occurrences_from(s: Seq<char>, p: Seq<char>, i: int) -> nat
    decreases s.len() + 1 - i,
{
    if p.len() == 0 || i < 0 || i + p.len() > s.len() {
        0
    } else if occurs_at(s, p, i) {
        1 + occurrences_from(s, p, i + p.len())
    } else {
        occurrences_from(s, p, i + 1)
    }
}

/// Number of newlines in `s`.
pub open spec fn newlines(s: Seq<char>) -> nat
    decreases s.len(),
{
    if s.len() == 0 {
        0
    } else {
        newlines(s.drop_last()) + if s.last() == '\n' {
            1nat
        } else {
            0nat
        }
    }
}

/// `s` ends with a newline, adding one when it does not.
pub open spec fn with_final_newline(s: Seq<char>) -> Seq<char> {
    if s.len() > 0 && s.last() == '\n' {
        s
    } else {
        s.push('\n')
    }
}

/// The position just after the line that starts at `i`.
pub open spec fn next_line_start(s: Seq<char>, i: int) -> int
    decreases s.len() - i,
{
    if i >= s.len() {
        s.len() as int
    } else if s[i] == '\n' {
        i + 1
    } else {
        next_line_start(s, i + 1)
    }
}

/// The position where line `k` (counted from 0) starts; the end of `s` past its last line.
pub open spec fn line_start(s: Seq<char>, k: nat) -> int
    decreases k,
{
    if k == 0 {
        0
    } else {
        next_line_start(s, line_start(s, (k - 1) as nat))
    }
}

/// Number of lines in `s`, counting a final line without a newline; at least one.
pub open spec fn line_count_at_least_one(s: Seq<char>) -> nat {
    let n = newlines(s) + if s.len() > 0 && s.last() != '\n' {
        1nat
    } else {
        0nat
    };
    if n == 0 {
        1
    } else {
        n
    }
}

fn decimal_text(n: usize) -> (r: String)
    ensures
        r@ == decimal(n as nat),
    decreases n,
{
    let digits = "0123456789";
    proof {
        reveal_strlit("0123456789");
    }
    let d = n % 10;
    let one = digits.substring_char(d, d + 1);
    assert(one@ == seq![digit_char(d as int)]);
    if n < 10 {
        String::from_str(one)
    } else {
        let mut r = decimal_text(n / 10);
        r.append(one);
        r
    }
}

/// Number of terminal cells needed to print a line number: its count of decimal digits.
pub fn terminal_width_required_for_line_count(line_count: usize) -> (r: usize)
    ensures
        r == decimal(line_count as nat).len(),
{
    let text = decimal_text(line_count);
    text.as_str().unicode_len()
}

/// Whether `p` occurs in `s` at `i`.
fn matches_at(s: &str, p: &str, i: usize) -> (r: bool)
    requires
        s@.len() <= usize::MAX,
    ensures
        r == occurs_at(s@, p@, i as int),
{
    let n = s.unicode_len();
    let m = p.unicode_len();
    if i > n || m > n - i {
        return false;
    }
    let mut j: usize = 0;
    while j < m
        invariant
            n == s@.len(),
            m == p@.len(),
            i + m <= n,
            j <= m,
            forall|k: int| 0 <= k < j ==> s@[i + k] == p@[k],
        decreases m - j,
    {
        if s.get_char(i + j) != p.get_char(j) {
            assert(s@.subrange(i as int, i + m)[j as int] != p@[j as int]);
            return false;
        }
        j = j + 1;
    }
    assert(s@.subrange(i as int, i + m) =~= p@);
    true
}

/// Number of newlines in `s`.
fn count_newlines(s: &str) -> (r: usize)
    ensures
        r == newlines(s@),
        r <= s@.len(),
{
    let n = s.unicode_len();
    let mut count: usize = 0;
    let mut i: usize = 0;
    while i < n
        invariant
            n == s@.len(),
            i <= n,
            count == newlines(s@.subrange(0, i as int)),
            count <= i,
        decreases n - i,
    {
        assert(s@.subrange(0, i + 1).drop_last() == s@.subrange(0, i as int));
        if s.get_char(i) == '\n' {
            count = count + 1;
        }
        i = i + 1;
    }
    assert(s@.subrange(0, n as int) == s@);
    count
}

/// `s` with a newline added when it does not end with one.
pub fn ensure_final_newline(s: String) -> (r: String)
    ensures
        r@ == with_final_newline(s@),
{
    let n = s.as_str().unicode_len();
    if n > 0 && s.as_str().get_char(n - 1) == '\n' {
        s
    } else {
        let mut s = s;
        let ghost before = s@;
        s.append("\n");
        proof {
            reveal_strlit("\n");
            assert(s@ =~= before.push('\n'));
        }
        s
    }
}

/// The 1-indexed range of lines covered by the first occurrence of `needle` in `file`.
pub fn line_number_at(file: &str, needle: &str) -> (r: Option<(usize, usize)>)
    requires
        file@.len() < usize::MAX,
    ensures
        match first_occurrence_from(file@, needle@, 0) {
            Some(i) => r == Some(
                (
                    (newlines(file@.subrange(0, i)) + 1) as usize,
                    (newlines(file@.subrange(0, i)) + newlines(needle@) + 1) as usize,
                ),
            ),
            None => r is None,
        },
{
    let n = file.unicode_len();
    let m = needle.unicode_len();
    if m > n {
        return None;
    }
    let mut i: usize = 0;
    while i <= n - m
        invariant
            n == file@.len(),
            n < usize::MAX,
            m == needle@.len(),
            m <= n,
            i <= n - m + 1,
            first_occurrence_from(file@, needle@, 0) == first_occurrence_from(file@, needle@, i as int),
        decreases n - m + 1 - i,
    {
        if matches_at(file, needle, i) {
            let before = count_newlines(file.substring_char(0, i));
            let inner = count_newlines(needle);
            assert(before <= i);
            assert(inner <= m);
            return Some((before + 1, before + inner + 1));
        }
        i = i + 1;
    }
    None
}

impl FsWrite {
    /// The text of a create command: `file_text`, else `new_str`, else nothing.
    pub open spec fn create_text(&self) -> Seq<char> {
        match self {
            FsWrite::Create { file_text, new_str, .. } => match file_text {
                Some(t) => t@,
                None => match new_str {
                    Some(t) => t@,
                    None => Seq::empty(),
                },
            },
            _ => Seq::empty(),
        }
    }

    /// The text to write for a create command; empty for other commands.
    pub fn canonical_create_command_text(&self) -> (r: String)
        ensures
            r@ == self.create_text(),
    {
        match self {
            FsWrite::Create { file_text, new_str, .. } => match file_text {
                Some(t) => t.clone(),
                None => match new_str {
                    Some(t) => t.clone(),
                    None => String::new(),
                },
            },
            _ => String::new(),
        }
    }

    /// Checks the arguments: a create or an append needs a path, an append needs content, and a
    /// replace or an insert needs an existing file (`path_exists`, as the caller found it).
    pub fn validate(&self, path_exists: bool) -> (r: Result<(), String>)
        ensures
            r is Err <==> match self {
                FsWrite::Create { path, .. } => path@.len() == 0,
                FsWrite::StrReplace { .. } => !path_exists,
                FsWrite::Insert { .. } => !path_exists,
                FsWrite::Append { path, new_str, .. } => path@.len() == 0 || new_str@.len() == 0,
            },
    {
        match self {
            FsWrite::Create { path, .. } => {
                if path.as_str().unicode_len() == 0 {
                    return Err(String::from_str("Path must not be empty"));
                }
            },
            FsWrite::StrReplace { .. } | FsWrite::Insert { .. } => {
                if !path_exists {
                    return Err(
                        String::from_str(
                            "The provided path must exist in order to replace or insert contents into it",
                        ),
                    );
                }
            },
            FsWrite::Append { path, new_str, .. } => {
                if path.as_str().unicode_len() == 0 {
                    return Err(String::from_str("Path must not be empty"));
                }
                if new_str.as_str().unicode_len() == 0 {
                    return Err(String::from_str("Content to append must not be empty"));
                }
            },
        }
        Ok(())
    }
}

} // verus!

verus! {

/// `s` ends with a line break (`'\n'` or `'\r'`).
pub open spec fn ends_with_line_break(s: Seq<char>) -> bool {
    s.len() > 0 && (s.last() == '\n' || s.last() == '\r')
}

/// `s`, followed by a newline when it does not end with a line break.
pub open spec fn with_line_break(s: Seq<char>) -> Seq<char> {
    if ends_with_line_break(s) {
        s
    } else {
        s.push('\n')
    }
}

/// Number of matches of `p` in `s` when scanning left to right without overlap; an empty
/// pattern matches at every position.
pub open spec fn match_count(s: Seq<char>, p: Seq<char>) -> nat {
    if p.len() == 0 {
        (s.len() + 1) as nat
    } else {
        occurrences_from(s, p, 0)
    }
}

/// `s` with the first occurrence of `p`, at `i`, replaced by `q`.
pub open spec fn replaced_at(s: Seq<char>, p: Seq<char>, q: Seq<char>, i: int) -> Seq<char> {
    s.subrange(0, i) + q + s.subrange(i + p.len(), s.len() as int)
}

/// The new content of a file whose current content is `file`, or the error, for a command.
pub open spec fn applied(cmd: FsWrite, file: Seq<char>) -> Result<Seq<char>, ()> {
    match cmd {
        FsWrite::Create { .. } => Ok(with_line_break(cmd.create_text())),
        FsWrite::StrReplace { old_str, new_str, .. } => if match_count(file, old_str@) == 1 {
            Ok(replaced_at(file, old_str@, new_str@, first_occurrence_from(file, old_str@, 0)->0))
        } else {
            Err(())
        },
        FsWrite::Insert { insert_line, new_str, .. } => {
            let line = if insert_line as nat > line_count_at_least_one(file) {
                line_count_at_least_one(file)
            } else {
                insert_line as nat
            };
            let at = line_start(file, line);
            Ok(with_line_break(file.subrange(0, at) + new_str@ + file.subrange(at, file.len() as int)))
        },
        FsWrite::Append { new_str, .. } => Ok(with_line_break(with_line_break(file) + new_str@)),
    }
}

/// `s` followed by a newline when it does not end with a line break.
pub fn ensure_line_break(s: String) -> (r: String)
    ensures
        r@ == with_line_break(s@),
{
    let n = s.as_str().unicode_len();
    if n > 0 && (s.as_str().get_char(n - 1) == '\n' || s.as_str().get_char(n - 1) == '\r') {
        s
    } else {
        let mut s = s;
        let ghost before = s@;
        s.append("\n");
        proof {
            reveal_strlit("\n");
            assert(s@ =~= before.push('\n'));
        }
        s
    }
}

fn find_first(s: &str, p: &str) -> (r: Option<usize>)
    requires
        s@.len() < usize::MAX,
    ensures
        match first_occurrence_from(s@, p@, 0) {
            Some(i) => r == Some(i as usize),
            None => r is None,
        },
{
    let n = s.unicode_len();
    let m = p.unicode_len();
    if m > n {
        return None;
    }
    let mut i: usize = 0;
    while i <= n - m
        invariant
            n == s@.len(),
            n < usize::MAX,
            m == p@.len(),
            m <= n,
            i <= n - m + 1,
            first_occurrence_from(s@, p@, 0) == first_occurrence_from(s@, p@, i as int),
        decreases n - m + 1 - i,
    {
        if matches_at(s, p, i) {
            return Some(i);
        }
        i = i + 1;
    }
    None
}

fn count_matches(s: &str, p: &str) -> (r: usize)
    requires
        s@.len() < usize::MAX,
    ensures
        r == match_count(s@, p@),
{
    let n = s.unicode_len();
    let m = p.unicode_len();
    if m == 0 {
        return n + 1;
    }
    let mut count: usize = 0;
    let mut i: usize = 0;
    while i < n && m <= n - i
        invariant
            n == s@.len(),
            n < usize::MAX,
            m == p@.len(),
            m > 0,
            i <= n,
            count <= i,
            occurrences_from(s@, p@, 0) == count + occurrences_from(s@, p@, i as int),
        decreases n - i,
    {
        if matches_at(s, p, i) {
            count = count + 1;
            i = i + m;
        } else {
            i = i + 1;
        }
    }
    count
}

proof fn lemma_next_line_start_bounds(s: Seq<char>, i: int)
    requires
        0 <= i <= s.len(),
    ensures
        i <= next_line_start(s, i) <= s.len(),
    decreases s.len() - i,
{
    if i < s.len() && s[i] != '\n' {
        lemma_next_line_start_bounds(s, i + 1);
    }
}

fn next_line_start_exec(s: &str, i: usize) -> (r: usize)
    requires
        i <= s@.len(),
        s@.len() < usize::MAX,
    ensures
        r == next_line_start(s@, i as int),
{
    let n = s.unicode_len();
    let mut j: usize = i;
    while j < n
        invariant
            n == s@.len(),
            i <= j <= n,
            next_line_start(s@, i as int) == next_line_start(s@, j as int),
        decreases n - j,
    {
        if s.get_char(j) == '\n' {
            return j + 1;
        }
        j = j + 1;
    }
    n
}

impl FsWrite {
    /// The content to write for this command, given the current content of the file (`None`
    /// when it does not exist). A create writes its text; a replace needs exactly one match of
    /// `old_str`; an insert adds `new_str` at the start of line `insert_line` (clamped to the
    /// line count); an append adds `new_str` after a line break. Written content ends with a
    /// line break, except for a replace, which writes the file as it becomes.
    pub fn apply(&self, current: Option<&str>) -> (r: Result<String, String>)
        requires
            match current {
                Some(c) => c@.len() < usize::MAX,
                None => true,
            },
        ensures
            (self is Create || current is Some) ==> match applied(
                *self,
                match current {
                    Some(c) => c@,
                    None => Seq::empty(),
                },
            ) {
                Ok(t) => r matches Ok(s) && s@ == t,
                Err(_) => r is Err,
            },
            !(self is Create) && current is None ==> r is Err,
    {
        match self {
            FsWrite::Create { .. } => {
                let text = self.canonical_create_command_text();
                return Ok(ensure_line_break(text));
            },
            _ => {},
        }
        let file = match current {
            Some(c) => c,
            None => {
                return Err(String::from_str("The file does not exist"));
            },
        };
        let n = file.unicode_len();
        match self {
            FsWrite::StrReplace { old_str, new_str, .. } => {
                let count = count_matches(file, old_str.as_str());
                if count == 0 {
                    let mut e = String::from_str("no occurrences of \"");
                    e.append(old_str.as_str());
                    e.append("\" were found");
                    return Err(e);
                }
                if count > 1 {
                    let mut e = decimal_text(count);
                    e.append(" occurrences of old_str were found when only 1 is expected");
                    return Err(e);
                }
                let at = match find_first(file, old_str.as_str()) {
                    Some(i) => i,
                    None => {
                        proof {
                            if old_str@.len() > 0 {
                                lemma_count_implies_occurrence(file@, old_str@, 0);
                            } else {
                                assert(occurs_at(file@, old_str@, 0)) by {
                                    assert(file@.subrange(0, 0) =~= old_str@);
                                }
                            }
                        }
                        return Err(String::from_str("no occurrences were found"));
                    },
                };
                let m = old_str.as_str().unicode_len();
                proof {
                    lemma_first_occurrence_occurs(file@, old_str@, 0);
                }
                let mut out = String::from_str(file.substring_char(0, at));
                out.append(new_str.as_str());
                out.append(file.substring_char(at + m, n));
                Ok(out)
            },
            FsWrite::Insert { insert_line, new_str, .. } => {
                let lines = count_newlines(file);
                let last_open = n > 0 && file.get_char(n - 1) != '\n';
                let total = if last_open {
                    lines + 1
                } else {
                    lines
                };
                let total = if total == 0 {
                    1
                } else {
                    total
                };
                let line = if *insert_line > total {
                    total
                } else {
                    *insert_line
                };
                let mut at: usize = 0;
                let mut k: usize = 0;
                while k < line
                    invariant
                        n == file@.len(),
                        n < usize::MAX,
                        k <= line,
                        at == line_start(file@, k as nat),
                        at <= n,
                    decreases line - k,
                {
                    proof {
                        lemma_next_line_start_bounds(file@, at as int);
                    }
                    at = next_line_start_exec(file, at);
                    k = k + 1;
                }
                let mut out = String::from_str(file.substring_char(0, at));
                out.append(new_str.as_str());
                out.append(file.substring_char(at, n));
                Ok(ensure_line_break(out))
            },
            FsWrite::Append { new_str, .. } => {
                let mut out = ensure_line_break(String::from_str(file));
                out.append(new_str.as_str());
                Ok(ensure_line_break(out))
            },
            FsWrite::Create { .. } => Err(String::from_str("unreachable command")),
        }
    }
}

proof fn lemma_first_occurrence_occurs(s: Seq<char>, p: Seq<char>, i: int)
    requires
        i >= 0,
    ensures
        first_occurrence_from(s, p, i) matches Some(j) ==> occurs_at(s, p, j) && j >= i,
    decreases s.len() + 1 - i,
{
    if i + p.len() <= s.len() && !occurs_at(s, p, i) {
        lemma_first_occurrence_occurs(s, p, i + 1);
    }
}

proof fn lemma_count_implies_occurrence(s: Seq<char>, p: Seq<char>, i: int)
    requires
        p.len() > 0,
        i >= 0,
        occurrences_from(s, p, i) > 0,
    ensures
        first_occurrence_from(s, p, i) is Some,
    decreases s.len() + 1 - i,
{
    if i + p.len() <= s.len() && !occurs_at(s, p, i) {
        lemma_count_implies_occurrence(s, p, i + 1);
    }
}

} // verus!

verus! {

/// The path settings of the file-write tool in the active agent.
#[derive(Debug, Clone, PartialEq, Eq, Default)]
pub struct PathSettings {
    pub allowed_paths: Vec<String>,
    pub denied_paths: Vec<String>,
}

/// Whether `globset::Glob::new` accepts a pattern.
pub uninterp spec fn glob_parses(pattern: Seq<char>) -> bool;

/// What a set of globs, built from patterns that all parse, says of a path: whether any glob
/// matches it, or `None` when the set cannot be built.
pub uninterp spec fn glob_set_match(patterns: Seq<Seq<char>>, path: Seq<char>) -> Option<bool>;

/// Relies on `globset::Glob::new`: whether the pattern parses; this depends on the pattern alone.
#[verifier::external_body]
fn glob_is_valid(pattern: &str) -> (r: bool)
    ensures
        r == glob_parses(pattern@),
{
    globset::Glob::new(pattern).is_ok()
}

/// Relies on `globset::GlobSetBuilder::build` and `globset::GlobSet::is_match`: whether some glob
/// of the set built from `patterns` matches `path`, `None` when a pattern does not parse or the
/// set cannot be built; the result depends on the patterns and the path alone.
#[verifier::external_body]
fn glob_set_matches(patterns: &Vec<String>, path: &str) -> (r: Option<bool>)
    ensures
        (forall|i: int| 0 <= i < patterns@.len() ==> glob_parses(#[trigger] patterns@[i]@)) ==> r
            == glob_set_match(crate::message::views_of(patterns@), path@),
{
    let mut builder = globset::GlobSetBuilder::new();
    for p in patterns {
        builder.add(globset::Glob::new(p).ok()?);
    }
    builder.build().ok().map(|set| set.is_match(path))
}

/// The patterns of `ps` that parse, in order.
pub open spec fn valid_globs(ps: Seq<Seq<char>>) -> Seq<Seq<char>>
    decreases ps.len(),
{
    if ps.len() == 0 {
        Seq::empty()
    } else if glob_parses(ps.last()) {
        valid_globs(ps.drop_last()).push(ps.last())
    } else {
        valid_globs(ps.drop_last())
    }
}

/// The patterns that parse; the others are ignored.
fn keep_valid_globs(ps: &Vec<String>) -> (r: Vec<String>)
    ensures
        crate::message::views_of(r@) == valid_globs(crate::message::views_of(ps@)),
        forall|i: int| 0 <= i < r@.len() ==> glob_parses(#[trigger] r@[i]@),
{
    let mut r: Vec<String> = Vec::new();
    let mut i: usize = 0;
    while i < ps.len()
        invariant
            i <= ps.len(),
            crate::message::views_of(r@) == valid_globs(crate::message::views_of(ps@.subrange(0, i as int))),
            forall|j: int| 0 <= j < r@.len() ==> glob_parses(#[trigger] r@[j]@),
        decreases ps.len() - i,
    {
        let ghost before = r@;
        assert(crate::message::views_of(ps@.subrange(0, i + 1)).drop_last() =~= crate::message::views_of(
            ps@.subrange(0, i as int),
        ));
        if glob_is_valid(ps[i].as_str()) {
            r.push(ps[i].clone());
            assert(crate::message::views_of(r@) =~= crate::message::views_of(before).push(ps@[i as int]@));
        }
        i = i + 1;
    }
    assert(ps@.subrange(0, ps.len() as int) == ps@);
    r
}

/// The permission that path settings give a path.
pub open spec fn path_permission(s: PathSettings, path: Seq<char>) -> PermissionEvalResult {
    let allow = glob_set_match(valid_globs(crate::message::views_of(s.allowed_paths@)), path);
    let deny = glob_set_match(valid_globs(crate::message::views_of(s.denied_paths@)), path);
    match (allow, deny) {
        (Some(a), Some(d)) => if d {
            PermissionEvalResult::Deny
        } else if a {
            PermissionEvalResult::Allow
        } else {
            PermissionEvalResult::Ask
        },
        _ => PermissionEvalResult::Ask,
    }
}

impl FsWrite {
    /// The path a command writes.
    pub open spec fn path_spec(&self) -> Seq<char> {
        match self {
            FsWrite::Create { path, .. } => path@,
            FsWrite::StrReplace { path, .. } => path@,
            FsWrite::Insert { path, .. } => path@,
            FsWrite::Append { path, .. } => path@,
        }
    }

    /// Permission for this command. A tool outside the agent's allow-list needs approval; in
    /// it, a command runs unless it has path settings: then a path matching a denied pattern is
    /// refused, one matching an allowed pattern runs, and any other needs approval. Patterns
    /// that do not parse are ignored; settings that could not be read (`Some(None)`), or glob
    /// sets that cannot be built, need approval.
    pub fn eval_perm(&self, is_in_allowlist: bool, settings: Option<Option<PathSettings>>) -> (r:
        PermissionEvalResult)
        ensures
            r == if !is_in_allowlist {
                PermissionEvalResult::Ask
            } else {
                match settings {
                    None => PermissionEvalResult::Allow,
                    Some(None) => PermissionEvalResult::Ask,
                    Some(Some(s)) => path_permission(s, self.path_spec()),
                }
            },
    {
        if !is_in_allowlist {
            return PermissionEvalResult::Ask;
        }
        let s = match settings {
            None => {
                return PermissionEvalResult::Allow;
            },
            Some(None) => {
                return PermissionEvalResult::Ask;
            },
            Some(Some(s)) => s,
        };
        let path = match self {
            FsWrite::Create { path, .. } => path,
            FsWrite::StrReplace { path, .. } => path,
            FsWrite::Insert { path, .. } => path,
            FsWrite::Append { path, .. } => path,
        };
        let allowed = keep_valid_globs(&s.allowed_paths);
        let denied = keep_valid_globs(&s.denied_paths);
        let allow = glob_set_matches(&allowed, path.as_str());
        let deny = glob_set_matches(&denied, path.as_str());
        match (allow, deny) {
            (Some(a), Some(d)) => {
                if d {
                    PermissionEvalResult::Deny
                } else if a {
                    PermissionEvalResult::Allow
                } else {
                    PermissionEvalResult::Ask
                }
            },
            _ => PermissionEvalResult::Ask,
        }
    }
}

} // verus!

verus! {

/// Number of lines in `s`, counting a final line without a newline.
pub open spec fn lines_in(s: Seq<char>) -> nat {
    newlines(s) + if s.len() > 0 && s.last() != '\n' {
        1nat
    } else {
        0nat
    }
}

/// `n - k`, or zero when `k` exceeds `n`.
pub open spec fn minus_or_zero(n: int, k: int) -> int {
    if n > k {
        n - k
    } else {
        0
    }
}

/// The 0-indexed line of the 1-indexed `line`, clamped to the last line.
pub open spec fn clamped_line(line: int, count: int) -> int {
    let l = minus_or_zero(line, 1);
    if l > count - 1 {
        count - 1
    } else {
        l
    }
}

/// The context of lines `[start_line, end_line]` (1-indexed) of `content`, with up to
/// `context_lines` lines on each side: the lines before, the new first line, the lines after,
/// and the new last line. An `end_line` of 0 takes the lines after from the first line on.
pub open spec fn lines_with_context(
    content: Seq<char>,
    start_line: int,
    end_line: int,
    context_lines: int,
) -> (Seq<char>, int, Seq<char>, int) {
    let count = lines_in(content) as int;
    let inc: int = if end_line == 0 {
        0
    } else {
        1
    };
    let s0 = clamped_line(start_line, count);
    let e0 = clamped_line(end_line, count);
    let ns = minus_or_zero(s0, context_lines);
    let ne = if e0 + context_lines > count - 1 {
        count - 1
    } else {
        e0 + context_lines
    };
    (
        content.subrange(line_start(content, ns as nat), line_start(content, s0 as nat)),
        ns + 1,
        content.subrange(line_start(content, (e0 + inc) as nat), line_start(content, (ne + inc) as nat)),
        ne + inc,
    )
}

proof fn lemma_line_start_monotonic(s: Seq<char>, j: nat, k: nat)
    requires
        j <= k,
    ensures
        0 <= line_start(s, j) <= line_start(s, k) <= s.len(),
    decreases k,
{
    if k > 0 {
        if j < k {
            lemma_line_start_monotonic(s, j, (k - 1) as nat);
        }
        lemma_line_start_monotonic(s, (k - 1) as nat, (k - 1) as nat);
        lemma_next_line_start_bounds(s, line_start(s, (k - 1) as nat));
    }
}

fn line_start_exec(s: &str, k: usize) -> (r: usize)
    requires
        s@.len() < usize::MAX,
    ensures
        r == line_start(s@, k as nat),
{
    let n = s.unicode_len();
    let mut at: usize = 0;
    let mut j: usize = 0;
    while j < k
        invariant
            n == s@.len(),
            n < usize::MAX,
            j <= k,
            at == line_start(s@, j as nat),
            at <= n,
        decreases k - j,
    {
        proof {
            lemma_next_line_start_bounds(s@, at as int);
        }
        at = next_line_start_exec(s, at);
        j = j + 1;
    }
    at
}

/// The lines around `[start_line, end_line]` (1-indexed) of a non-empty `content`, with up to
/// `context_lines` lines on each side: `(prefix, new_start_line, suffix, new_end_line)`.
pub fn get_lines_with_context(
    content: &str,
    start_line: usize,
    end_line: usize,
    context_lines: usize,
) -> (r: (String, usize, String, usize))
    requires
        lines_in(content@) > 0,
        content@.len() < usize::MAX,
        clamped_line(end_line as int, lines_in(content@) as int) + context_lines <= usize::MAX,
    ensures
        ({
            let (p, s, x, e) = lines_with_context(
                content@,
                start_line as int,
                end_line as int,
                context_lines as int,
            );
            r.0@ == p && r.1 == s && r.2@ == x && r.3 == e
        }),
{
    let n = content.unicode_len();
    let last_open = n > 0 && content.get_char(n - 1) != '\n';
    let count = if last_open {
        count_newlines(content) + 1
    } else {
        count_newlines(content)
    };
    let inc: usize = if end_line == 0 {
        0
    } else {
        1
    };
    let s1 = if start_line > 1 {
        start_line - 1
    } else {
        0
    };
    let s0 = if s1 > count - 1 {
        count - 1
    } else {
        s1
    };
    let e1 = if end_line > 1 {
        end_line - 1
    } else {
        0
    };
    let e0 = if e1 > count - 1 {
        count - 1
    } else {
        e1
    };
    let ns = if s0 > context_lines {
        s0 - context_lines
    } else {
        0
    };
    let ne = if e0 + context_lines > count - 1 {
        count - 1
    } else {
        e0 + context_lines
    };
    proof {
        lemma_line_start_monotonic(content@, ns as nat, s0 as nat);
        lemma_line_start_monotonic(content@, (e0 + inc) as nat, (ne + inc) as nat);
    }
    let prefix_start = line_start_exec(content, ns);
    let prefix_end = line_start_exec(content, s0);
    let suffix_start = line_start_exec(content, e0 + inc);
    let suffix_end = line_start_exec(content, ne + inc);
    let prefix = String::from_str(content.substring_char(prefix_start, prefix_end));
    let suffix = String::from_str(content.substring_char(suffix_start, suffix_end));
    (prefix, ns + 1, suffix, ne + inc)
}

} // verus!
