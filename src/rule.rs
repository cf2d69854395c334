//! One rule of a `.gitignore` file, and the grammar of its lines.
//!
//! A line that does not start with `#` reads, after leading white space, as an
//! optional `!` (negation), a body of at least one character (taken as short as
//! possible), an optional `/` (directory only), and trailing white space.
use vstd::prelude::*;
use vstd::string::*;
use crate::pattern::{Glob, glob_valid, glob_matches};

verus! {

/// Unicode white space (the `White_Space` property).
pub open spec fn is_ws(c: char) -> bool {
    let u = c as u32;
    (0x09 <= u && u <= 0x0D) || u == 0x20 || u == 0x85 || u == 0xA0 || u == 0x1680
        || (0x2000 <= u && u <= 0x200A) || u == 0x2028 || u == 0x2029 || u == 0x202F
        || u == 0x205F || u == 0x3000
}

/// Whether `c` is Unicode white space.
pub fn is_whitespace(c: char) -> (r: bool)
    ensures
        r == is_ws(c),
{
    let u = c as u32;
    (0x09 <= u && u <= 0x0D) || u == 0x20 || u == 0x85 || u == 0xA0 || u == 0x1680
        || (0x2000 <= u && u <= 0x200A) || u == 0x2028 || u == 0x2029 || u == 0x202F
        || u == 0x205F || u == 0x3000
}

/// `a` is the number of white-space characters that start `line`.
pub open spec fn is_lead(line: Seq<char>, a: int) -> bool {
    &&& 0 <= a <= line.len()
    &&& forall|i: int| 0 <= i < a ==> is_ws(#[trigger] line[i])
    &&& (a == line.len() || !is_ws(line[a]))
}

/// What follows index `e` is white space, possibly after one `/`.
pub open spec fn tail_ok(line: Seq<char>, e: int) -> bool {
    forall|i: int| e <= i < line.len() ==> is_ws(#[trigger] line[i]) || (i == e && line[i] == '/')
}

/// `e` is the end of the shortest body that starts at `start`.
pub open spec fn is_body_end(line: Seq<char>, start: int, e: int) -> bool {
    &&& start < e <= line.len()
    &&& tail_ok(line, e)
    &&& forall|k: int| start < k < e ==> !tail_ok(line, k)
}

pub open spec fn lead(line: Seq<char>) -> int {
    choose|a: int| is_lead(line, a)
}

/// Where the optional `!` would stand: after the leading white space, but
/// never past the last character (the body takes at least one).
pub open spec fn bang_pos(line: Seq<char>) -> int {
    if lead(line) == line.len() { line.len() - 1 } else { lead(line) }
}

pub open spec fn negated(line: Seq<char>) -> bool {
    line[bang_pos(line)] == '!' && bang_pos(line) + 1 < line.len()
}

pub open spec fn body_start(line: Seq<char>) -> int {
    if negated(line) { bang_pos(line) + 1 } else { bang_pos(line) }
}

pub open spec fn body_end(line: Seq<char>) -> int {
    choose|e: int| is_body_end(line, body_start(line), e)
}

pub open spec fn body(line: Seq<char>) -> Seq<char> {
    line.subrange(body_start(line), body_end(line))
}

pub open spec fn directory_marked(line: Seq<char>) -> bool {
    body_end(line) < line.len() && line[body_end(line)] == '/'
}

/// The glob text of a rule: a body holding a `/` and starting with one is
/// anchored under `ref_dir`.
pub open spec fn glob_text(line: Seq<char>, ref_dir: Seq<char>) -> Seq<char> {
    let b = body(line);
    if b.contains('/') && b[0] == '/' { ref_dir + b } else { b }
}

/// What a rule holds, as plain values.
pub struct RuleView {
    pub ok: bool,
    pub directory: bool,
    pub filename: bool,
    pub pattern: Seq<char>,
    pub case_sensitive: bool,
    pub literal_separator: bool,
    pub literal_leading_dot: bool,
}

/// The rule that a line gives, if any: none for an empty line, a comment, or
/// a pattern that does not compile.
pub open spec fn parse_line(line: Seq<char>, ref_dir: Seq<char>) -> Option<RuleView> {
    if line.len() == 0 || line[0] == '#' || !glob_valid(glob_text(line, ref_dir)) {
        None
    } else {
        Some(RuleView {
            ok: negated(line),
            directory: directory_marked(line),
            filename: !body(line).contains('/'),
            pattern: glob_text(line, ref_dir),
            case_sensitive: true,
            literal_separator: body(line).contains('/'),
            literal_leading_dot: false,
        })
    }
}

/// Whether the rule applies to a candidate: a directory-only rule never to a
/// plain file; a filename rule to the bare name, another rule to the path,
/// which is `None` when it is not valid Unicode and then never matches.
pub open spec fn rule_matches(r: RuleView, path: Option<Seq<char>>, filename: Seq<char>, directory: bool) -> bool {
    &&& !(r.directory && !directory)
    &&& if r.filename {
        glob_matches(r.pattern, r.case_sensitive, r.literal_separator, r.literal_leading_dot, filename)
    } else {
        match path {
            Some(p) => glob_matches(r.pattern, r.case_sensitive, r.literal_separator, r.literal_leading_dot, p),
            None => false,
        }
    }
}

/// The view of an optional string.
pub open spec fn opt_str(s: Option<&str>) -> Option<Seq<char>> {
    match s {
        Some(p) => Some(p@),
        None => None,
    }
}

pub proof fn lemma_lead_unique(line: Seq<char>, a: int, b: int)
    requires
        is_lead(line, a),
        is_lead(line, b),
    ensures
        a == b,
{
    if a < b {
        assert(is_ws(line[a]));
    } else if b < a {
        assert(is_ws(line[b]));
    }
}

pub proof fn lemma_body_end_unique(line: Seq<char>, start: int, a: int, b: int)
    requires
        is_body_end(line, start, a),
        is_body_end(line, start, b),
    ensures
        a == b,
{
}

/// a simple rule of a gitignore file
pub struct GitIgnoreRule {
    /// when matched, the path is kept (a negated line)
    pub ok: bool,
    /// the rule only applies to directories
    pub directory: bool,
    /// the rule applies to the bare file name
    pub filename: bool,
    pub pattern: Glob,
    /// match options handed to the glob matcher
    pub case_sensitive: bool,
    pub literal_separator: bool,
    pub literal_leading_dot: bool,
}

impl View for GitIgnoreRule {
    type V = RuleView;

    open spec fn view(&self) -> RuleView {
        RuleView {
            ok: self.ok,
            directory: self.directory,
            filename: self.filename,
            pattern: self.pattern@,
            case_sensitive: self.case_sensitive,
            literal_separator: self.literal_separator,
            literal_leading_dot: self.literal_leading_dot,
        }
    }
}

impl Clone for GitIgnoreRule {
    fn clone(&self) -> (r: GitIgnoreRule)
        ensures
            r@ == self@,
    {
        GitIgnoreRule {
            ok: self.ok,
            directory: self.directory,
            filename: self.filename,
            pattern: self.pattern.clone(),
            case_sensitive: self.case_sensitive,
            literal_separator: self.literal_separator,
            literal_leading_dot: self.literal_leading_dot,
        }
    }
}

fn contains_slash(s: &str) -> (r: bool)
    ensures
        r == s@.contains('/'),
{
    let n = s.unicode_len();
    let mut i: usize = 0;
    while i < n
        invariant
            n == s@.len(),
            i <= n,
            forall|k: int| 0 <= k < i ==> s@[k] != '/',
        decreases n - i,
    {
        if s.get_char(i) == '/' {
            return true;
        }
        i += 1;
    }
    false
}

impl GitIgnoreRule {
    /// parse a line of a .gitignore file.
    /// The ref_dir is used if the line starts with '/'
    pub fn from(line: &str, ref_dir: &str) -> (r: Option<GitIgnoreRule>)
        requires
            !line@.contains('\n'),
        ensures
            r matches Some(rule) ==> parse_line(line@, ref_dir@) == Some(rule@),
            r is None ==> parse_line(line@, ref_dir@) is None,
    {
        let ghost s = line@;
        let n = line.unicode_len();
        if n == 0 {
            return None;
        }
        if line.get_char(0) == '#' {
            return None;
        }
        let mut a: usize = 0;
        while a < n && is_whitespace(line.get_char(a))
            invariant
                s == line@,
                n == s.len(),
                a <= n,
                forall|i: int| 0 <= i < a ==> is_ws(#[trigger] s[i]),
            decreases n - a,
        {
            a += 1;
        }
        proof {
            assert(is_lead(s, a as int));
            lemma_lead_unique(s, a as int, lead(s));
        }
        let a: usize = if a == n { n - 1 } else { a };
        let neg = line.get_char(a) == '!' && a + 1 < n;
        let start: usize = if neg { a + 1 } else { a };
        let mut m: usize = n;
        while m > 0 && is_whitespace(line.get_char(m - 1))
            invariant
                s == line@,
                n == s.len(),
                m <= n,
                forall|i: int| m <= i < n ==> is_ws(#[trigger] s[i]),
            decreases m,
        {
            m -= 1;
        }
        assert(!is_ws('/'));
        let end: usize = if m > start + 1 && line.get_char(m - 1) == '/' {
            m - 1
        } else if m >= start + 1 {
            m
        } else {
            start + 1
        };
        proof {
            assert(tail_ok(s, end as int));
            assert forall|k: int| start < k < end implies !tail_ok(s, k) by {
                let w = m - 1;
                assert(!is_ws(s[w]));
                assert(!(is_ws(s[w]) || (w == k && s[w] == '/')));
            }
            assert(is_body_end(s, start as int, end as int));
            lemma_body_end_unique(s, start as int, end as int, body_end(s));
        }
        let directory = end < n && line.get_char(end) == '/';
        let b = line.substring_char(start, end);
        let has_separator = contains_slash(b);
        let text: String = if has_separator && b.get_char(0) == '/' {
            let mut t = String::from_str(ref_dir);
            t.append(b);
            t
        } else {
            String::from_str(b)
        };
        assert(text@ == glob_text(s, ref_dir@));
        match Glob::compile(text.as_str()) {
            Some(pattern) => Some(GitIgnoreRule {
                ok: neg,
                directory,
                filename: !has_separator,
                pattern,
                case_sensitive: true,
                literal_separator: has_separator,
                literal_leading_dot: false,
            }),
            None => None,
        }
    }

    /// Whether this rule applies to the candidate.
    pub fn applies(&self, path: Option<&str>, filename: &str, directory: bool) -> (r: bool)
        ensures
            r == rule_matches(self@, opt_str(path), filename@, directory),
    {
        if self.directory && !directory {
            false
        } else if self.filename {
            self.pattern.matches(filename, self.case_sensitive, self.literal_separator, self.literal_leading_dot)
        } else {
            match path {
                Some(p) => self.pattern.matches(p, self.case_sensitive, self.literal_separator, self.literal_leading_dot),
                None => false,
            }
        }
    }
}

} // verus!
