//! What the rule order and the store guarantee.
use vstd::prelude::*;
use crate::rule::{RuleView, parse_line, rule_matches, body};
use crate::ignore::{file_rules, file_verdict, file_of, chain_verdict, accepted, ChainView, FileId};

verus! {

/// The line gives no rule that applies to the candidate.
pub open spec fn line_silent(line: Seq<char>, ref_dir: Seq<char>, path: Option<Seq<char>>, filename: Seq<char>, directory: bool) -> bool {
    match parse_line(line, ref_dir) {
        Some(r) => !rule_matches(r, path, filename, directory),
        None => true,
    }
}

proof fn lemma_verdict_push(rules: Seq<RuleView>, x: RuleView, path: Option<Seq<char>>, filename: Seq<char>, directory: bool)
    ensures
        file_verdict(rules.push(x), path, filename, directory) == match file_verdict(rules, path, filename, directory) {
            Some(v) => Some(v),
            None => if rule_matches(x, path, filename, directory) { Some(x.ok) } else { None },
        },
    decreases rules.len(),
{
    if rules.len() > 0 {
        assert(rules.push(x).drop_first() =~= rules.drop_first().push(x));
        assert(rules.push(x)[0] == rules[0]);
        lemma_verdict_push(rules.drop_first(), x, path, filename, directory);
    } else {
        assert(rules.push(x).drop_first() =~= Seq::<RuleView>::empty());
        assert(file_verdict(Seq::<RuleView>::empty(), path, filename, directory) is None);
        assert(rules.push(x)[0] == x);
    }
}

proof fn lemma_silent_lines(lines: Seq<Seq<char>>, ref_dir: Seq<char>, path: Option<Seq<char>>, filename: Seq<char>, directory: bool)
    requires
        forall|k: int| 0 <= k < lines.len() ==> line_silent(#[trigger] lines[k], ref_dir, path, filename, directory),
    ensures
        file_verdict(file_rules(lines, ref_dir), path, filename, directory) is None,
    decreases lines.len(),
{
    if lines.len() > 0 {
        let rest = lines.drop_first();
        assert forall|k: int| 0 <= k < rest.len() implies line_silent(#[trigger] rest[k], ref_dir, path, filename, directory) by {
            assert(rest[k] == lines[k + 1]);
        }
        lemma_silent_lines(rest, ref_dir, path, filename, directory);
        assert(line_silent(lines[0], ref_dir, path, filename, directory));
        match parse_line(lines[0], ref_dir) {
            Some(r) => lemma_verdict_push(file_rules(rest, ref_dir), r, path, filename, directory),
            None => {},
        }
    }
}

/// Within one file the last line that applies to a candidate decides: when
/// the line at `j` gives a rule that applies and no later line does, the
/// file's verdict is that rule's.
pub proof fn lemma_last_line_wins(lines: Seq<Seq<char>>, ref_dir: Seq<char>, path: Option<Seq<char>>, filename: Seq<char>, directory: bool, j: int)
    requires
        0 <= j < lines.len(),
        parse_line(lines[j], ref_dir) is Some,
        rule_matches(parse_line(lines[j], ref_dir)->Some_0, path, filename, directory),
        forall|k: int| j < k < lines.len() ==> line_silent(#[trigger] lines[k], ref_dir, path, filename, directory),
    ensures
        file_verdict(file_rules(lines, ref_dir), path, filename, directory) == Some(parse_line(lines[j], ref_dir)->Some_0.ok),
    decreases lines.len(),
{
    let rest = lines.drop_first();
    if j == 0 {
        assert forall|k: int| 0 <= k < rest.len() implies line_silent(#[trigger] rest[k], ref_dir, path, filename, directory) by {
            assert(rest[k] == lines[k + 1]);
        }
        lemma_silent_lines(rest, ref_dir, path, filename, directory);
        lemma_verdict_push(file_rules(rest, ref_dir), parse_line(lines[0], ref_dir)->Some_0, path, filename, directory);
    } else {
        assert forall|k: int| j - 1 < k < rest.len() implies line_silent(#[trigger] rest[k], ref_dir, path, filename, directory) by {
            assert(rest[k] == lines[k + 1]);
        }
        assert(rest[j - 1] == lines[j]);
        lemma_last_line_wins(rest, ref_dir, path, filename, directory, j - 1);
        match parse_line(lines[0], ref_dir) {
            Some(r) => lemma_verdict_push(file_rules(rest, ref_dir), r, path, filename, directory),
            None => {},
        }
    }
}

/// A deeper rule file overrides its ancestors: when the file last added to a
/// chain in a repository has a verdict for a candidate, that verdict is the
/// chain's, whatever the earlier files hold.
pub proof fn lemma_deeper_scope_wins(files: Seq<Seq<RuleView>>, parent_ids: Seq<FileId>, id: FileId, path: Option<Seq<char>>, filename: Seq<char>, directory: bool)
    requires
        file_verdict(file_of(files, id), path, filename, directory) is Some,
    ensures
        accepted(files, ChainView { in_repo: true, ids: parent_ids.push(id) }, path, filename, directory)
            == file_verdict(file_of(files, id), path, filename, directory)->Some_0,
{
    let ids = parent_ids.push(id);
    assert(ids.drop_last() =~= parent_ids);
    assert(ids.last() == id);
}

/// A directory-only rule never applies to a plain file.
pub proof fn lemma_directory_rule_skips_files(line: Seq<char>, ref_dir: Seq<char>, path: Option<Seq<char>>, filename: Seq<char>)
    requires
        parse_line(line, ref_dir) is Some,
        parse_line(line, ref_dir)->Some_0.directory,
    ensures
        !rule_matches(parse_line(line, ref_dir)->Some_0, path, filename, false),
{
}

/// A rule whose body holds no `/` is matched against the bare file name, so
/// the path, and with it the depth, does not change whether it applies.
pub proof fn lemma_filename_rule_ignores_depth(line: Seq<char>, ref_dir: Seq<char>, path1: Option<Seq<char>>, path2: Option<Seq<char>>, filename: Seq<char>, directory: bool)
    requires
        parse_line(line, ref_dir) is Some,
        !body(line).contains('/'),
    ensures
        parse_line(line, ref_dir)->Some_0.filename,
        rule_matches(parse_line(line, ref_dir)->Some_0, path1, filename, directory)
            == rule_matches(parse_line(line, ref_dir)->Some_0, path2, filename, directory),
{
}

/// A rule whose body starts with `/` is anchored: its pattern is the body
/// under the reference directory, matched case-sensitively against the whole
/// path with `/` matched literally.
pub proof fn lemma_anchored_rule(line: Seq<char>, ref_dir: Seq<char>, path: Option<Seq<char>>, filename: Seq<char>, directory: bool)
    requires
        parse_line(line, ref_dir) is Some,
        body(line).len() > 0,
        body(line)[0] == '/',
    ensures
        parse_line(line, ref_dir)->Some_0.pattern == ref_dir + body(line),
        !parse_line(line, ref_dir)->Some_0.filename,
        rule_matches(parse_line(line, ref_dir)->Some_0, path, filename, directory)
            == (!(parse_line(line, ref_dir)->Some_0.directory && !directory)
                && match path {
                    Some(p) => crate::pattern::glob_matches(ref_dir + body(line), true, true, false, p),
                    None => false,
                }),
{
    assert(body(line).contains('/'));
}

} // verus!
