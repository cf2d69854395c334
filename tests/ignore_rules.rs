use gitignorer::{
    git_dir, global_ignore_path, is_repo, supported, GitIgnoreChain, GitIgnoreRule, GitIgnorer, Glob,
    NameCache,
};

fn lines(ls: &[&str]) -> Option<Vec<String>> {
    Some(ls.iter().map(|l| l.to_string()).collect())
}

/// A store with one repository root at `dir` whose `.gitignore` holds `ls`.
fn repo_with(dir: &str, ls: &[&str]) -> (GitIgnorer, GitIgnoreChain) {
    let mut ig = GitIgnorer::new();
    let local = ig.load(&format!("{}/.gitignore", dir), dir, lines(ls));
    let mut chain = GitIgnoreChain::default();
    assert!(!chain.root_chain_step(true, None, local));
    (ig, chain)
}

#[test]
fn end_to_end_repo_with_nested_gitignore() {
    let (mut ig, root) = repo_with("/repo", &["*.tmp"]);
    assert!(root.in_repo());
    assert!(ig.accepts(&root, Some("/repo/a.txt"), "a.txt", false));
    assert!(!ig.accepts(&root, Some("/repo/a.tmp"), "a.tmp", false));
    assert!(root.deeper_in_repo(false));
    let local = ig.load("/repo/src/.gitignore", "/repo/src", lines(&["!keep.tmp"]));
    let src = GitIgnorer::deeper_chain(&root, false, None, local);
    assert_eq!(src.file_ids().len(), 2);
    assert!(!ig.accepts(&src, Some("/repo/src/other.tmp"), "other.tmp", false));
    assert!(ig.accepts(&src, Some("/repo/src/keep.tmp"), "keep.tmp", false));
}

#[test]
fn last_line_wins_within_a_file() {
    let (ig, chain) = repo_with("/r", &["build/", "!build/"]);
    assert!(ig.accepts(&chain, Some("/r/build"), "build", true));
    let (ig, chain) = repo_with("/r", &["!build/", "build/"]);
    assert!(!ig.accepts(&chain, Some("/r/build"), "build", true));
}

#[test]
fn deeper_scope_wins_across_directories() {
    let (mut ig, root) = repo_with("/r", &["*.log", "*.tmp", "*.bak", "target"]);
    let local = ig.load("/r/sub/.gitignore", "/r/sub", lines(&["!*.log"]));
    let sub = GitIgnorer::deeper_chain(&root, false, None, local);
    assert!(!ig.accepts(&root, Some("/r/sub/x.log"), "x.log", false));
    assert!(ig.accepts(&sub, Some("/r/sub/x.log"), "x.log", false));
    assert!(!ig.accepts(&sub, Some("/r/sub/x.tmp"), "x.tmp", false));
}

#[test]
fn directory_only_rule_skips_plain_files() {
    let (ig, chain) = repo_with("/r", &["foo/"]);
    assert!(ig.accepts(&chain, Some("/r/foo"), "foo", false));
    assert!(!ig.accepts(&chain, Some("/r/foo"), "foo", true));
}

#[test]
fn filename_rule_matches_at_any_depth() {
    let (ig, chain) = repo_with("/r", &["*.log"]);
    assert!(!ig.accepts(&chain, Some("a/b/c/x.log"), "x.log", false));
    assert!(!ig.accepts(&chain, Some("x.log"), "x.log", false));
    assert!(ig.accepts(&chain, Some("a/b/c/x.txt"), "x.txt", false));
}

#[test]
fn anchored_rule_matches_only_at_anchor() {
    let (ig, chain) = repo_with("/D", &["/build"]);
    assert!(!ig.accepts(&chain, Some("/D/build"), "build", true));
    assert!(ig.accepts(&chain, Some("/D/sub/build"), "build", true));
}

#[test]
fn nested_repository_resets_chain() {
    let (mut ig, outer) = repo_with("/A", &["*.c"]);
    let global = ig.load("/home/u/.config/git/ignore", "/A/vendor", lines(&["*.o"]));
    let local = ig.load("/A/vendor/.gitignore", "/A/vendor", lines(&["*.h"]));
    let inner = GitIgnorer::deeper_chain(&outer, true, global, local);
    assert!(inner.in_repo());
    assert_eq!(inner.file_ids(), &vec![global.unwrap(), local.unwrap()]);
    for id in outer.file_ids() {
        assert!(!inner.file_ids().contains(id));
    }
    assert!(ig.accepts(&inner, Some("/A/vendor/x.c"), "x.c", false));
    assert!(!ig.accepts(&inner, Some("/A/vendor/x.o"), "x.o", false));
}

#[test]
fn outside_any_repository_everything_is_accepted() {
    let mut ig = GitIgnorer::new();
    let local = ig.load("/x/.gitignore", "/x", lines(&["*"]));
    let mut chain = GitIgnoreChain::default();
    assert!(chain.root_chain_step(false, None, local));
    assert!(!chain.in_repo());
    assert!(ig.accepts(&chain, Some("/x/a"), "a", false));
    assert!(ig.accepts(&chain, Some("/x/b"), "b", true));
    assert!(!chain.deeper_in_repo(false));
    let child = GitIgnorer::deeper_chain(&chain, false, None, local);
    assert_eq!(child.file_ids(), chain.file_ids());
    assert!(ig.accepts(&child, Some("/x/y/a"), "a", false));
}

#[test]
fn loading_a_known_file_reads_nothing_new() {
    let mut ig = GitIgnorer::new();
    assert_eq!(ig.lookup("/r/.gitignore", "/r"), None);
    let first = ig.load("/r/.gitignore", "/r", lines(&["*.o"]));
    assert_eq!(ig.len(), 1);
    assert_eq!(ig.lookup("/r/.gitignore", "/r"), Some(first));
    let second = ig.load("/r/.gitignore", "/r", lines(&["*.c"]));
    assert_eq!(first, second);
    assert_eq!(ig.len(), 1);
    let mut chain = GitIgnoreChain::default();
    chain.root_chain_step(true, None, second);
    assert!(!ig.accepts(&chain, Some("/r/a.o"), "a.o", false));
    assert!(ig.accepts(&chain, Some("/r/a.c"), "a.c", false));
    // the same file under another reference directory is another entry
    let other = ig.load("/r/.gitignore", "/s", lines(&["*.c"]));
    assert_ne!(other, first);
    assert_eq!(ig.len(), 2);
}

#[test]
fn unreadable_file_gives_no_handle() {
    let mut ig = GitIgnorer::new();
    assert_eq!(ig.load("/r/.gitignore", "/r", None), None);
    assert_eq!(ig.lookup("/r/.gitignore", "/r"), Some(None));
    assert_eq!(ig.load("/r/.gitignore", "/r", lines(&["*"])), None);
}

#[test]
fn root_chain_collects_up_to_repository_root() {
    let mut ig = GitIgnorer::new();
    let deep = ig.load("/r/a/.gitignore", "/r/a", lines(&["!x.log"]));
    let global = ig.load("/home/u/.config/git/ignore", "/r", lines(&["*.swp"]));
    let top = ig.load("/r/.gitignore", "/r", lines(&["*.log"]));
    let mut chain = GitIgnoreChain::default();
    assert!(chain.root_chain_step(false, None, deep));
    assert!(!chain.in_repo());
    assert!(!chain.root_chain_step(true, global, top));
    assert!(chain.in_repo());
    assert_eq!(chain.file_ids().len(), 3);
    assert!(!ig.accepts(&chain, Some("/r/a/y.log"), "y.log", false));
    // the deeper directory's `!x.log` beats the root's `*.log`
    assert!(ig.accepts(&chain, Some("/r/a/x.log"), "x.log", false));
    // the same chain as the one derived downward from the root
    let mut from_root = GitIgnoreChain::default();
    from_root.root_chain_step(true, global, top);
    let derived = GitIgnorer::deeper_chain(&from_root, false, None, deep);
    assert_eq!(derived.file_ids(), chain.file_ids());
    assert_eq!(chain.file_ids(), &vec![global.unwrap(), top.unwrap(), deep.unwrap()]);
    assert!(!ig.accepts(&chain, Some("/r/a/y.swp"), "y.swp", false));
    assert!(ig.accepts(&chain, Some("/r/a/z.txt"), "z.txt", false));
}

#[test]
fn push_adds_a_handle() {
    let mut ig = GitIgnorer::new();
    let a = ig.load("/a/.gitignore", "/a", lines(&["x"])).unwrap();
    let b = ig.load("/b/.gitignore", "/b", lines(&["y"])).unwrap();
    let mut chain = GitIgnoreChain::default();
    chain.push(b);
    chain.push(a);
    assert_eq!(chain.file_ids(), &vec![b, a]);
    assert!(!chain.in_repo());
    assert!(ig.holds_chain(&chain));
    assert!(!GitIgnorer::new().holds_chain(&chain));
}

#[test]
fn parse_plain_and_directory_rules() {
    let r = GitIgnoreRule::from("build/", "/d").unwrap();
    assert!(!r.ok && r.directory && r.filename);
    assert_eq!(r.pattern.as_str(), "build");
    let r = GitIgnoreRule::from("!build/", "/d").unwrap();
    assert!(r.ok && r.directory && r.filename);
    assert_eq!(r.pattern.as_str(), "build");
    let r = GitIgnoreRule::from("a/b/", "/d").unwrap();
    assert!(r.directory && !r.filename);
    assert_eq!(r.pattern.as_str(), "a/b");
    let r = GitIgnoreRule::from("foo//", "/d").unwrap();
    assert!(r.directory && !r.filename);
    assert_eq!(r.pattern.as_str(), "foo/");
}

#[test]
fn parse_anchored_and_trimmed_rules() {
    let r = GitIgnoreRule::from("  /build  ", "/d").unwrap();
    assert!(!r.ok && !r.directory && !r.filename);
    assert_eq!(r.pattern.as_str(), "/d/build");
    let r = GitIgnoreRule::from("\t!*.o \r", "/d").unwrap();
    assert!(r.ok && r.filename);
    assert_eq!(r.pattern.as_str(), "*.o");
    let r = GitIgnoreRule::from("/", "/d").unwrap();
    assert!(!r.directory && !r.filename);
    assert_eq!(r.pattern.as_str(), "/d/");
}

#[test]
fn parse_lines_that_give_no_rule() {
    assert!(GitIgnoreRule::from("", "/d").is_none());
    assert!(GitIgnoreRule::from("# a comment", "/d").is_none());
    assert!(GitIgnoreRule::from("#", "/d").is_none());
    assert!(GitIgnoreRule::from("***", "/d").is_none());
    assert!(GitIgnoreRule::from("a**", "/d").is_none());
}

#[test]
fn parse_odd_lines() {
    let r = GitIgnoreRule::from(" #x", "/d").unwrap();
    assert_eq!(r.pattern.as_str(), "#x");
    let r = GitIgnoreRule::from("!", "/d").unwrap();
    assert!(!r.ok);
    assert_eq!(r.pattern.as_str(), "!");
    let r = GitIgnoreRule::from("  ", "/d").unwrap();
    assert_eq!(r.pattern.as_str(), " ");
    let r = GitIgnoreRule::from("! ", "/d").unwrap();
    assert!(r.ok);
    assert_eq!(r.pattern.as_str(), " ");
}

#[test]
fn rule_applies_by_name_or_path() {
    let r = GitIgnoreRule::from("*.rs", "/d").unwrap();
    assert!(r.applies(Some("/d/x/y.rs"), "y.rs", false));
    assert!(!r.applies(Some("/d/x/y.rs"), "y.txt", false));
    let r = GitIgnoreRule::from("/src/*.rs", "/d").unwrap();
    assert!(r.applies(Some("/d/src/a.rs"), "a.rs", false));
    assert!(!r.applies(Some("/d/src/x/a.rs"), "a.rs", false));
}

#[test]
fn glob_compile_and_match() {
    assert!(Glob::compile("[a").is_none());
    let g = Glob::compile("*.rs").unwrap();
    assert_eq!(g.as_str(), "*.rs");
    assert!(g.matches("a.rs", true, false, false));
    assert!(!g.matches("a.rc", true, false, false));
    assert!(g.matches("a/b.rs", true, false, false));
    assert!(!g.matches("a/b.rs", true, true, false));
    assert!(g.matches(".rs", true, true, false));
    assert!(!Glob::compile("A.rs").unwrap().matches("a.rs", true, false, false));
}

#[test]
fn file_from_lines_reverses_order() {
    let f = gitignorer::GitIgnoreFile::from_lines(&lines(&["# c", "*.a", "", "!x.a"]).unwrap(), "/d");
    assert_eq!(f.len(), 2);
    assert_eq!(f.verdict(Some("/d/x.a"), "x.a", false), Some(true));
    assert_eq!(f.verdict(Some("/d/y.a"), "y.a", false), Some(false));
    assert_eq!(f.verdict(Some("/d/y.b"), "y.b", false), None);
}

#[test]
fn name_cache_remembers_names() {
    let mut c = NameCache::new();
    assert_eq!(c.get(0), None);
    assert_eq!(c.record(0, Some("root".to_string())), "root");
    assert_eq!(c.get(0), Some("root".to_string()));
    assert_eq!(c.record(4242, None), "????");
    assert_eq!(c.get(4242), Some("????".to_string()));
}

#[test]
fn permissions_are_supported() {
    assert!(supported());
}

#[test]
fn missing_directory_is_no_repository() {
    assert!(!is_repo("/no/such/directory/anywhere"));
    assert_eq!(git_dir("/repo"), "/repo/.git");
}

#[test]
fn path_rule_never_matches_a_path_that_is_not_unicode() {
    let r = GitIgnoreRule::from("/src/*.rs", "/d").unwrap();
    assert!(!r.applies(None, "a.rs", false));
    let r = GitIgnoreRule::from("*.rs", "/d").unwrap();
    assert!(r.applies(None, "a.rs", false));
}

#[test]
fn parsed_rules_carry_match_options() {
    let r = GitIgnoreRule::from("*.o", "/d").unwrap();
    assert!(r.case_sensitive && !r.literal_separator && !r.literal_leading_dot);
    let r = GitIgnoreRule::from("a/*.o", "/d").unwrap();
    assert!(r.case_sensitive && r.literal_separator && !r.literal_leading_dot);
}

#[test]
fn glob_match_options_are_honoured() {
    let g = Glob::compile("*.RS").unwrap();
    assert!(!g.matches("a.rs", true, false, false));
    assert!(g.matches("a.rs", false, false, false));
    let g = Glob::compile("*rc").unwrap();
    assert!(g.matches(".bashrc", true, false, false));
    assert!(!g.matches(".bashrc", true, false, true));
}

#[test]
fn global_ignore_path_prefers_configuration() {
    let s = |v: &str| Some(v.to_string());
    assert_eq!(global_ignore_path(s("/x/ignore"), s("/c"), s("/h")), s("/x/ignore"));
    assert_eq!(global_ignore_path(None, s("/c"), s("/h")), s("/c/git/ignore"));
    assert_eq!(global_ignore_path(None, None, s("/h")), s("/h/.config/git/ignore"));
    assert_eq!(global_ignore_path(None, None, None), None);
}
