//! Rule files, chains of rule files, and the store that owns the rule files.
use vstd::prelude::*;
use vstd::string::*;
use crate::rule::{GitIgnoreRule, RuleView, parse_line, rule_matches, opt_str};
use crate::arena::{arena_files, arena_owns, id_index};
use id_arena::{Arena, Id};

verus! {

/// The rules of one file, last line first: each line that gives a rule is
/// put after the rules of the lines below it.
pub open spec fn file_rules(lines: Seq<Seq<char>>, ref_dir: Seq<char>) -> Seq<RuleView>
    decreases lines.len(),
{
    if lines.len() == 0 {
        Seq::empty()
    } else {
        let later = file_rules(lines.drop_first(), ref_dir);
        match parse_line(lines[0], ref_dir) {
            Some(r) => later.push(r),
            None => later,
        }
    }
}

/// The verdict of the first rule of `rules` that applies, if any.
pub open spec fn file_verdict(rules: Seq<RuleView>, path: Option<Seq<char>>, filename: Seq<char>, directory: bool) -> Option<bool>
    decreases rules.len(),
{
    if rules.len() == 0 {
        None
    } else if rule_matches(rules[0], path, filename, directory) {
        Some(rules[0].ok)
    } else {
        file_verdict(rules.drop_first(), path, filename, directory)
    }
}

pub open spec fn lines_view(lines: Seq<String>) -> Seq<Seq<char>> {
    lines.map_values(|l: String| l@)
}

/// The rules of a gitignore file
pub struct GitIgnoreFile {
    rules: Vec<GitIgnoreRule>,
}

impl View for GitIgnoreFile {
    type V = Seq<RuleView>;

    closed spec fn view(&self) -> Seq<RuleView> {
        self.rules@.map_values(|r: GitIgnoreRule| r@)
    }
}

impl GitIgnoreFile {
    /// Build the rules of a file from its lines. The ref_dir is either:
    /// - the path of the current repository for the global gitignore
    /// - the directory containing the .gitignore file
    pub fn from_lines(lines: &Vec<String>, ref_dir: &str) -> (r: GitIgnoreFile)
        requires
            forall|i: int| 0 <= i < lines@.len() ==> !(#[trigger] lines@[i])@.contains('\n'),
        ensures
            r@ == file_rules(lines_view(lines@), ref_dir@),
    {
        let ghost ls = lines_view(lines@);
        let mut rules: Vec<GitIgnoreRule> = Vec::new();
        let mut i: usize = lines.len();
        while i > 0
            invariant
                ls == lines_view(lines@),
                i <= lines@.len(),
                forall|k: int| 0 <= k < lines@.len() ==> !(#[trigger] lines@[k])@.contains('\n'),
                rules@.map_values(|r: GitIgnoreRule| r@) == file_rules(ls.subrange(i as int, ls.len() as int), ref_dir@),
            decreases i,
        {
            i -= 1;
            let ghost before = rules@;
            let parsed = GitIgnoreRule::from(lines[i].as_str(), ref_dir);
            proof {
                let sub = ls.subrange(i as int, ls.len() as int);
                assert(sub.drop_first() =~= ls.subrange(i + 1, ls.len() as int));
                assert(sub[0] == lines@[i as int]@);
            }
            match parsed {
                Some(rule) => {
                    rules.push(rule);
                    assert(rules@.map_values(|r: GitIgnoreRule| r@) =~= before.map_values(|r: GitIgnoreRule| r@).push(rule@));
                },
                None => {},
            }
        }
        assert(ls.subrange(0, ls.len() as int) =~= ls);
        GitIgnoreFile { rules }
    }

    pub fn len(&self) -> (r: usize)
        ensures
            r == self@.len(),
    {
        self.rules.len()
    }

    /// The verdict of the first rule that applies to the candidate: `Some(true)`
    /// when it is kept, `Some(false)` when it is ignored.
    pub fn verdict(&self, path: Option<&str>, filename: &str, directory: bool) -> (r: Option<bool>)
        ensures
            r == file_verdict(self@, opt_str(path), filename@, directory),
    {
        let ghost rs = self@;
        let n = self.rules.len();
        let mut k: usize = 0;
        assert(rs.subrange(0, n as int) =~= rs);
        while k < n
            invariant
                rs == self@,
                n == rs.len(),
                k <= n,
                file_verdict(rs, opt_str(path), filename@, directory) == file_verdict(rs.subrange(k as int, n as int), opt_str(path), filename@, directory),
            decreases n - k,
        {
            let rule = &self.rules[k];
            proof {
                let sub = rs.subrange(k as int, n as int);
                assert(sub.drop_first() =~= rs.subrange(k + 1, n as int));
                assert(sub[0] == rule@);
            }
            if rule.applies(path, filename, directory) {
                return Some(rule.ok);
            }
            k += 1;
        }
        None
    }
}

/// A handle on a rule file of the store.
pub type FileId = Id<GitIgnoreFile>;

/// What a chain holds: whether its directory lies in a repository, and the
/// handles of its rule files, shallowest scope first as they were added.
pub struct ChainView {
    pub in_repo: bool,
    pub ids: Seq<FileId>,
}

/// The rule files in scope for one directory.
pub struct GitIgnoreChain {
    in_repo: bool,
    file_ids: Vec<FileId>,
}

impl View for GitIgnoreChain {
    type V = ChainView;

    closed spec fn view(&self) -> ChainView {
        ChainView { in_repo: self.in_repo, ids: self.file_ids@ }
    }
}

pub open spec fn opt_seq(h: Option<FileId>) -> Seq<FileId> {
    match h {
        Some(id) => seq![id],
        None => Seq::empty(),
    }
}

impl Clone for GitIgnoreChain {
    fn clone(&self) -> (r: GitIgnoreChain)
        ensures
            r@ == self@,
    {
        let mut file_ids: Vec<FileId> = Vec::new();
        let n = self.file_ids.len();
        let mut i: usize = 0;
        while i < n
            invariant
                n == self.file_ids@.len(),
                i <= n,
                file_ids@ == self.file_ids@.subrange(0, i as int),
            decreases n - i,
        {
            file_ids.push(self.file_ids[i]);
            i += 1;
            assert(file_ids@ =~= self.file_ids@.subrange(0, i as int));
        }
        assert(file_ids@ =~= self.file_ids@);
        GitIgnoreChain { in_repo: self.in_repo, file_ids }
    }
}

impl Default for GitIgnoreChain {
    fn default() -> (r: GitIgnoreChain)
        ensures
            r@ == (ChainView { in_repo: false, ids: Seq::empty() }),
    {
        GitIgnoreChain { in_repo: false, file_ids: Vec::new() }
    }
}

impl GitIgnoreChain {
    pub fn push(&mut self, id: FileId)
        ensures
            final(self)@ == (ChainView { in_repo: old(self)@.in_repo, ids: old(self)@.ids.push(id) }),
    {
        self.file_ids.push(id);
    }

    fn push_some(&mut self, id: Option<FileId>)
        ensures
            final(self)@ == (ChainView { in_repo: old(self)@.in_repo, ids: old(self)@.ids + opt_seq(id) }),
    {
        match id {
            Some(i) => {
                self.file_ids.push(i);
                assert(self.file_ids@ =~= old(self).file_ids@ + opt_seq(id));
            },
            None => {
                assert(self.file_ids@ =~= old(self).file_ids@ + opt_seq(id));
            },
        }
    }

    pub fn in_repo(&self) -> (r: bool)
        ensures
            r == self@.in_repo,
    {
        self.in_repo
    }

    pub fn file_ids(&self) -> (r: &Vec<FileId>)
        ensures
            r@ == self@.ids,
    {
        &self.file_ids
    }

    /// One step of the upward scan that builds the chain of a starting
    /// directory, for a directory reached by going up from it: a repository
    /// root adds its global rule file, every directory its own `.gitignore`.
    /// They go before the files gathered below, so that the chain runs from
    /// the shallowest scope to the deepest. Returns whether the scan goes on
    /// to the parent directory, which is so until a repository root is met.
    pub fn root_chain_step(&mut self, is_repo: bool, global: Option<FileId>, local: Option<FileId>) -> (go_on: bool)
        ensures
            go_on == !is_repo,
            final(self)@.in_repo == (old(self)@.in_repo || is_repo),
            final(self)@.ids == if is_repo {
                opt_seq(global) + opt_seq(local) + old(self)@.ids
            } else {
                opt_seq(local) + old(self)@.ids
            },
    {
        let mut front = GitIgnoreChain::default();
        if is_repo {
            front.push_some(global);
        }
        front.push_some(local);
        let ghost prefix = front@.ids;
        let n = self.file_ids.len();
        let mut i: usize = 0;
        while i < n
            invariant
                n == self.file_ids@.len(),
                i <= n,
                front@.ids == prefix + self.file_ids@.subrange(0, i as int),
            decreases n - i,
        {
            front.push(self.file_ids[i]);
            i += 1;
            assert(front@.ids =~= prefix + self.file_ids@.subrange(0, i as int));
        }
        assert(self.file_ids@.subrange(0, n as int) =~= self.file_ids@);
        assert(prefix =~= if is_repo { opt_seq(global) + opt_seq(local) } else { opt_seq(local) });
        self.file_ids = front.file_ids;
        if is_repo {
            self.in_repo = true;
            return false;
        }
        true
    }

    /// Whether the chain of a child directory keeps rules, so that the child's
    /// own `.gitignore` is worth reading.
    pub fn deeper_in_repo(&self, is_repo: bool) -> (r: bool)
        ensures
            r == (is_repo || self@.in_repo),
    {
        is_repo || self.in_repo
    }
}

/// What the store knows of one rule file: where it was read, the directory
/// its anchored patterns are relative to, and the handle of its rules (none
/// when the file could not be read).
pub struct EntryView {
    pub file_path: Seq<char>,
    pub ref_dir: Seq<char>,
    pub file: Option<FileId>,
}

struct Entry {
    file_path: String,
    ref_dir: String,
    file: Option<FileId>,
}

impl View for Entry {
    type V = EntryView;

    closed spec fn view(&self) -> EntryView {
        EntryView { file_path: self.file_path@, ref_dir: self.ref_dir@, file: self.file }
    }
}

pub open spec fn same_key(e: EntryView, file_path: Seq<char>, ref_dir: Seq<char>) -> bool {
    e.file_path == file_path && e.ref_dir == ref_dir
}

/// No two entries of the store share a file path and a reference directory.
pub open spec fn keys_unique(s: Seq<EntryView>) -> bool {
    forall|i: int, j: int|
        #![trigger s[i], s[j]]
        0 <= i < s.len() && 0 <= j < s.len() && i != j ==> !same_key(s[i], s[j].file_path, s[j].ref_dir)
}

pub open spec fn has_key(s: Seq<EntryView>, file_path: Seq<char>, ref_dir: Seq<char>) -> bool {
    exists|i: int| 0 <= i < s.len() && same_key(#[trigger] s[i], file_path, ref_dir)
}

pub open spec fn key_index(s: Seq<EntryView>, file_path: Seq<char>, ref_dir: Seq<char>) -> int {
    choose|i: int| 0 <= i < s.len() && same_key(#[trigger] s[i], file_path, ref_dir)
}

/// The handle that the store gave the rule file read at `file_path` for
/// `ref_dir`.
pub open spec fn handle_of(s: Seq<EntryView>, file_path: Seq<char>, ref_dir: Seq<char>) -> Option<FileId> {
    s[key_index(s, file_path, ref_dir)].file
}

pub open spec fn file_of(files: Seq<Seq<RuleView>>, id: FileId) -> Seq<RuleView> {
    if id_index(id) < files.len() { files[id_index(id) as int] } else { Seq::empty() }
}

/// The verdict of the deepest rule file of `ids` that has one.
pub open spec fn chain_verdict(files: Seq<Seq<RuleView>>, ids: Seq<FileId>, path: Option<Seq<char>>, filename: Seq<char>, directory: bool) -> Option<bool>
    decreases ids.len(),
{
    if ids.len() == 0 {
        None
    } else {
        match file_verdict(file_of(files, ids.last()), path, filename, directory) {
            Some(v) => Some(v),
            None => chain_verdict(files, ids.drop_last(), path, filename, directory),
        }
    }
}

/// Whether a path is kept (not ignored) under a chain.
pub open spec fn accepted(files: Seq<Seq<RuleView>>, c: ChainView, path: Option<Seq<char>>, filename: Seq<char>, directory: bool) -> bool {
    !c.in_repo || match chain_verdict(files, c.ids, path, filename, directory) {
        Some(v) => v,
        None => true,
    }
}

/// The store of every parsed rule file, shared by the chains through handles.
pub struct GitIgnorer {
    files: Arena<GitIgnoreFile>,
    entries: Vec<Entry>,
}

impl View for GitIgnorer {
    type V = Seq<EntryView>;

    /// The rule files known to the store, in the order they were loaded.
    closed spec fn view(&self) -> Seq<EntryView> {
        self.entries@.map_values(|e: Entry| e@)
    }
}

impl Default for GitIgnorer {
    fn default() -> (r: GitIgnorer)
        ensures
            r@ == Seq::<EntryView>::empty(),
            r.files() == Seq::<Seq<RuleView>>::empty(),
            r.wf(),
    {
        let r = GitIgnorer { files: crate::arena::new_arena(), entries: Vec::new() };
        assert(r@ =~= Seq::<EntryView>::empty());
        r
    }
}

impl GitIgnorer {
    /// The rules of the stored files, in the order they were parsed.
    pub closed spec fn files(&self) -> Seq<Seq<RuleView>> {
        arena_files(self.files)
    }

    /// Whether the handle was given by this store.
    pub closed spec fn owns(&self, id: FileId) -> bool {
        arena_owns(self.files, id) && id_index(id) < arena_files(self.files).len()
    }

    /// Keys are unique and every handle of an entry is the store's.
    pub closed spec fn wf(&self) -> bool {
        &&& keys_unique(self@)
        &&& forall|i: int| 0 <= i < self@.len() && (#[trigger] self@[i]).file is Some ==> self.owns(self@[i].file->Some_0)
    }

    /// Whether every handle of the chain is one of this store.
    pub open spec fn holds(&self, c: ChainView) -> bool {
        forall|k: int| 0 <= k < c.ids.len() ==> self.owns(#[trigger] c.ids[k])
    }

    pub fn new() -> (r: GitIgnorer)
        ensures
            r@ == Seq::<EntryView>::empty(),
            r.files() == Seq::<Seq<RuleView>>::empty(),
            r.wf(),
    {
        GitIgnorer::default()
    }

    /// The number of rule files known, read or not.
    pub fn len(&self) -> (r: usize)
        ensures
            r == self@.len(),
    {
        self.entries.len()
    }

    fn find(&self, file_path: &str, ref_dir: &str) -> (r: Option<usize>)
        requires
            self.wf(),
        ensures
            r is Some <==> has_key(self@, file_path@, ref_dir@),
            r matches Some(i) ==> i == key_index(self@, file_path@, ref_dir@) && i < self@.len(),
    {
        let path = String::from_str(file_path);
        let dir = String::from_str(ref_dir);
        let n = self.entries.len();
        let mut i: usize = 0;
        while i < n
            invariant
                self.wf(),
                n == self@.len(),
                i <= n,
                path@ == file_path@,
                dir@ == ref_dir@,
                forall|k: int| 0 <= k < i ==> !same_key(#[trigger] self@[k], file_path@, ref_dir@),
            decreases n - i,
        {
            let e = &self.entries[i];
            assert(self@[i as int] == e@);
            if e.file_path == path && e.ref_dir == dir {
                proof {
                    assert(same_key(self@[i as int], file_path@, ref_dir@));
                    assert(has_key(self@, file_path@, ref_dir@));
                    let j = key_index(self@, file_path@, ref_dir@);
                    assert(same_key(self@[j], file_path@, ref_dir@));
                    if j != i as int {
                        assert(same_key(self@[j], self@[i as int].file_path, self@[i as int].ref_dir));
                    }
                }
                return Some(i);
            }
            i += 1;
        }
        None
    }

    /// What the store knows of a rule file: `None` when it was never loaded
    /// under this reference directory, else the handle it got (`None` inside
    /// when it could not be read). A known file needs no new read.
    pub fn lookup(&self, file_path: &str, ref_dir: &str) -> (r: Option<Option<FileId>>)
        requires
            self.wf(),
        ensures
            r is Some <==> has_key(self@, file_path@, ref_dir@),
            r matches Some(h) ==> h == handle_of(self@, file_path@, ref_dir@),
    {
        match self.find(file_path, ref_dir) {
            Some(i) => {
                assert(self@[i as int] == self.entries@[i as int]@);
                Some(self.entries[i].file)
            },
            None => None,
        }
    }

    /// Load a rule file read as `lines` (`None` when it could not be read),
    /// unless the store already knows it under this reference directory, in
    /// which case nothing changes. Returns the handle to put in a chain, if
    /// the file has rules to offer.
    pub fn load(&mut self, file_path: &str, ref_dir: &str, lines: Option<Vec<String>>) -> (r: Option<FileId>)
        requires
            old(self).wf(),
            lines matches Some(ls) ==> forall|i: int| 0 <= i < ls@.len() ==> !(#[trigger] ls@[i])@.contains('\n'),
        ensures
            final(self).wf(),
            has_key(final(self)@, file_path@, ref_dir@),
            r == handle_of(final(self)@, file_path@, ref_dir@),
            r matches Some(id) ==> final(self).owns(id),
            forall|id: FileId| old(self).owns(id) ==> #[trigger] final(self).owns(id),
            has_key(old(self)@, file_path@, ref_dir@) ==> final(self)@ == old(self)@ && final(self).files() == old(self).files(),
            !has_key(old(self)@, file_path@, ref_dir@) ==> {
                &&& final(self)@ == old(self)@.push(EntryView { file_path: file_path@, ref_dir: ref_dir@, file: r })
                &&& match lines {
                    Some(ls) => r is Some && final(self).files() == old(self).files().push(file_rules(lines_view(ls@), ref_dir@))
                        && id_index(r->Some_0) == old(self).files().len(),
                    None => r is None && final(self).files() == old(self).files(),
                }
            },
    {
        match self.find(file_path, ref_dir) {
            Some(i) => {
                assert(self@[i as int] == self.entries@[i as int]@);
                let h = self.entries[i].file;
                proof {
                    if h is Some {
                        assert(self@[i as int].file is Some);
                    }
                }
                h
            },
            None => {
                let ghost before = self@;
                let ghost old_files = self.files;
                let file = match lines {
                    Some(ls) => Some(crate::arena::alloc_file(&mut self.files, GitIgnoreFile::from_lines(&ls, ref_dir))),
                    None => None,
                };
                let n = self.entries.len();
                let entry = Entry { file_path: String::from_str(file_path), ref_dir: String::from_str(ref_dir), file };
                self.entries.push(entry);
                proof {
                    assert(self@ =~= before.push(entry@));
                    assert(same_key(self@[n as int], file_path@, ref_dir@));
                    let j = key_index(self@, file_path@, ref_dir@);
                    if j != n as int {
                        assert(same_key(before[j], file_path@, ref_dir@));
                    }
                    assert forall|a: int, b: int|
                        #![trigger self@[a], self@[b]]
                        0 <= a < self@.len() && 0 <= b < self@.len() && a != b
                            implies !same_key(self@[a], self@[b].file_path, self@[b].ref_dir) by {
                        if a == n as int {
                            if same_key(self@[a], self@[b].file_path, self@[b].ref_dir) {
                                assert(same_key(before[b], file_path@, ref_dir@));
                            }
                        } else if b == n as int {
                            if same_key(self@[a], self@[b].file_path, self@[b].ref_dir) {
                                assert(same_key(before[a], file_path@, ref_dir@));
                            }
                        } else {
                            assert(self@[a] == before[a] && self@[b] == before[b]);
                        }
                    }
                    assert forall|k: int| 0 <= k < self@.len() && (#[trigger] self@[k]).file is Some implies self.owns(self@[k].file->Some_0) by {
                        if k < n as int {
                            assert(self@[k] == before[k]);
                            assert(arena_owns(old_files, before[k].file->Some_0));
                        }
                    }
                }
                file
            },
        }
    }

    /// Whether every handle of the chain was given by this store.
    pub fn holds_chain(&self, chain: &GitIgnoreChain) -> (r: bool)
        ensures
            r == self.holds(chain@),
    {
        let n = chain.file_ids.len();
        let mut k: usize = 0;
        while k < n
            invariant
                n == chain@.ids.len(),
                k <= n,
                forall|i: int| 0 <= i < k ==> self.owns(#[trigger] chain@.ids[i]),
            decreases n - k,
        {
            if crate::arena::get(&self.files, chain.file_ids[k]).is_none() {
                return false;
            }
            k += 1;
        }
        true
    }

    /// The chain of a child directory, given the chain of its parent. A
    /// repository root starts afresh with its global rule file, so that rules
    /// of an enclosing repository never reach a nested one; outside any
    /// repository no rule file is added.
    pub fn deeper_chain(parent_chain: &GitIgnoreChain, is_repo: bool, global: Option<FileId>, local: Option<FileId>) -> (r: GitIgnoreChain)
        ensures
            r@.in_repo == (is_repo || parent_chain@.in_repo),
            is_repo ==> r@.ids == opt_seq(global) + opt_seq(local),
            !is_repo && parent_chain@.in_repo ==> r@.ids == parent_chain@.ids + opt_seq(local),
            !is_repo && !parent_chain@.in_repo ==> r@.ids == parent_chain@.ids,
    {
        let mut chain = if is_repo {
            let mut chain = GitIgnoreChain::default();
            chain.push_some(global);
            chain.in_repo = true;
            assert(chain@.ids =~= opt_seq(global));
            chain
        } else {
            parent_chain.clone()
        };
        if chain.in_repo {
            chain.push_some(local);
        }
        chain
    }

    /// return true if the given path should not be ignored
    pub fn accepts(&self, chain: &GitIgnoreChain, path: Option<&str>, filename: &str, directory: bool) -> (r: bool)
        requires
            self.holds(chain@),
        ensures
            r == accepted(self.files(), chain@, opt_str(path), filename@, directory),
            !chain@.in_repo ==> r,
    {
        if !chain.in_repo {
            // if we're not in a git repository, then .gitignore files, including
            // the global ones, are irrelevant
            return true;
        }
        let ghost fs = self.files();
        let ghost ids = chain@.ids;
        // we start with deeper files: deeper rules have a bigger priority
        let mut j: usize = chain.file_ids.len();
        assert(ids.subrange(0, j as int) =~= ids);
        while j > 0
            invariant
                fs == self.files(),
                chain@.in_repo,
                ids == chain@.ids,
                self.holds(chain@),
                j <= ids.len(),
                chain_verdict(fs, ids, opt_str(path), filename@, directory) == chain_verdict(fs, ids.subrange(0, j as int), opt_str(path), filename@, directory),
            decreases j,
        {
            j -= 1;
            let id = chain.file_ids[j];
            proof {
                let sub = ids.subrange(0, j + 1);
                assert(sub.drop_last() =~= ids.subrange(0, j as int));
                assert(sub.last() == id);
                assert(self.owns(ids[j as int]));
            }
            match crate::arena::get(&self.files, id) {
                Some(file) => {
                    match file.verdict(path, filename, directory) {
                        Some(v) => {
                            return v;
                        },
                        None => {},
                    }
                },
                None => {},
            }
        }
        true
    }
}

} // verus!
