//! What the library asks of `git` and how it reads the answers: the argument
//! vectors of each command, the text of a finished run, the current branch,
//! the branch listing, and the stashes this tool tags.
use vstd::prelude::*;
use vstd::string::StrSliceExecFns;
use vstd::string::StringExecFns;
use vstd::utf8::{valid_utf8, decode_utf8};
use crate::seqs::{first_index, lemma_first_index, lemma_first_index_bounds};
use crate::text::{chars_of, lines, views_of, split_lines};

verus! {

/// Why a git command, or a request to the checkout worker, failed.
#[derive(Debug, PartialEq, Eq)]
pub enum GitError {
    /// git exited with a non-zero status; the text is what it wrote to stderr.
    ProcessFailure(String),
    /// git wrote output that is not valid UTF-8.
    EncodingFailure,
    /// A checkout was requested while another one is still running.
    AlreadyInProgress,
}

/// What a `GitError` holds.
pub enum ErrorView {
    ProcessFailure(Seq<char>),
    EncodingFailure,
    AlreadyInProgress,
}

impl View for GitError {
    type V = ErrorView;

    open spec fn view(&self) -> ErrorView {
        match self {
            GitError::ProcessFailure(t) => ErrorView::ProcessFailure(t@),
            GitError::EncodingFailure => ErrorView::EncodingFailure,
            GitError::AlreadyInProgress => ErrorView::AlreadyInProgress,
        }
    }
}

/// The text shown for an error: what git wrote for a failed run, else a fixed
/// sentence.
pub open spec fn error_text(e: ErrorView) -> Seq<char> {
    match e {
        ErrorView::ProcessFailure(t) => t,
        ErrorView::EncodingFailure => "git wrote output that is not valid UTF-8"@,
        ErrorView::AlreadyInProgress => "a checkout is already in progress"@,
    }
}

impl GitError {
    /// The text shown for the error.
    pub fn message(&self) -> (r: String)
        ensures
            r@ == error_text(self@),
    {
        match self {
            GitError::ProcessFailure(t) => t.clone(),
            GitError::EncodingFailure => String::from_str("git wrote output that is not valid UTF-8"),
            GitError::AlreadyInProgress => String::from_str("a checkout is already in progress"),
        }
    }
}

/// What a finished git process left: whether it exited with status zero, and
/// the bytes it wrote to stdout and stderr.
pub struct CommandOutput {
    pub success: bool,
    pub stdout: Vec<u8>,
    pub stderr: Vec<u8>,
}

/// A project's working directory, where every git command of the project runs.
pub struct Git {
    pub path: String,
}

/// Relies on `String::from_utf8`: it succeeds exactly on valid UTF-8 and then
/// holds the characters those bytes encode.
#[verifier::external_body]
fn utf8_text(bytes: Vec<u8>) -> (r: Option<String>)
    ensures
        r is Some <==> valid_utf8(bytes@),
        r is Some ==> r->0@ == decode_utf8(bytes@),
{
    String::from_utf8(bytes).ok()
}

/// The characters that `char::is_whitespace` accepts: the Unicode White_Space
/// property.
pub open spec fn is_white_space(c: char) -> bool {
    let u = c as u32;
    (0x09 <= u && u <= 0x0D) || u == 0x20 || u == 0x85 || u == 0xA0 || u == 0x1680 || (0x2000
        <= u && u <= 0x200A) || u == 0x2028 || u == 0x2029 || u == 0x202F || u == 0x205F || u
        == 0x3000
}

/// `s` without its leading and trailing white space.
pub open spec fn trim(s: Seq<char>) -> Seq<char> {
    let t = s.skip(first_index(s, |c: char| !is_white_space(c)) as int);
    t.take(t.len() - first_index(t.reverse(), |c: char| !is_white_space(c)))
}

/// Relies on `str::trim`: leading and trailing characters with the Unicode
/// White_Space property are removed, nothing else.
#[verifier::external_body]
pub(crate) fn trim_text(s: &str) -> (r: &str)
    ensures
        r@ == trim(s@),
{
    s.trim()
}

/// The text of a finished git run: its stdout when it exited with status
/// zero, else `ProcessFailure` with its stderr; `EncodingFailure` when the text
/// to return is not valid UTF-8.
pub fn command_text(out: CommandOutput) -> (r: Result<String, GitError>)
    ensures
        out.success && valid_utf8(out.stdout@) ==> r is Ok && r->Ok_0@ == decode_utf8(out.stdout@),
        !out.success && valid_utf8(out.stderr@) ==> (r matches Err(GitError::ProcessFailure(e))
            && e@ == decode_utf8(out.stderr@)),
        (out.success && !valid_utf8(out.stdout@)) || (!out.success && !valid_utf8(out.stderr@))
            ==> r matches Err(GitError::EncodingFailure),
{
    if out.success {
        match utf8_text(out.stdout) {
            Some(t) => Ok(t),
            None => Err(GitError::EncodingFailure),
        }
    } else {
        match utf8_text(out.stderr) {
            Some(t) => Err(GitError::ProcessFailure(t)),
            None => Err(GitError::EncodingFailure),
        }
    }
}

/// The branch that `git rev-parse --abbrev-ref HEAD` names in its output.
pub open spec fn current_branch_of(stdout: Seq<char>) -> Seq<char> {
    trim(stdout)
}

/// A line of `git branch -a` with its marks taken away: trimmed, the `*` of
/// the current branch dropped, and trimmed again.
pub open spec fn branch_entry(l: Seq<char>) -> Seq<char> {
    let t = trim(l);
    trim(t.skip(first_index(t, |c: char| c != '*') as int))
}

/// The lines of a `git branch -a` listing that are not blank.
pub open spec fn listed_lines(stdout: Seq<char>) -> Seq<Seq<char>> {
    split_lines(stdout).filter(|l: Seq<char>| trim(l).len() > 0)
}

/// The branches that a `git branch -a` listing names, local and remote, in order.
pub open spec fn branches_of(stdout: Seq<char>) -> Seq<Seq<char>> {
    listed_lines(stdout).map_values(|l: Seq<char>| branch_entry(l))
}

/// The prefix that marks the stashes this tool creates.
pub open spec fn stash_prefix() -> Seq<char> {
    "lazy-git-checkout:"@
}

/// The message of the stash made while leaving `branch`.
pub open spec fn stash_tag(branch: Seq<char>) -> Seq<char> {
    stash_prefix() + branch
}

/// `t` is a suffix of `l`.
pub open spec fn ends_with(l: Seq<char>, t: Seq<char>) -> bool {
    t.len() <= l.len() && l.skip(l.len() - t.len()) == t
}

/// The reference at the start of a `git stash list` line: the text before its
/// first colon, such as `stash@{0}`.
pub open spec fn stash_ref(l: Seq<char>) -> Seq<char> {
    l.take(first_index(l, |c: char| c == ':') as int)
}

/// The newest stash in a `git stash list` listing whose line ends with the tag
/// of `branch`; the listing holds the newest first.
pub open spec fn last_stashed(listing: Seq<char>, branch: Seq<char>) -> Option<Seq<char>> {
    let ls = split_lines(listing);
    let i = first_index(ls, |l: Seq<char>| ends_with(l, stash_tag(branch)));
    if i < ls.len() {
        Some(stash_ref(ls[i as int]))
    } else {
        None
    }
}

/// The stash that a checkout pops is the newest one whose line ends with the
/// tag of the branch: its line ends with the tag and no line listed before it,
/// that is no newer stash, does. When no line ends with the tag there is none.
pub proof fn lemma_last_stashed_is_newest_tagged(listing: Seq<char>, branch: Seq<char>)
    ensures
        ({
            let ls = split_lines(listing);
            let tag = stash_tag(branch);
            match last_stashed(listing, branch) {
                Some(r) => exists|i: int|
                    0 <= i < ls.len() && ends_with(#[trigger] ls[i], tag) && r == stash_ref(ls[i])
                        && forall|j: int| 0 <= j < i ==> !ends_with(#[trigger] ls[j], tag),
                None => forall|i: int| 0 <= i < ls.len() ==> !ends_with(#[trigger] ls[i], tag),
            }
        }),
{
    let ls = split_lines(listing);
    let tag = stash_tag(branch);
    let tagged = |l: Seq<char>| ends_with(l, tag);
    lemma_first_index_bounds(ls, tagged);
    let i = first_index(ls, tagged) as int;
    if i < ls.len() {
        assert(ends_with(ls[i], tag));
        assert(forall|j: int| 0 <= j < i ==> !tagged(ls[j]));
    } else {
        assert(forall|j: int| 0 <= j < ls.len() ==> !tagged(ls[j]));
    }
}

/// The position of the first character of `cs` that is not `c`, or its length.
fn skip_char(cs: &Vec<char>, c: char) -> (r: usize)
    ensures
        r == first_index(cs@, |d: char| d != c),
        r <= cs@.len(),
{
    let mut k: usize = 0;
    while k < cs.len() && cs[k] == c
        invariant
            k <= cs.len(),
            forall|j: int| 0 <= j < k ==> cs@[j] == c,
        decreases cs.len() - k,
    {
        k = k + 1;
    }
    proof {
        lemma_first_index(cs@, |d: char| d != c, k as int);
    }
    k
}

/// The position of the first `c` in `cs`, or its length.
fn find_char(cs: &Vec<char>, c: char) -> (r: usize)
    ensures
        r == first_index(cs@, |d: char| d == c),
        r <= cs@.len(),
{
    let mut k: usize = 0;
    while k < cs.len() && cs[k] != c
        invariant
            k <= cs.len(),
            forall|j: int| 0 <= j < k ==> cs@[j] != c,
        decreases cs.len() - k,
    {
        k = k + 1;
    }
    proof {
        lemma_first_index(cs@, |d: char| d == c, k as int);
    }
    k
}

/// Whether `l` ends with `t`.
fn text_ends_with(l: &Vec<char>, t: &Vec<char>) -> (r: bool)
    ensures
        r == ends_with(l@, t@),
{
    if t.len() > l.len() {
        return false;
    }
    let off = l.len() - t.len();
    let mut k: usize = 0;
    while k < t.len()
        invariant
            k <= t.len(),
            off + t.len() == l.len(),
            forall|j: int| 0 <= j < k ==> l@[off + j] == t@[j],
        decreases t.len() - k,
    {
        if l[off + k] != t[k] {
            assert(l@.skip(off as int)[k as int] != t@[k as int]);
            return false;
        }
        k = k + 1;
    }
    assert(l@.skip(off as int) =~= t@);
    true
}

/// The arguments of a command, as owned strings.
pub(crate) fn args_of(words: Vec<&str>) -> (r: Vec<String>)
    ensures
        views_of(r@) == words@.map_values(|w: &str| w@),
{
    let mut r: Vec<String> = Vec::new();
    let mut k: usize = 0;
    while k < words.len()
        invariant
            k <= words.len(),
            views_of(r@) == words@.map_values(|w: &str| w@).take(k as int),
        decreases words.len() - k,
    {
        let ghost prev = r@;
        r.push(String::from_str(words[k]));
        assert(views_of(r@) =~= views_of(prev).push(words@[k as int]@));
        assert(words@.map_values(|w: &str| w@).take(k + 1) =~= words@.map_values(|w: &str| w@).take(
            k as int,
        ).push(words@[k as int]@));
        k = k + 1;
    }
    assert(words@.map_values(|w: &str| w@).take(k as int) =~= words@.map_values(|w: &str| w@));
    r
}

impl Git {
    /// The git commands of the project at `path`.
    pub fn new(path: String) -> (r: Git)
        ensures
            r.path@ == path@,
    {
        Git { path }
    }

    /// The arguments that ask git for the current branch.
    pub fn current_branch_args() -> (r: Vec<String>)
        ensures
            views_of(r@) == seq!["rev-parse"@, "--abbrev-ref"@, "HEAD"@],
    {
        let r = args_of(vec!["rev-parse", "--abbrev-ref", "HEAD"]);
        assert(views_of(r@) =~= seq!["rev-parse"@, "--abbrev-ref"@, "HEAD"@]);
        r
    }

    /// The arguments that ask git for every local and remote branch.
    pub fn all_branches_args() -> (r: Vec<String>)
        ensures
            views_of(r@) == seq!["branch"@, "-a"@],
    {
        let r = args_of(vec!["branch", "-a"]);
        assert(views_of(r@) =~= seq!["branch"@, "-a"@]);
        r
    }

    /// The arguments that ask git for the list of stashes, newest first.
    pub fn stash_list_args() -> (r: Vec<String>)
        ensures
            views_of(r@) == seq!["stash"@, "list"@],
    {
        let r = args_of(vec!["stash", "list"]);
        assert(views_of(r@) =~= seq!["stash"@, "list"@]);
        r
    }

    /// The current branch, from the run of the command of `current_branch_args`:
    /// its output trimmed, or the failure of the run.
    pub fn get_current_branch(out: CommandOutput) -> (r: Result<String, GitError>)
        ensures
            out.success && valid_utf8(out.stdout@) ==> r is Ok && r->Ok_0@ == current_branch_of(
                decode_utf8(out.stdout@),
            ),
            !out.success && valid_utf8(out.stderr@) ==> (r matches Err(GitError::ProcessFailure(e))
                && e@ == decode_utf8(out.stderr@)),
            (out.success && !valid_utf8(out.stdout@)) || (!out.success && !valid_utf8(
                out.stderr@,
            )) ==> r matches Err(GitError::EncodingFailure),
    {
        let text = command_text(out)?;
        Ok(String::from_str(trim_text(text.as_str())))
    }

    /// Every branch named in the output of the command of `all_branches_args`,
    /// or the failure of the run.
    pub fn all_project_branches(out: CommandOutput) -> (r: Result<Vec<String>, GitError>)
        ensures
            out.success && valid_utf8(out.stdout@) ==> r is Ok && views_of(r->Ok_0@) == branches_of(
                decode_utf8(out.stdout@),
            ),
            !out.success && valid_utf8(out.stderr@) ==> (r matches Err(GitError::ProcessFailure(e))
                && e@ == decode_utf8(out.stderr@)),
            (out.success && !valid_utf8(out.stdout@)) || (!out.success && !valid_utf8(
                out.stderr@,
            )) ==> r matches Err(GitError::EncodingFailure),
    {
        let text = command_text(out)?;
        Ok(Git::branches_in(text.as_str()))
    }

    /// The branches that a `git branch -a` listing names, in order.
    pub fn branches_in(listing: &str) -> (r: Vec<String>)
        ensures
            views_of(r@) == branches_of(listing@),
    {
        let ls = lines(listing);
        let ghost gl = views_of(ls@);
        let ghost keep = |l: Seq<char>| trim(l).len() > 0;
        let ghost entry = |l: Seq<char>| branch_entry(l);
        let mut out: Vec<String> = Vec::new();
        let mut k: usize = 0;
        while k < ls.len()
            invariant
                k <= ls.len(),
                gl == views_of(ls@),
                gl == split_lines(listing@),
                keep == (|l: Seq<char>| trim(l).len() > 0),
                entry == (|l: Seq<char>| branch_entry(l)),
                views_of(out@) == gl.take(k as int).filter(keep).map_values(entry),
            decreases ls.len() - k,
        {
            proof {
                reveal(Seq::filter);
            }
            let ghost pre = gl.take(k as int);
            let ghost post = gl.take(k + 1);
            assert(post.last() == gl[k as int]);
            assert(post.drop_last() =~= pre);
            assert(gl[k as int] == ls@[k as int]@);
            let t = trim_text(ls[k].as_str());
            if !t.is_empty() {
                let cs = chars_of(t);
                let s = skip_char(&cs, '*');
                let entry_text = String::from_str(trim_text(t.substring_char(s, cs.len())));
                let ghost prev = out@;
                out.push(entry_text);
                assert(views_of(out@) =~= views_of(prev).push(branch_entry(gl[k as int])));
                assert(post.filter(keep) == pre.filter(keep).push(gl[k as int]));
                assert(post.filter(keep).map_values(entry) =~= pre.filter(keep).map_values(
                    entry,
                ).push(branch_entry(gl[k as int])));
            } else {
                assert(post.filter(keep) == pre.filter(keep));
            }
            k = k + 1;
        }
        assert(gl.take(k as int) =~= gl);
        out
    }

    /// The message of the stash made while leaving `branch`:
    /// `lazy-git-checkout:` followed by the branch name.
    pub fn stash_message(branch: &str) -> (r: String)
        ensures
            r@ == stash_tag(branch@),
    {
        let mut r = String::from_str("lazy-git-checkout:");
        r.append(branch);
        r
    }

    /// The reference of the newest stash whose line in the `git stash list`
    /// output `listing` ends with the tag of `branch`, or `None` when no
    /// stash has that tag.
    pub fn get_last_stashed(branch: &str, listing: &str) -> (r: Option<String>)
        ensures
            r is Some <==> last_stashed(listing@, branch@) is Some,
            r is Some ==> r->0@ == last_stashed(listing@, branch@)->0,
    {
        let tag = chars_of(Git::stash_message(branch).as_str());
        let ls = lines(listing);
        let ghost gl = views_of(ls@);
        let ghost tagged = |l: Seq<char>| ends_with(l, stash_tag(branch@));
        let mut k: usize = 0;
        while k < ls.len()
            invariant
                k <= ls.len(),
                gl == views_of(ls@),
                gl == split_lines(listing@),
                tag@ == stash_tag(branch@),
                tagged == (|l: Seq<char>| ends_with(l, stash_tag(branch@))),
                forall|j: int| 0 <= j < k ==> !tagged(gl[j]),
            decreases ls.len() - k,
        {
            let cs = chars_of(ls[k].as_str());
            assert(gl[k as int] == ls@[k as int]@);
            if text_ends_with(&cs, &tag) {
                proof {
                    lemma_first_index(gl, tagged, k as int);
                }
                let colon = find_char(&cs, ':');
                return Some(String::from_str(ls[k].as_str().substring_char(0, colon)));
            }
            k = k + 1;
        }
        proof {
            lemma_first_index(gl, tagged, k as int);
        }
        None
    }
}

} // verus!
