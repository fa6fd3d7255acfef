use vstd::prelude::*;
use crate::alias::AliasTable;
use crate::error::FgError;
use crate::text::views;

verus! {

/// One run of the backend tool: the program and its argument vector.
pub struct Invocation {
    pub program: String,
    pub args: Vec<String>,
}

impl View for Invocation {
    type V = (Seq<char>, Seq<Seq<char>>);

    open spec fn view(&self) -> (Seq<char>, Seq<Seq<char>>) {
        (self.program@, views(self.args@))
    }
}

/// A character with the Unicode White_Space property.
pub open spec fn is_white_space(c: char) -> bool {
    ('\u{9}' <= c && c <= '\u{d}') || c == ' ' || c == '\u{85}' || c == '\u{a0}' || c
        == '\u{1680}' || ('\u{2000}' <= c && c <= '\u{200a}') || c == '\u{2028}' || c
        == '\u{2029}' || c == '\u{202f}' || c == '\u{205f}' || c == '\u{3000}'
}

/// `words` is a split of `s` at whitespace: each word is non-empty and holds
/// no whitespace, and the words in order are `s` with its whitespace removed.
pub open spec fn splits_at_whitespace(s: Seq<char>, words: Seq<Seq<char>>) -> bool {
    &&& forall|i: int| 0 <= i < words.len() ==> (#[trigger] words[i]).len() > 0
    &&& forall|i: int, j: int|
        0 <= i < words.len() && 0 <= j < words[i].len() ==> !is_white_space(
            #[trigger] words[i][j],
        )
    &&& words.flatten() == s.filter(|c: char| !is_white_space(c))
}

/// The words of `s` as split on whitespace by the standard library.
pub uninterp spec fn words_of(s: Seq<char>) -> Seq<Seq<char>>;

/// Relies on `str::split_whitespace`: the maximal runs of characters of `s`
/// without the Unicode White_Space property, in order, with no empty piece;
/// the result depends on the characters of `s` alone.
#[verifier::external_body]
fn split_words(s: &str) -> (r: Vec<String>)
    ensures
        views(r@) == words_of(s@),
        splits_at_whitespace(s@, views(r@)),
{
    s.split_whitespace().map(|w| w.to_string()).collect()
}

/// An invocation of `program` with the given argument words.
pub fn invocation_from_words(program: &str, words: Vec<String>) -> (r: Invocation)
    ensures
        r@ == (program@, views(words@)),
{
    Invocation { program: String::from_str(program), args: words }
}

/// An invocation of `program` with the given literal arguments.
fn invocation_of(program: &str, parts: &[&str]) -> (r: Invocation)
    ensures
        r.program@ == program@,
        r.args@.len() == parts@.len(),
        forall|i: int| 0 <= i < parts@.len() ==> #[trigger] r.args@[i]@ == parts@[i]@,
{
    let mut args: Vec<String> = Vec::new();
    let mut i: usize = 0;
    while i < parts.len()
        invariant
            i <= parts@.len(),
            args@.len() == i,
            forall|j: int| 0 <= j < i ==> #[trigger] args@[j]@ == parts@[j]@,
        decreases parts@.len() - i,
    {
        args.push(String::from_str(parts[i]));
        i = i + 1;
    }
    Invocation { program: String::from_str(program), args }
}

/// `s`, or `fallback` when `s` is empty.
pub open spec fn or_default(s: Seq<char>, fallback: Seq<char>) -> Seq<char> {
    if s.len() == 0 {
        fallback
    } else {
        s
    }
}

fn pick<'a>(s: &'a str, fallback: &'a str) -> (r: &'a str)
    ensures
        r@ == or_default(s@, fallback@),
{
    if s.unicode_len() == 0 {
        fallback
    } else {
        s
    }
}

/// `mode init`.
pub fn git_init(mode: &str) -> (r: Invocation)
    ensures
        r@ == (mode@, seq!["init"@]),
{
    let r = invocation_of(mode, &["init"]);
    assert(views(r.args@) =~= seq!["init"@]);
    r
}

/// `mode add <path>`, the path defaulting to `.`.
pub fn git_add(mode: &str, archive: &str) -> (r: Invocation)
    ensures
        r@ == (mode@, seq!["add"@, or_default(archive@, "."@)]),
{
    let r = invocation_of(mode, &["add", pick(archive, ".")]);
    assert(views(r.args@) =~= seq!["add"@, or_default(archive@, "."@)]);
    r
}

/// `mode commit -m <message>`.
pub fn git_commit(mode: &str, text: &str) -> (r: Invocation)
    ensures
        r@ == (mode@, seq!["commit"@, "-m"@, text@]),
{
    let r = invocation_of(mode, &["commit", "-m", text]);
    assert(views(r.args@) =~= seq!["commit"@, "-m"@, text@]);
    r
}

/// `mode pull <remote>`, the remote defaulting to `origin`.
pub fn git_pull(mode: &str, remote: &str) -> (r: Invocation)
    ensures
        r@ == (mode@, seq!["pull"@, or_default(remote@, "origin"@)]),
{
    let r = invocation_of(mode, &["pull", pick(remote, "origin")]);
    assert(views(r.args@) =~= seq!["pull"@, or_default(remote@, "origin"@)]);
    r
}

/// `mode push <remote>`, the remote defaulting to `origin`.
pub fn git_push(mode: &str, remote: &str) -> (r: Invocation)
    ensures
        r@ == (mode@, seq!["push"@, or_default(remote@, "origin"@)]),
{
    let r = invocation_of(mode, &["push", pick(remote, "origin")]);
    assert(views(r.args@) =~= seq!["push"@, or_default(remote@, "origin"@)]);
    r
}

/// `mode checkout -b <branch>`.
pub fn git_set_branch(mode: &str, branch: &str) -> (r: Invocation)
    ensures
        r@ == (mode@, seq!["checkout"@, "-b"@, branch@]),
{
    let r = invocation_of(mode, &["checkout", "-b", branch]);
    assert(views(r.args@) =~= seq!["checkout"@, "-b"@, branch@]);
    r
}

/// `mode remote add origin <url>`.
pub fn git_ro(mode: &str, repository: &str) -> (r: Invocation)
    ensures
        r@ == (mode@, seq!["remote"@, "add"@, "origin"@, repository@]),
{
    let r = invocation_of(mode, &["remote", "add", "origin", repository]);
    assert(views(r.args@) =~= seq!["remote"@, "add"@, "origin"@, repository@]);
    r
}

/// `mode status <path>`, the path defaulting to `.`.
pub fn git_info(mode: &str, target: &str) -> (r: Invocation)
    ensures
        r@ == (mode@, seq!["status"@, or_default(target@, "."@)]),
{
    let r = invocation_of(mode, &["status", pick(target, ".")]);
    assert(views(r.args@) =~= seq!["status"@, or_default(target@, "."@)]);
    r
}

/// `mode checkout -b <name>`.
pub fn git_new(mode: &str, value: &str) -> (r: Invocation)
    ensures
        r@ == (mode@, seq!["checkout"@, "-b"@, value@]),
{
    let r = invocation_of(mode, &["checkout", "-b", value]);
    assert(views(r.args@) =~= seq!["checkout"@, "-b"@, value@]);
    r
}

/// The invocations that running alias `name` performs, in order: one per
/// stored command, each the command split on whitespace and handed to
/// `mode`. Fails with `AliasNotFound` when no alias has that name.
pub fn run_alias(table: &AliasTable, mode: &str, name: &str) -> (r: Result<Vec<Invocation>, FgError>)
    requires
        table.wf(),
    ensures
        r is Err <==> !table@.dom().contains(name@),
        r matches Err(e) ==> e == FgError::AliasNotFound,
        r matches Ok(v) ==> v@.len() == table@[name@].len() && forall|i: int|
            0 <= i < v@.len() ==> (#[trigger] v@[i])@ == (mode@, words_of(table@[name@][i])),
        r matches Ok(v) ==> forall|i: int|
            0 <= i < v@.len() ==> splits_at_whitespace(
                table@[name@][i],
                (#[trigger] v@[i])@.1,
            ),
{
    match table.commands_of(name) {
        None => Err(FgError::AliasNotFound),
        Some(commands) => {
            let ghost cs = views(commands@);
            let mut out: Vec<Invocation> = Vec::new();
            let mut i: usize = 0;
            while i < commands.len()
                invariant
                    cs == views(commands@),
                    i <= commands@.len(),
                    out@.len() == i,
                    forall|j: int| 0 <= j < i ==> (#[trigger] out@[j])@ == (mode@, words_of(cs[j])),
                    forall|j: int|
                        0 <= j < i ==> splits_at_whitespace(cs[j], (#[trigger] out@[j])@.1),
                decreases commands@.len() - i,
            {
                let words = split_words(commands[i].as_str());
                out.push(invocation_from_words(mode, words));
                i = i + 1;
            }
            Ok(out)
        },
    }
}

/// What to do next while running a list of invocations.
#[derive(Debug, Clone, Copy, PartialEq, Eq, Structural)]
pub enum RunStep {
    /// Launch the invocation at this index.
    Launch(usize),
    /// Every invocation succeeded.
    Finished,
    /// The invocation at this index failed; nothing after it runs.
    Failed(usize),
}

/// Progress through a list of invocations run one after another, stopping
/// at the first failure.
pub struct RunProgress {
    pub total: usize,
    pub completed: usize,
    pub failed: bool,
}

impl RunProgress {
    /// The completed count stays within the list, and a failure is that of
    /// the invocation after the completed ones.
    pub open spec fn wf(&self) -> bool {
        &&& self.completed <= self.total
        &&& self.failed ==> self.completed < self.total
    }

    /// The start of a run of `total` invocations.
    pub fn new(total: usize) -> (r: RunProgress)
        ensures
            r.wf(),
            r.total == total,
            r.completed == 0,
            !r.failed,
    {
        RunProgress { total, completed: 0, failed: false }
    }

    /// The next step: launch the first invocation not yet run, or report that
    /// all succeeded, or that one failed.
    pub fn step(&self) -> (r: RunStep)
        requires
            self.wf(),
        ensures
            self.failed ==> r == RunStep::Failed(self.completed),
            !self.failed && self.completed < self.total ==> r == RunStep::Launch(self.completed),
            !self.failed && self.completed == self.total ==> r == RunStep::Finished,
    {
        if self.failed {
            RunStep::Failed(self.completed)
        } else if self.completed < self.total {
            RunStep::Launch(self.completed)
        } else {
            RunStep::Finished
        }
    }

    /// Records whether the launched invocation succeeded.
    pub fn record(&mut self, ok: bool)
        requires
            old(self).wf(),
            !old(self).failed,
            old(self).completed < old(self).total,
        ensures
            final(self).wf(),
            final(self).total == old(self).total,
            (final(self).completed as nat, final(self).failed) == after_outcome(
                (old(self).completed as nat, old(self).failed),
                old(self).total as nat,
                ok,
            ),
    {
        if ok {
            self.completed = self.completed + 1;
        } else {
            self.failed = true;
        }
    }
}

/// The index of the first failing outcome, if any.
pub open spec fn first_failure(outcomes: Seq<bool>) -> Option<int>
    decreases outcomes.len(),
{
    if outcomes.len() == 0 {
        None
    } else if !outcomes.last() && first_failure(outcomes.drop_last()) is None {
        Some(outcomes.len() - 1)
    } else {
        first_failure(outcomes.drop_last())
    }
}

/// The (completed, failed) state of a run of `total` invocations after
/// recording outcome `ok` in `state`: a success counts one more completed
/// invocation, a failure stops the run; a stopped or finished run stays.
pub open spec fn after_outcome(state: (nat, bool), total: nat, ok: bool) -> (nat, bool) {
    if state.1 || state.0 >= total {
        state
    } else if ok {
        (state.0 + 1, false)
    } else {
        (state.0, true)
    }
}

/// The state a run reaches from its start after recording `outcomes`.
pub open spec fn progress_after(total: nat, outcomes: Seq<bool>) -> (nat, bool)
    decreases outcomes.len(),
{
    if outcomes.len() == 0 {
        (0, false)
    } else {
        after_outcome(progress_after(total, outcomes.drop_last()), total, outcomes.last())
    }
}

/// A run of `total` invocations whose first launches gave `outcomes` has
/// failed exactly when one of them failed, at the first such index, and
/// otherwise has completed them all.
pub proof fn lemma_run_stops_at_first_failure(total: nat, outcomes: Seq<bool>)
    requires
        outcomes.len() <= total,
    ensures
        first_failure(outcomes) matches Some(k) ==> progress_after(total, outcomes) == (k as nat, true),
        first_failure(outcomes) is None ==> progress_after(total, outcomes) == (outcomes.len(), false),
    decreases outcomes.len(),
{
    if outcomes.len() > 0 {
        lemma_run_stops_at_first_failure(total, outcomes.drop_last());
        match first_failure(outcomes.drop_last()) {
            Some(k) => {
                lemma_first_failure_range(outcomes.drop_last());
            },
            None => {},
        }
    }
}

/// The first failure lies within the outcomes.
pub proof fn lemma_first_failure_range(outcomes: Seq<bool>)
    ensures
        first_failure(outcomes) matches Some(k) ==> 0 <= k < outcomes.len(),
    decreases outcomes.len(),
{
    if outcomes.len() > 0 {
        lemma_first_failure_range(outcomes.drop_last());
    }
}

} // verus!
