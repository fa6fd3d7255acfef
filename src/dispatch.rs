use vstd::prelude::*;
use crate::error::FgError;
use crate::flags::{find_flag, first_occurrence, flag_value, get_flag_value, lemma_first_occurrence_unique};
use crate::invoke::{
    git_add, git_commit, git_info, git_init, git_new, git_pull, git_push, git_ro, git_set_branch,
    or_default, Invocation,
};
use crate::text::{has_prefix, same_text, starts_with, views};

verus! {

/// The pass-through operations, one per backend subcommand.
#[derive(Debug, Clone, Copy, PartialEq, Eq, Structural)]
pub enum OpKind {
    Init,
    Add,
    Commit,
    Pull,
    Push,
    SetBranch,
    Remote,
    Info,
    NewBranch,
}

/// The flag that requests an operation.
pub open spec fn op_flag(k: OpKind) -> Seq<char> {
    match k {
        OpKind::Init => "--init"@,
        OpKind::Add => "--add"@,
        OpKind::Commit => "--commit"@,
        OpKind::Pull => "--pull"@,
        OpKind::Push => "--push"@,
        OpKind::SetBranch => "--setBranch"@,
        OpKind::Remote => "--ro"@,
        OpKind::Info => "--info"@,
        OpKind::NewBranch => "--new"@,
    }
}

/// The operations whose flag must carry a value.
pub open spec fn needs_value(k: OpKind) -> bool {
    k is Commit || k is SetBranch || k is Remote || k is NewBranch
}

/// The fixed order in which requested operations run, whatever their order
/// on the command line.
pub open spec fn op_order() -> Seq<OpKind> {
    seq![
        OpKind::Init,
        OpKind::Add,
        OpKind::Commit,
        OpKind::Pull,
        OpKind::Push,
        OpKind::SetBranch,
        OpKind::Remote,
        OpKind::Info,
        OpKind::NewBranch,
    ]
}

/// The number of pass-through operations.
pub const OP_COUNT: usize = 9;

impl OpKind {
    /// The flag that requests this operation.
    pub fn flag(&self) -> (r: &'static str)
        ensures
            r@ == op_flag(*self),
    {
        match self {
            OpKind::Init => "--init",
            OpKind::Add => "--add",
            OpKind::Commit => "--commit",
            OpKind::Pull => "--pull",
            OpKind::Push => "--push",
            OpKind::SetBranch => "--setBranch",
            OpKind::Remote => "--ro",
            OpKind::Info => "--info",
            OpKind::NewBranch => "--new",
        }
    }

    /// Whether the flag of this operation must carry a value.
    pub fn needs_value(&self) -> (r: bool)
        ensures
            r == needs_value(*self),
    {
        match self {
            OpKind::Commit | OpKind::SetBranch | OpKind::Remote | OpKind::NewBranch => true,
            _ => false,
        }
    }
}

fn kind_at(i: usize) -> (r: OpKind)
    requires
        i < OP_COUNT,
    ensures
        r == op_order()[i as int],
{
    match i {
        0 => OpKind::Init,
        1 => OpKind::Add,
        2 => OpKind::Commit,
        3 => OpKind::Pull,
        4 => OpKind::Push,
        5 => OpKind::SetBranch,
        6 => OpKind::Remote,
        7 => OpKind::Info,
        _ => OpKind::NewBranch,
    }
}

/// A requested pass-through operation and the value its flag carried.
pub struct GitOp {
    pub kind: OpKind,
    pub value: String,
}

impl View for GitOp {
    type V = (OpKind, Seq<char>);

    open spec fn view(&self) -> (OpKind, Seq<char>) {
        (self.kind, self.value@)
    }
}

/// The views of a list of operations.
pub open spec fn op_views(s: Seq<GitOp>) -> Seq<(OpKind, Seq<char>)> {
    s.map_values(|o: GitOp| o@)
}

/// The operations that `ks` requests of `a`, in the order of `ks`, up to the
/// first one whose flag needs a value and carries none; that one is returned
/// beside them.
pub open spec fn passthrough(a: Seq<Seq<char>>, ks: Seq<OpKind>) -> (
    Seq<(OpKind, Seq<char>)>,
    Option<OpKind>,
)
    decreases ks.len(),
{
    if ks.len() == 0 {
        (Seq::empty(), None)
    } else {
        let k = ks[0];
        let rest = passthrough(a, ks.skip(1));
        match flag_value(a, op_flag(k)) {
            None => rest,
            Some(v) => if needs_value(k) && v.len() == 0 {
                (Seq::empty(), Some(k))
            } else {
                (seq![(k, v)] + rest.0, rest.1)
            },
        }
    }
}

/// The argument vector handed to the backend for an operation.
pub open spec fn op_args(k: OpKind, v: Seq<char>) -> Seq<Seq<char>> {
    match k {
        OpKind::Init => seq!["init"@],
        OpKind::Add => seq!["add"@, or_default(v, "."@)],
        OpKind::Commit => seq!["commit"@, "-m"@, v],
        OpKind::Pull => seq!["pull"@, or_default(v, "origin"@)],
        OpKind::Push => seq!["push"@, or_default(v, "origin"@)],
        OpKind::SetBranch => seq!["checkout"@, "-b"@, v],
        OpKind::Remote => seq!["remote"@, "add"@, "origin"@, v],
        OpKind::Info => seq!["status"@, or_default(v, "."@)],
        OpKind::NewBranch => seq!["checkout"@, "-b"@, v],
    }
}

/// The invocation of `mode` that performs `op`.
pub fn op_invocation(mode: &str, op: &GitOp) -> (r: Invocation)
    ensures
        r@ == (mode@, op_args(op.kind, op.value@)),
{
    let v = op.value.as_str();
    match op.kind {
        OpKind::Init => git_init(mode),
        OpKind::Add => git_add(mode, v),
        OpKind::Commit => git_commit(mode, v),
        OpKind::Pull => git_pull(mode, v),
        OpKind::Push => git_push(mode, v),
        OpKind::SetBranch => git_set_branch(mode, v),
        OpKind::Remote => git_ro(mode, v),
        OpKind::Info => git_info(mode, v),
        OpKind::NewBranch => git_new(mode, v),
    }
}

/// Some token of `a` is exactly `t`.
pub open spec fn has_token(a: Seq<Seq<char>>, t: Seq<char>) -> bool {
    exists|i: int| 0 <= i < a.len() && a[i] == t
}

/// The argument list asks for help: it holds the program name alone, or a
/// help flag anywhere.
pub open spec fn wants_help(a: Seq<Seq<char>>) -> bool {
    a.len() == 1 || has_token(a, "--help"@) || has_token(a, "-h"@)
}

/// The number of tokens from index `s` on that do not begin with `--`.
pub open spec fn run_len(a: Seq<Seq<char>>, s: int) -> nat
    decreases a.len() - s,
{
    if 0 <= s < a.len() && !starts_with(a[s], "--"@) {
        1 + run_len(a, s + 1)
    } else {
        0
    }
}

/// The commands captured after the alias-creation flag at index `i`: the run
/// of tokens that follows it up to the next `--` token. When the flag stands
/// bare, the first token of that run is the alias name and is not a command;
/// in the `=` form the name is in the flag token and the whole run is kept.
pub open spec fn captured(a: Seq<Seq<char>>, i: int) -> Seq<Seq<char>> {
    let raw = a.subrange(i + 1, i + 1 + run_len(a, i + 1));
    if a[i] == "--createAlias"@ && raw.len() > 0 {
        raw.skip(1)
    } else {
        raw
    }
}

/// The commands captured after the first alias-creation flag.
pub open spec fn alias_capture(a: Seq<Seq<char>>) -> Seq<Seq<char>> {
    captured(a, choose|i: int| first_occurrence(a, "--createAlias"@, i))
}

/// What one invocation asks for.
pub enum Command {
    /// Show the help text.
    Help,
    /// Select the backend tool.
    SetMode(String),
    /// Report the backend tool.
    GetMode,
    /// Store an alias: its name and commands.
    CreateAlias(String, Vec<String>),
    /// List the stored aliases.
    ListAliases,
    /// Run the alias of that name.
    RunAlias(String),
    /// Run these operations in order; then fail with the error, if any.
    Passthrough(Vec<GitOp>, Option<FgError>),
}

/// `e` is the missing-value error for flag `f`.
pub open spec fn is_missing(e: FgError, f: Seq<char>) -> bool {
    e matches FgError::MissingRequiredValue(g) && g@ == f
}

/// `r` is what the argument list `a` asks for. The first of these that
/// applies decides: help; setting the mode; reporting it; creating an alias;
/// listing aliases; running one; and else the pass-through operations.
pub open spec fn interprets(a: Seq<Seq<char>>, r: Result<Command, FgError>) -> bool {
    if wants_help(a) {
        r matches Ok(Command::Help)
    } else if flag_value(a, "--setMode"@) is Some {
        let v = flag_value(a, "--setMode"@)->Some_0;
        if v.len() == 0 {
            r matches Err(e) && is_missing(e, "--setMode"@)
        } else {
            r matches Ok(Command::SetMode(m)) && m@ == v
        }
    } else if has_token(a, "--getMode"@) {
        r matches Ok(Command::GetMode)
    } else if flag_value(a, "--createAlias"@) is Some {
        let n = flag_value(a, "--createAlias"@)->Some_0;
        if n.len() == 0 {
            r matches Err(e) && is_missing(e, "--createAlias"@)
        } else if alias_capture(a).len() == 0 {
            r matches Err(FgError::EmptyCommandList)
        } else {
            r matches Ok(Command::CreateAlias(m, c)) && m@ == n && views(c@) == alias_capture(a)
        }
    } else if has_token(a, "--listAliases"@) {
        r matches Ok(Command::ListAliases)
    } else if flag_value(a, "--alias"@) is Some {
        let n = flag_value(a, "--alias"@)->Some_0;
        if n.len() == 0 {
            r matches Err(e) && is_missing(e, "--alias"@)
        } else {
            r matches Ok(Command::RunAlias(m)) && m@ == n
        }
    } else {
        let p = passthrough(a, op_order());
        r matches Ok(Command::Passthrough(ops, failure)) && op_views(ops@) == p.0 && match p.1 {
            None => failure is None,
            Some(k) => failure matches Some(e) && is_missing(e, op_flag(k)),
        }
    }
}

/// Whether some token of `args` is exactly `t`.
pub fn contains_token(args: &[String], t: &str) -> (r: bool)
    ensures
        r == has_token(views(args@), t@),
{
    let ghost a = views(args@);
    let mut i: usize = 0;
    while i < args.len()
        invariant
            a == views(args@),
            i <= args@.len(),
            forall|j: int| 0 <= j < i ==> a[j] != t@,
        decreases args@.len() - i,
    {
        if same_text(args[i].as_str(), t) {
            assert(a[i as int] == t@);
            return true;
        }
        i = i + 1;
    }
    false
}

/// The commands that follow the alias-creation flag at index `i`.
fn capture_after(args: &[String], i: usize) -> (r: Vec<String>)
    requires
        i < args@.len(),
    ensures
        views(r@) == captured(views(args@), i as int),
{
    let ghost a = views(args@);
    let mut out: Vec<String> = Vec::new();
    let n = args.len();
    let mut j: usize = i + 1;
    while j < n && !has_prefix(args[j].as_str(), "--")
        invariant
            a == views(args@),
            n == args@.len(),
            i + 1 <= j <= args@.len(),
            views(out@) == a.subrange(i + 1, j as int),
            run_len(a, i + 1) == (j - (i + 1)) + run_len(a, j as int),
        decreases args@.len() - j,
    {
        let ghost before = views(out@);
        out.push(args[j].clone());
        assert(a[j as int] == args@[j as int]@);
        assert(views(out@) =~= before.push(a[j as int]));
        j = j + 1;
        assert(views(out@) =~= a.subrange(i + 1, j as int));
    }
    assert(run_len(a, j as int) == 0);
    if same_text(args[i].as_str(), "--createAlias") && out.len() > 0 {
        out.remove(0);
        assert(views(out@) =~= a.subrange(i + 1, j as int).skip(1));
    }
    out
}

/// The missing-value error for `flag`.
fn missing(flag: &str) -> (e: FgError)
    ensures
        is_missing(e, flag@),
{
    FgError::MissingRequiredValue(String::from_str(flag))
}

/// The pass-through operations that `args` requests, in the fixed order,
/// stopping at the first one whose flag needs a value and carries none.
fn plan_passthrough(args: &[String]) -> (r: Command)
    ensures
        ({
            let p = passthrough(views(args@), op_order());
            r matches Command::Passthrough(ops, failure) && op_views(ops@) == p.0 && match p.1 {
                None => failure is None,
                Some(k) => failure matches Some(e) && is_missing(e, op_flag(k)),
            }
        }),
{
    let ghost a = views(args@);
    let ghost full = passthrough(a, op_order());
    let mut ops: Vec<GitOp> = Vec::new();
    let mut k: usize = 0;
    assert(op_order().skip(0) =~= op_order());
    assert(op_views(ops@) + full.0 =~= full.0);
    while k < OP_COUNT
        invariant
            a == views(args@),
            k <= OP_COUNT,
            full == passthrough(a, op_order()),
            full.0 == op_views(ops@) + passthrough(a, op_order().skip(k as int)).0,
            full.1 == passthrough(a, op_order().skip(k as int)).1,
        decreases OP_COUNT - k,
    {
        let kind = kind_at(k);
        let ghost ks = op_order().skip(k as int);
        assert(ks[0] == kind);
        assert(ks.skip(1) =~= op_order().skip(k + 1));
        match get_flag_value(args, kind.flag()) {
            None => {},
            Some(v) => {
                if kind.needs_value() && v.unicode_len() == 0 {
                    assert(op_views(ops@) + Seq::empty() =~= op_views(ops@));
                    return Command::Passthrough(ops, Some(missing(kind.flag())));
                }
                let ghost before = op_views(ops@);
                ops.push(GitOp { kind, value: v });
                assert(op_views(ops@) =~= before.push((kind, v@)));
                assert(op_views(ops@) + passthrough(a, ks.skip(1)).0 =~= before + (seq![(kind, v@)]
                    + passthrough(a, ks.skip(1)).0));
            },
        }
        k = k + 1;
    }
    assert(op_order().skip(OP_COUNT as int).len() == 0);
    assert(op_views(ops@) + Seq::empty() =~= op_views(ops@));
    Command::Passthrough(ops, None)
}

/// Decides what the argument list `args` (program name first) asks for.
/// Help wins over everything; then, in order, setting the mode, reporting
/// it, creating an alias, listing aliases and running an alias each stop the
/// search; otherwise every pass-through operation whose flag is present is
/// requested, in the fixed order. A flag that needs a value and carries none
/// gives `MissingRequiredValue`; an alias-creation flag followed by no
/// commands gives `EmptyCommandList`.
pub fn interpret(args: &[String]) -> (r: Result<Command, FgError>)
    ensures
        interprets(views(args@), r),
{
    let ghost a = views(args@);
    if args.len() == 1 || contains_token(args, "--help") || contains_token(args, "-h") {
        return Ok(Command::Help);
    }
    if let Some(v) = get_flag_value(args, "--setMode") {
        if v.unicode_len() == 0 {
            return Err(missing("--setMode"));
        }
        return Ok(Command::SetMode(v));
    }
    if contains_token(args, "--getMode") {
        return Ok(Command::GetMode);
    }
    if let Some(name) = get_flag_value(args, "--createAlias") {
        if name.unicode_len() == 0 {
            return Err(missing("--createAlias"));
        }
        if let Some(i) = find_flag(args, "--createAlias") {
            proof {
                let c = choose|c: int| first_occurrence(a, "--createAlias"@, c);
                lemma_first_occurrence_unique(a, "--createAlias"@, i as int, c);
            }
            let commands = capture_after(args, i);
            if commands.len() == 0 {
                return Err(FgError::EmptyCommandList);
            }
            return Ok(Command::CreateAlias(name, commands));
        }
    }
    if contains_token(args, "--listAliases") {
        return Ok(Command::ListAliases);
    }
    if let Some(name) = get_flag_value(args, "--alias") {
        if name.unicode_len() == 0 {
            return Err(missing("--alias"));
        }
        return Ok(Command::RunAlias(name));
    }
    Ok(plan_passthrough(args))
}

} // verus!
