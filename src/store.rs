use vstd::prelude::*;
use crate::error::FgError;
use crate::text::{same_text, views};

verus! {

/// The identifier of the version-control client.
pub open spec fn git_id() -> Seq<char> {
    seq!['g', 'i', 't']
}

/// The identifier of the hosting-platform client.
pub open spec fn gh_id() -> Seq<char> {
    seq!['g', 'h']
}

/// A mode is one of the two backend identifiers.
pub open spec fn is_valid_mode(m: Seq<char>) -> bool {
    m == git_id() || m == gh_id()
}

/// The mode held after writing `m` over `current`: `m` when it is valid,
/// else `current` unchanged.
pub open spec fn mode_after_write(current: Seq<char>, m: Seq<char>) -> Seq<char> {
    if is_valid_mode(m) {
        m
    } else {
        current
    }
}

/// Whether `m` is one of the two accepted backend identifiers.
pub fn check_mode(m: &str) -> (r: bool)
    ensures
        r == is_valid_mode(m@),
{
    proof {
        reveal_strlit("git");
        reveal_strlit("gh");
    }
    assert("git"@ =~= git_id());
    assert("gh"@ =~= gh_id());
    same_text(m, "git") || same_text(m, "gh")
}

/// The persisted configuration: the backend tool that pass-through
/// operations invoke.
pub struct Config {
    pub mode: String,
}

impl Config {
    /// The mode is one of the two accepted identifiers.
    pub open spec fn wf(&self) -> bool {
        is_valid_mode(self.mode@)
    }

    /// The configuration used when nothing valid is stored: the version-control
    /// client.
    pub fn default_config() -> (r: Config)
        ensures
            r.mode@ == git_id(),
            r.wf(),
    {
        proof {
            reveal_strlit("git");
        }
        let r = Config { mode: String::from_str("git") };
        assert(r.mode@ =~= git_id());
        r
    }

    /// The configuration read back from storage: the stored mode when one was
    /// read and is valid, the default otherwise.
    pub fn from_stored(stored: Option<String>) -> (r: Config)
        ensures
            r.wf(),
            r.mode@ == (match stored {
                Some(m) => mode_after_write(git_id(), m@),
                None => git_id(),
            }),
    {
        match stored {
            Some(m) => {
                if check_mode(m.as_str()) {
                    Config { mode: m }
                } else {
                    Config::default_config()
                }
            },
            None => Config::default_config(),
        }
    }
}

/// Selects the backend tool. Fails with `InvalidMode`, leaving the
/// configuration as it was, unless `mode` is one of the two accepted
/// identifiers.
pub fn set_mode(config: &mut Config, mode: &str) -> (r: Result<(), FgError>)
    ensures
        r is Ok <==> is_valid_mode(mode@),
        r matches Err(e) ==> e == FgError::InvalidMode,
        final(config).mode@ == mode_after_write(old(config).mode@, mode@),
{
    if check_mode(mode) {
        config.mode = String::from_str(mode);
        Ok(())
    } else {
        Err(FgError::InvalidMode)
    }
}

/// The mode currently selected.
pub fn get_current_mode(config: &Config) -> (r: String)
    ensures
        r@ == config.mode@,
{
    config.mode.clone()
}

/// Writing a valid mode and reading it back yields that mode, and writing the
/// same mode a second time changes nothing.
pub proof fn lemma_mode_write_idempotent(current: Seq<char>, m: Seq<char>)
    ensures
        is_valid_mode(m) ==> mode_after_write(current, m) == m,
        mode_after_write(mode_after_write(current, m), m) == mode_after_write(current, m),
{
}

} // verus!
