//! The state a shell session carries from one command to the next.

use crate::shell::path::{is_normalized, lemma_normalize_idempotent, normalize};
use vstd::prelude::*;

verus! {

/// Mathematical model of a shell context.
pub struct ContextView {
    /// Working directory.
    pub cwd: Seq<char>,
    /// Status of the last command.
    pub last_exit_code: int,
    /// User name shown in the prompt.
    pub username: Seq<char>,
    /// Host name shown in the prompt.
    pub hostname: Seq<char>,
}

impl ContextView {
    /// The prompt: `user@host:cwd$ `.
    pub open spec fn prompt(self) -> Seq<char> {
        self.username + "@"@ + self.hostname + ":"@ + self.cwd + "$ "@
    }

    /// The working directory is a normalized absolute path.
    pub open spec fn wf(self) -> bool {
        is_normalized(self.cwd)
    }
}

/// Working directory and identity of one shell session.
pub struct ShellContext {
    cwd: String,
    last_exit_code: i32,
    username: String,
    hostname: String,
}

impl View for ShellContext {
    type V = ContextView;

    closed spec fn view(&self) -> ContextView {
        ContextView {
            cwd: self.cwd@,
            last_exit_code: self.last_exit_code as int,
            username: self.username@,
            hostname: self.hostname@,
        }
    }
}

/// The context of a new session: user `redstone` on `localhost`, in `/`.
pub open spec fn initial_context() -> ContextView {
    ContextView { cwd: "/"@, last_exit_code: 0, username: "redstone"@, hostname: "localhost"@ }
}

/// `/` is normalized.
pub proof fn lemma_root_normalized()
    ensures
        is_normalized("/"@),
        "/"@ == seq!['/'],
{
    reveal_strlit("/");
    let root = seq!['/'];
    assert("/"@ =~= root);
    assert(root == normalize(Seq::<char>::empty())) by {
        reveal_with_fuel(crate::shell::path::split, 2);
        reveal_with_fuel(crate::shell::path::walk, 2);
        reveal_with_fuel(crate::shell::path::join, 2);
        let pieces = crate::shell::path::split(Seq::<char>::empty());
        assert(pieces.drop_last() =~= Seq::<Seq<char>>::empty());
        assert(crate::shell::path::walk(pieces) =~= Seq::<Seq<char>>::empty());
        assert(root =~= crate::shell::path::render(Seq::<Seq<char>>::empty()));
    }
    lemma_normalize_idempotent(Seq::<char>::empty());
}

impl ShellContext {
    /// The invariant of the context.
    pub open spec fn wf(&self) -> bool {
        self@.wf()
    }

    /// The context of a new session.
    pub fn new() -> (ctx: Self)
        ensures
            ctx@ == initial_context(),
            ctx.wf(),
    {
        proof {
            lemma_root_normalized();
        }
        ShellContext {
            cwd: String::from_str("/"),
            last_exit_code: 0,
            username: String::from_str("redstone"),
            hostname: String::from_str("localhost"),
        }
    }

    /// The prompt text, `user@host:cwd$ `.
    pub fn prompt(&self) -> (text: String)
        ensures
            text@ == self@.prompt(),
    {
        let mut text = self.username.clone();
        text.append("@");
        text.append(self.hostname.as_str());
        text.append(":");
        text.append(self.cwd.as_str());
        text.append("$ ");
        text
    }

    /// Makes `path` the working directory; nothing else changes.
    pub fn set_cwd(&mut self, path: &str)
        requires
            is_normalized(path@),
        ensures
            final(self)@ == (ContextView { cwd: path@, ..old(self)@ }),
            final(self).wf(),
    {
        self.cwd = String::from_str(path);
    }

    /// The working directory.
    pub fn cwd(&self) -> (path: &str)
        ensures
            path@ == self@.cwd,
    {
        self.cwd.as_str()
    }

    /// The user name.
    pub fn username(&self) -> (name: &str)
        ensures
            name@ == self@.username,
    {
        self.username.as_str()
    }

    /// The host name.
    pub fn hostname(&self) -> (name: &str)
        ensures
            name@ == self@.hostname,
    {
        self.hostname.as_str()
    }

    /// Status of the last command.
    pub fn last_exit_code(&self) -> (code: i32)
        ensures
            code == self@.last_exit_code,
    {
        self.last_exit_code
    }
}

impl Default for ShellContext {
    fn default() -> (ctx: Self)
        ensures
            ctx@ == initial_context(),
            ctx.wf(),
    {
        ShellContext::new()
    }
}

} // verus!
