use vstd::prelude::*;

verus! {

/// A shell with completion-script support.
///
/// Exactly five identifiers are recognised: `bash`, `zsh`, `powershell`,
/// `fish` and `elvish`.
#[derive(Debug, Clone, Copy, PartialEq, Eq, Structural)]
pub enum ShellKind {
    Bash,
    Zsh,
    PowerShell,
    Fish,
    Elvish,
}

impl ShellKind {
    /// The identifier that names this shell.
    pub closed spec fn spec_name(&self) -> Seq<char> {
        match self {
            ShellKind::Bash => "bash"@,
            ShellKind::Zsh => "zsh"@,
            ShellKind::PowerShell => "powershell"@,
            ShellKind::Fish => "fish"@,
            ShellKind::Elvish => "elvish"@,
        }
    }

    /// Whether `s` is one of the five supported shell identifiers.
    pub open spec fn is_supported_name(s: Seq<char>) -> bool {
        s == "bash"@ || s == "zsh"@ || s == "powershell"@ || s == "fish"@ || s == "elvish"@
    }

    /// The identifier of this shell, as embedded in command lines.
    pub fn name(&self) -> (r: &'static str)
        ensures
            r@ == self.spec_name(),
    {
        match self {
            ShellKind::Bash => "bash",
            ShellKind::Zsh => "zsh",
            ShellKind::PowerShell => "powershell",
            ShellKind::Fish => "fish",
            ShellKind::Elvish => "elvish",
        }
    }

    /// Parse a shell identifier; `None` exactly on unsupported names.
    pub fn from_name(s: &str) -> (r: Option<ShellKind>)
        ensures
            match r {
                Some(sh) => sh.spec_name() == s@,
                None => !ShellKind::is_supported_name(s@),
            },
    {
        let o: String = s.to_owned();
        if o == "bash".to_owned() {
            Some(ShellKind::Bash)
        } else if o == "zsh".to_owned() {
            Some(ShellKind::Zsh)
        } else if o == "powershell".to_owned() {
            Some(ShellKind::PowerShell)
        } else if o == "fish".to_owned() {
            Some(ShellKind::Fish)
        } else if o == "elvish".to_owned() {
            Some(ShellKind::Elvish)
        } else {
            None
        }
    }

    /// The five supported shells, in the order their identifiers are offered
    /// to the argument parser.
    pub fn all() -> (r: Vec<ShellKind>)
        ensures
            r@ == seq![ShellKind::Bash, ShellKind::Zsh, ShellKind::PowerShell, ShellKind::Fish, ShellKind::Elvish],
    {
        let mut v: Vec<ShellKind> = Vec::new();
        v.push(ShellKind::Bash);
        v.push(ShellKind::Zsh);
        v.push(ShellKind::PowerShell);
        v.push(ShellKind::Fish);
        v.push(ShellKind::Elvish);
        proof {
            assert(v@ =~= seq![
                ShellKind::Bash,
                ShellKind::Zsh,
                ShellKind::PowerShell,
                ShellKind::Fish,
                ShellKind::Elvish,
            ]);
        }
        v
    }
}

/// Every shell's own identifier is a supported identifier.
pub proof fn lemma_shell_name_supported(sh: ShellKind)
    ensures
        ShellKind::is_supported_name(sh.spec_name()),
{
}

} // verus!
