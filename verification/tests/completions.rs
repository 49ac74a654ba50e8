use repl_dispatch::{Cmd, Error, Handler, Matches, NoopHandler, ShellKind};

/// A handler that records its tag in the context.
struct Tag(&'static str);

impl Handler<Vec<String>> for Tag {
    fn call(
        &self,
        _cmd: &Cmd<Self>,
        _m: &Matches,
        ctx: &mut Vec<String>,
    ) -> Result<(), String> {
        ctx.push(self.0.to_string());
        Ok(())
    }
}

fn args(v: &[&str]) -> Vec<String> {
    v.iter().map(|s| s.to_string()).collect()
}

#[test]
fn completion_scripts_reference_root_name_for_all_shells() {
    let cmd: Cmd<Tag> = Cmd::new("myapp")
        .subcommand(Cmd::new("greet").handler(Tag("hi")))
        .with_completions_subcmd();
    for kind in ShellKind::all() {
        let script = cmd.completion_script(kind);
        assert!(!script.is_empty());
        assert!(script.contains("myapp"));
    }
}

#[test]
fn completions_one_shot_run_writes_and_exits() {
    let cmd: Cmd<Tag> = Cmd::new("myapp")
        .subcommand(Cmd::new("greet").handler(Tag("hi")))
        .with_completions_subcmd();
    let mut ctx: Vec<String> = Vec::new();
    let enter = cmd
        .startup(&args(&["myapp", "completions", "bash"]), &mut ctx)
        .unwrap();
    assert!(!enter);
    assert!(ctx.is_empty());
}

#[test]
fn completions_rejects_unsupported_shell() {
    let cmd: Cmd<NoopHandler> = Cmd::new("myapp").with_completions_subcmd();
    let mut ctx: Vec<String> = Vec::new();
    let r = cmd.startup(&args(&["myapp", "completions", "tcsh"]), &mut ctx);
    assert!(matches!(r, Err(Error::ArgParse(_))));
}

#[test]
fn completions_requires_shell_argument() {
    let cmd: Cmd<NoopHandler> = Cmd::new("myapp").with_completions_subcmd();
    let mut ctx: Vec<String> = Vec::new();
    let r = cmd.startup(&args(&["myapp", "completions"]), &mut ctx);
    assert!(matches!(r, Err(Error::ArgParse(_))));
}
