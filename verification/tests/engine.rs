use repl_dispatch::{line_step, Cmd, Error, Handler, Matches, ReadEvent, ShellKind};

/// A handler for the tests: pushes a tag, fails, or checks its scoped
/// matches before pushing.
enum TestH {
    Push(&'static str),
    Fail(&'static str),
    PushScopedCheck(&'static str),
    PushWord,
}

impl Handler<Vec<String>> for TestH {
    fn call(
        &self,
        _cmd: &Cmd<Self>,
        m: &Matches,
        ctx: &mut Vec<String>,
    ) -> Result<(), String> {
        match self {
            TestH::Push(t) => {
                ctx.push(t.to_string());
                Ok(())
            }
            TestH::Fail(msg) => Err(msg.to_string()),
            TestH::PushScopedCheck(t) => {
                assert!(m.subcommand().is_none());
                ctx.push(t.to_string());
                Ok(())
            }
            TestH::PushWord => {
                let w = m
                    .arg_matches()
                    .get_one::<String>("word")
                    .cloned()
                    .unwrap_or_default();
                ctx.push(w);
                Ok(())
            }
        }
    }
}

fn greet_tree() -> Cmd<TestH> {
    Cmd::new("root").subcommand(Cmd::new("greet").handler(TestH::Push("hi")))
}

fn args(v: &[&str]) -> Vec<String> {
    v.iter().map(|s| s.to_string()).collect()
}

#[test]
fn register_last_write_wins() {
    let cmd: Cmd<TestH> = Cmd::new("root")
        .subcommand(Cmd::new("dup").handler(TestH::Push("first")))
        .subcommand(Cmd::new("dup").handler(TestH::Push("second")));
    let mut ctx: Vec<String> = Vec::new();
    cmd.exec_from(&args(&["root", "dup"]), &mut ctx).unwrap();
    assert_eq!(ctx, vec!["second".to_string()]);
}

#[test]
fn register_is_idempotent_by_position() {
    let cmd: Cmd<TestH> = Cmd::new("root")
        .subcommand(Cmd::new("a").handler(TestH::Push("a1")))
        .subcommand(Cmd::new("b").handler(TestH::Push("b")))
        .subcommand(Cmd::new("a").handler(TestH::Push("a2")));
    let a = cmd.find_child(&"a".to_string()).unwrap();
    assert_eq!(a.get_name(), "a");
    let b = cmd.find_child(&"b".to_string()).unwrap();
    assert_eq!(b.get_name(), "b");
    assert!(cmd.find_child(&"c".to_string()).is_none());
}

#[test]
fn subcommands_registers_in_order() {
    let cmd: Cmd<TestH> = Cmd::new("root").subcommands(vec![
        Cmd::new("x").handler(TestH::Push("x")),
        Cmd::new("y").handler(TestH::Push("y")),
    ]);
    let mut ctx: Vec<String> = Vec::new();
    cmd.exec_from(&args(&["root", "y"]), &mut ctx).unwrap();
    assert_eq!(ctx, vec!["y".to_string()]);
}

#[test]
fn deepest_handler_runs_not_ancestors() {
    let cmd: Cmd<TestH> = Cmd::new("root").subcommand(
        Cmd::new("outer").subcommand(Cmd::new("inner").handler(TestH::PushScopedCheck("inner"))),
    );
    let mut ctx: Vec<String> = Vec::new();
    cmd.exec_from(&args(&["root", "outer", "inner"]), &mut ctx)
        .unwrap();
    assert_eq!(ctx, vec!["inner".to_string()]);
}

#[test]
fn custom_handler_on_ancestor_terminates_dispatch() {
    let cmd: Cmd<TestH> = Cmd::new("root").subcommand(
        Cmd::new("outer")
            .handler(TestH::Push("outer"))
            .subcommand(Cmd::new("inner").handler(TestH::Push("inner"))),
    );
    let mut ctx: Vec<String> = Vec::new();
    cmd.exec_from(&args(&["root", "outer", "inner"]), &mut ctx)
        .unwrap();
    assert_eq!(ctx, vec!["outer".to_string()]);
}

#[test]
fn one_shot_dispatches_once_and_skips_loop() {
    let cmd = greet_tree();
    let mut ctx: Vec<String> = Vec::new();
    let enter = cmd.startup(&args(&["root", "greet"]), &mut ctx).unwrap();
    assert!(!enter);
    assert_eq!(ctx, vec!["hi".to_string()]);
}

#[test]
fn no_subcommand_enters_loop() {
    let cmd = greet_tree();
    let mut ctx: Vec<String> = Vec::new();
    let enter = cmd.startup(&args(&["root"]), &mut ctx).unwrap();
    assert!(enter);
    assert!(ctx.is_empty());
}

#[test]
fn startup_parse_error_propagates() {
    let cmd = greet_tree();
    let mut ctx: Vec<String> = Vec::new();
    let r = cmd.startup(&args(&["root", "frobnicate"]), &mut ctx);
    assert!(matches!(r, Err(Error::ArgParse(_))));
    assert!(ctx.is_empty());
}

#[test]
fn subcommand_required_else_help_rejects_bare_call() {
    let cmd: Cmd<TestH> = greet_tree().subcommand_required_else_help(true);
    let mut ctx: Vec<String> = Vec::new();
    let r = cmd.startup(&args(&["root"]), &mut ctx);
    assert!(matches!(r, Err(Error::ArgParse(_))));
    assert!(ctx.is_empty());
}

#[test]
fn interactive_line_runs_handler_and_keeps_loop() {
    let cmd = greet_tree();
    let mut ctx: Vec<String> = Vec::new();
    let step = cmd.repl_step(ReadEvent::Line("greet".to_string()), &mut ctx);
    assert!(step.keep_going);
    assert!(step.record_history);
    assert!(step.message.is_none());
    assert_eq!(ctx, vec!["hi".to_string()]);
}

#[test]
fn interactive_bogus_flag_prints_and_keeps_loop() {
    let cmd = greet_tree();
    let mut ctx: Vec<String> = Vec::new();
    let step = cmd.repl_step(ReadEvent::Line("greet --bogus".to_string()), &mut ctx);
    assert!(step.keep_going);
    assert!(step.record_history);
    let msg = step.message.expect("a parse error must be reported");
    assert!(!msg.is_empty());
    assert!(ctx.is_empty());
}

#[test]
fn interactive_tokenize_error_keeps_loop_and_context() {
    let cmd = greet_tree();
    let mut ctx: Vec<String> = vec!["before".to_string()];
    let step = cmd.repl_step(ReadEvent::Line("greet 'oops".to_string()), &mut ctx);
    assert!(step.keep_going);
    assert!(!step.record_history);
    assert_eq!(
        step.message.as_deref(),
        Some("parse error: `missing closing quote`")
    );
    assert_eq!(ctx, vec!["before".to_string()]);
}

#[test]
fn interactive_unknown_command_keeps_loop_and_context() {
    let cmd = greet_tree();
    let mut ctx: Vec<String> = Vec::new();
    let step = cmd.repl_step(ReadEvent::Line("frobnicate".to_string()), &mut ctx);
    assert!(step.keep_going);
    assert!(step.message.is_some());
    assert!(ctx.is_empty());
}

#[test]
fn interactive_handler_error_prints_and_keeps_loop() {
    let cmd: Cmd<TestH> =
        Cmd::new("root").subcommand(Cmd::new("boom").handler(TestH::Fail("it broke")));
    let mut ctx: Vec<String> = Vec::new();
    let step = cmd.repl_step(ReadEvent::Line("boom".to_string()), &mut ctx);
    assert!(step.keep_going);
    assert_eq!(step.message.as_deref(), Some("it broke"));
}

#[test]
fn interactive_quoting_reaches_handler_as_one_token() {
    let word = clap::Arg::new("word").required(true);
    let cmd: Cmd<TestH> =
        Cmd::new("root").subcommand(Cmd::new("echo").arg(word).handler(TestH::PushWord));
    let mut ctx: Vec<String> = Vec::new();
    let step = cmd.repl_step(ReadEvent::Line("echo 'a b'".to_string()), &mut ctx);
    assert!(step.keep_going);
    assert!(step.message.is_none());
    assert_eq!(ctx, vec!["a b".to_string()]);
}

#[test]
fn end_of_input_stops_loop_silently() {
    let cmd = greet_tree();
    let mut ctx: Vec<String> = Vec::new();
    let step = cmd.repl_step(ReadEvent::EndOfInput, &mut ctx);
    assert!(!step.keep_going);
    assert!(!step.record_history);
    assert!(step.message.is_none());
}

#[test]
fn interrupt_hints_and_keeps_loop() {
    let cmd = greet_tree();
    let mut ctx: Vec<String> = Vec::new();
    let step = cmd.repl_step(ReadEvent::Interrupted, &mut ctx);
    assert!(step.keep_going);
    assert_eq!(step.message.as_deref(), Some("press CTRL-D to exit"));
}

#[test]
fn read_failure_reports_and_stops_loop() {
    let cmd = greet_tree();
    let mut ctx: Vec<String> = Vec::new();
    let step = cmd.repl_step(ReadEvent::ReadFailed("broken pipe".to_string()), &mut ctx);
    assert!(!step.keep_going);
    assert_eq!(step.message.as_deref(), Some("readline error broken pipe"));
}

#[test]
fn unknown_subcommand_error_from_manual_matches() {
    let cmd = greet_tree();
    let mut ctx: Vec<String> = Vec::new();
    let m = Matches::selecting("ghost".to_string(), Matches::empty());
    let r = cmd.exec_with(&m, &mut ctx);
    match r {
        Err(Error::UnknownSubcommand(name)) => assert_eq!(name, "ghost"),
        other => panic!("expected UnknownSubcommand, got {:?}", other),
    }
    assert!(ctx.is_empty());
}

#[test]
fn error_messages_render_exactly() {
    assert_eq!(
        Error::ArgParse("bad flag".to_string()).message(),
        "bad flag"
    );
    assert_eq!(
        Error::Tokenize("missing closing quote".to_string()).message(),
        "parse error: `missing closing quote`"
    );
    assert_eq!(
        Error::UnknownSubcommand("ghost".to_string()).message(),
        "no subcommand handler for `ghost`"
    );
    assert_eq!(Error::Handler("it broke".to_string()).message(), "it broke");
}

#[test]
fn builder_name_and_aliases() {
    let cmd: Cmd<TestH> = Cmd::new("first")
        .name("second")
        .alias("two")
        .aliases(&vec!["zwei".to_string(), "deux".to_string()])
        .about("a test command")
        .version("1.0")
        .author("somebody")
        .color(clap::ColorChoice::Never)
        .display_order(3);
    assert_eq!(cmd.get_name(), "second");
    assert_eq!(
        cmd.get_all_aliases().clone(),
        vec!["two".to_string(), "zwei".to_string(), "deux".to_string()]
    );
}

#[test]
fn alias_dispatches_to_named_child() {
    let cmd: Cmd<TestH> =
        Cmd::new("root").subcommand(Cmd::new("greet").alias("hi").handler(TestH::Push("hi")));
    let mut ctx: Vec<String> = Vec::new();
    cmd.exec_from(&args(&["root", "hi"]), &mut ctx).unwrap();
    assert_eq!(ctx, vec!["hi".to_string()]);
}

#[test]
fn parse_from_accepts_and_rejects() {
    let cmd = greet_tree();
    assert!(cmd.parse_from(&args(&["root", "greet"])).is_ok());
    assert!(matches!(
        cmd.parse_from(&args(&["root", "nope"])),
        Err(Error::ArgParse(_))
    ));
}

#[test]
fn startup_with_no_selection_asks_for_loop() {
    let cmd = greet_tree();
    let mut ctx: Vec<String> = Vec::new();
    let enter = cmd.startup_with(&Matches::empty(), &mut ctx).unwrap();
    assert!(enter);
    assert!(ctx.is_empty());
}

#[test]
fn startup_with_selection_is_one_shot() {
    let cmd = greet_tree();
    let mut ctx: Vec<String> = Vec::new();
    let m = Matches::selecting("greet".to_string(), Matches::empty());
    let enter = cmd.startup_with(&m, &mut ctx).unwrap();
    assert!(!enter);
    assert_eq!(ctx, vec!["hi".to_string()]);
}

#[test]
fn one_shot_depth_two_runs_deepest_once() {
    let cmd: Cmd<TestH> = Cmd::new("root").subcommand(
        Cmd::new("outer").subcommand(Cmd::new("inner").handler(TestH::Push("inner"))),
    );
    let mut ctx: Vec<String> = Vec::new();
    let enter = cmd
        .startup(&args(&["root", "outer", "inner"]), &mut ctx)
        .unwrap();
    assert!(!enter);
    assert_eq!(ctx, vec!["inner".to_string()]);
}

#[test]
fn line_step_reports_exactly_the_failure_message() {
    let ok = line_step(Ok(()));
    assert!(ok.keep_going);
    assert!(ok.record_history);
    assert!(ok.message.is_none());
    let err = line_step(Err(Error::Handler("it broke".to_string())));
    assert!(err.keep_going);
    assert!(err.record_history);
    assert_eq!(err.message.as_deref(), Some("it broke"));
    let unknown = line_step(Err(Error::UnknownSubcommand("ghost".to_string())));
    assert_eq!(
        unknown.message.as_deref(),
        Some("no subcommand handler for `ghost`")
    );
}

#[test]
fn invocation_tokens_prepend_root_name() {
    let cmd = greet_tree();
    let tokens = args(&["greet", "--verbose"]);
    let sent = cmd.invocation_tokens(&tokens);
    assert_eq!(sent, args(&["root", "greet", "--verbose"]));
}

#[test]
fn distinct_labels_accepts_plain_trees() {
    let cmd = greet_tree();
    assert!(cmd.check_distinct_labels());
    let aliased: Cmd<TestH> = Cmd::new("root")
        .subcommand(Cmd::new("greet").alias("hi").handler(TestH::Push("hi")))
        .subcommand(Cmd::new("bye").alias("later"));
    assert!(aliased.check_distinct_labels());
}

#[test]
fn distinct_labels_rejects_colliding_aliases() {
    let alias_vs_name: Cmd<TestH> = Cmd::new("root")
        .subcommand(Cmd::new("b").alias("c"))
        .subcommand(Cmd::new("c"));
    assert!(!alias_vs_name.check_distinct_labels());
    let alias_vs_alias: Cmd<TestH> = Cmd::new("root")
        .subcommand(Cmd::new("b").alias("x"))
        .subcommand(Cmd::new("d").alias("x"));
    assert!(!alias_vs_alias.check_distinct_labels());
    let deep: Cmd<TestH> =
        Cmd::new("root").subcommand(Cmd::new("outer").subcommand(Cmd::new("y").alias("y")));
    assert!(!deep.check_distinct_labels());
}

#[test]
fn shell_names_round_trip() {
    for (kind, name) in [
        (ShellKind::Bash, "bash"),
        (ShellKind::Zsh, "zsh"),
        (ShellKind::PowerShell, "powershell"),
        (ShellKind::Fish, "fish"),
        (ShellKind::Elvish, "elvish"),
    ] {
        assert_eq!(kind.name(), name);
        assert_eq!(ShellKind::from_name(name), Some(kind));
    }
    assert_eq!(ShellKind::from_name("tcsh"), None);
    assert_eq!(ShellKind::all().len(), 5);
}
