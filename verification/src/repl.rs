use vstd::prelude::*;
use vstd::string::StringExecFns;
use crate::command::{Cmd, Handler};
use crate::error::Error;
use crate::parsed::Matches;
use crate::shims;
use crate::shims::split_tokens;

verus! {

/// What one blocking read of the line reader yielded.
pub enum ReadEvent {
    /// A line of text.
    Line(String),
    /// End of input: the loop ends gracefully.
    EndOfInput,
    /// An interruption signal: hint-only, never fatal.
    Interrupted,
    /// Any other read error, with its rendered message: fatal after printing.
    ReadFailed(String),
}

/// What the loop driver must do after one event: whether to keep reading,
/// whether to append the line verbatim to history, and what to print.
pub struct ReplStep {
    pub keep_going: bool,
    pub record_history: bool,
    pub message: Option<String>,
}

/// The loop's policy for the outcome of one dispatched line: the outcome
/// never stops the loop, the line joins the history, and a failure is
/// reported with exactly its rendered message.
pub fn line_step(outcome: Result<(), Error>) -> (r: ReplStep)
    ensures
        r.keep_going,
        r.record_history,
        (match outcome {
            Ok(()) => r.message is None,
            Err(e) => r.message matches Some(msg) && msg@ == e.spec_message(),
        }),
{
    let message = match outcome {
        Ok(()) => None,
        Err(e) => Some(e.message()),
    };
    ReplStep { keep_going: true, record_history: true, message }
}

impl<H> Cmd<H> {
    /// The token vector an interactive line dispatches: this command's own
    /// name prepended to the line's tokens as the implicit leading token, so
    /// the argument specification built for process invocation also parses
    /// interactive lines.
    pub fn invocation_tokens(&self, tokens: &Vec<String>) -> (r: Vec<String>)
        ensures
            r@.map_values(|s: String| s@) == seq![self.spec_name()] + tokens@.map_values(
                |s: String| s@,
            ),
    {
        let mut args: Vec<String> = Vec::new();
        args.push(self.get_name().to_owned());
        let mut i: usize = 0;
        while i < tokens.len()
            invariant
                i <= tokens@.len(),
                args@.len() == i + 1,
                args@[0]@ == self.spec_name(),
                forall|j: int| 0 <= j < i ==> (#[trigger] args@[j + 1])@ == tokens@[j]@,
            decreases tokens@.len() - i,
        {
            args.push(tokens[i].clone());
            i += 1;
        }
        proof {
            let lhs = args@.map_values(|s: String| s@);
            let rhs = seq![self.spec_name()] + tokens@.map_values(|s: String| s@);
            assert forall|j: int| 0 <= j < lhs.len() implies lhs[j] == rhs[j] by {
                if j > 0 {
                    assert(args@[(j - 1) + 1]@ == tokens@[j - 1]@);
                }
            }
            assert(lhs =~= rhs);
        }
        args
    }

    /// Process one interactive line: tokenize it, prepend this command's own
    /// name as the implicit leading token, and dispatch. A malformed line is
    /// surfaced as `Tokenize`; any failure before a custom handler ran leaves
    /// the context untouched.
    pub fn process_line<Ctx>(&self, line: &str, ctx: &mut Ctx) -> (r: Result<(), Error>) where
        H: Handler<Ctx>,

        requires
            self.distinct_labels(),
        ensures
            (r matches Err(Error::Tokenize(_))) <==> split_tokens(line@) is None,
            r matches Err(Error::Tokenize(s)) ==> s@ == "missing closing quote"@,
            r matches Err(Error::Tokenize(_)) ==> *final(ctx) == *old(ctx),
            r matches Err(Error::ArgParse(_)) ==> *final(ctx) == *old(ctx),
            r matches Err(Error::UnknownSubcommand(_)) ==> *final(ctx) == *old(ctx),
    {
        let tokens = match shims::split_line(line) {
            Err(_) => {
                return Err(Error::Tokenize("missing closing quote".to_owned()));
            },
            Ok(t) => t,
        };
        let args = self.invocation_tokens(&tokens);
        self.exec_from(&args, ctx)
    }

    /// One step of the interactive loop. A line never stops the loop,
    /// whatever failed while processing it; a line's processing is finished
    /// before the next event is taken. End of input stops the loop silently;
    /// an interruption keeps it alive with a hint; any other read error stops
    /// it after reporting.
    pub fn repl_step<Ctx>(&self, event: ReadEvent, ctx: &mut Ctx) -> (r: ReplStep) where
        H: Handler<Ctx>,

        requires
            self.distinct_labels(),
        ensures
            (match event {
                ReadEvent::Line(_) => r.keep_going,
                _ => true,
            }),
            (match event {
                ReadEvent::Line(l) => r.record_history <==> split_tokens(l@) is Some,
                _ => !r.record_history,
            }),
            (match event {
                ReadEvent::Line(l) => split_tokens(l@) is None ==> {
                    &&& *final(ctx) == *old(ctx)
                    &&& r.message matches Some(msg) && msg@ == "parse error: `"@
                        + "missing closing quote"@ + "`"@
                },
                ReadEvent::EndOfInput => !r.keep_going && r.message is None && *final(ctx) == *old(
                    ctx,
                ),
                ReadEvent::Interrupted => {
                    &&& r.keep_going
                    &&& *final(ctx) == *old(ctx)
                    &&& r.message matches Some(msg) && msg@ == "press CTRL-D to exit"@
                },
                ReadEvent::ReadFailed(e) => {
                    &&& !r.keep_going
                    &&& *final(ctx) == *old(ctx)
                    &&& r.message matches Some(msg) && msg@ == "readline error "@ + e@
                },
            }),
    {
        match event {
            ReadEvent::Line(l) => {
                let res = self.process_line(l.as_str(), ctx);
                match res {
                    Err(Error::Tokenize(s)) => {
                        let msg = Error::Tokenize(s).message();
                        ReplStep { keep_going: true, record_history: false, message: Some(msg) }
                    },
                    other => line_step(other),
                }
            },
            ReadEvent::EndOfInput => ReplStep {
                keep_going: false,
                record_history: false,
                message: None,
            },
            ReadEvent::Interrupted => ReplStep {
                keep_going: true,
                record_history: false,
                message: Some("press CTRL-D to exit".to_owned()),
            },
            ReadEvent::ReadFailed(e) => {
                let mut msg: String = "readline error ".to_owned();
                msg.append(e.as_str());
                ReplStep { keep_going: false, record_history: false, message: Some(msg) }
            },
        }
    }

    /// Execute this command once against already-parsed startup matches and
    /// say whether the interactive loop is owed: a run that resolved a
    /// subcommand is one-shot and never enters the loop; one that resolved
    /// none enters it whenever execution succeeded.
    pub fn startup_with<Ctx>(&self, m: &Matches, ctx: &mut Ctx) -> (r: Result<bool, Error>) where
        H: Handler<Ctx>,

        ensures
            (match r {
                Ok(b) => b == (m.path().len() == 0),
                Err(_) => true,
            }),
            (m.path().len() == 0 && self.spec_handler() is Dispatch) ==> ((r matches Ok(true))
                && *final(ctx) == *old(ctx)),
            (match crate::command::resolve(*self, m.path()) {
                crate::command::Resolution::Done => r is Ok,
                crate::command::Resolution::Missing(nm) => r matches Err(
                    Error::UnknownSubcommand(s),
                ) && s@ == nm,
                crate::command::Resolution::At(node, _) => {
                    &&& (node.spec_handler() matches crate::command::HandlerKind::Completions {
                        ..
                    } ==> ((r is Ok || r matches Err(Error::ArgParse(_))) && *final(ctx) == *old(
                        ctx,
                    )))
                    &&& (node.spec_handler() matches crate::command::HandlerKind::Custom(_) ==> (
                    r is Ok || r matches Err(Error::Handler(_))))
                },
            }),
            !(r matches Err(Error::Tokenize(_))),
            r matches Err(Error::ArgParse(_)) ==> *final(ctx) == *old(ctx),
            r matches Err(Error::UnknownSubcommand(_)) ==> *final(ctx) == *old(ctx),
    {
        match self.exec_with(m, ctx) {
            Err(e) => Err(e),
            Ok(()) => match m.subcommand() {
                Some(_) => Ok(false),
                None => Ok(true),
            },
        }
    }

    /// Parse the process's initial arguments (the first is the binary name)
    /// and execute once: the startup step of a run. `Ok(true)` asks the
    /// caller to enter the interactive loop; parse and handler failures
    /// propagate to the caller, as one-shot failures are fatal.
    pub fn startup<Ctx>(&self, args: &Vec<String>, ctx: &mut Ctx) -> (r: Result<bool, Error>) where
        H: Handler<Ctx>,

        requires
            self.distinct_labels(),
        ensures
            !(r matches Err(Error::Tokenize(_))),
            r matches Err(Error::ArgParse(_)) ==> *final(ctx) == *old(ctx),
            r matches Err(Error::UnknownSubcommand(_)) ==> *final(ctx) == *old(ctx),
    {
        let m = match self.parse_from(args) {
            Err(e) => {
                return Err(e);
            },
            Ok(m) => m,
        };
        self.startup_with(&m, ctx)
    }
}

} // verus!
