use vstd::prelude::*;
use crate::error::Error;
use crate::parsed::Matches;
use crate::shell::ShellKind;
use crate::shims;

verus! {

broadcast use vstd::std_specs::vec::group_vec_axioms;

/// How a node responds when dispatch reaches it.
pub enum HandlerKind<H> {
    /// Delegate to the selected child; succeed as a no-op with none selected.
    Dispatch,
    /// Render a completion script from the snapshot taken at installation and
    /// write it to standard output, embedding `bin_name`.
    Completions { snapshot: clap::Command, bin_name: String },
    /// A caller-supplied handler.
    Custom(H),
}

/// A caller-supplied handler, bound to one node by `Command::handler`.
pub trait Handler<Ctx>: Sized {
    /// Run on the owning node, the matches scoped to it, and the shared
    /// context. A failure is surfaced to the dispatcher as `Error::Handler`.
    fn call(&self, cmd: &Cmd<Self>, m: &Matches, ctx: &mut Ctx) -> Result<(), String>;
}

/// The handler type for trees whose nodes only ever dispatch to children;
/// as a custom handler it succeeds without doing anything.
pub struct NoopHandler;

impl<Ctx> Handler<Ctx> for NoopHandler {
    fn call(&self, _cmd: &Cmd<Self>, _m: &Matches, _ctx: &mut Ctx) -> Result<(), String> {
        Ok(())
    }
}

/// A node of the command tree: a name, aliases, a handler, and the children
/// it dispatches to, kept in lockstep with the argument specification handed
/// to the parser.
///
/// Invariant: child names are unique among siblings, and a child's position
/// in the mapping always matches its own name.
pub struct Cmd<H> {
    cmd: clap::Command,
    name: String,
    aliases: Vec<String>,
    handler: HandlerKind<H>,
    subcmds: Vec<(String, Cmd<H>)>,
}

/// What dispatch does with a node and a chain of selected names.
pub enum Resolution<H> {
    /// The chain was consumed by default nodes alone: a no-op success.
    Done,
    /// The deepest resolved node, with the chain scoped to it.
    At(Cmd<H>, Seq<Seq<char>>),
    /// A selected name absent from its parent's child mapping.
    Missing(Seq<char>),
}

impl<H> Cmd<H> {
    /// The children as the sequence they were registered in.
    pub closed spec fn children(&self) -> Seq<(String, Cmd<H>)> {
        self.subcmds@
    }

    /// This node's name.
    pub closed spec fn spec_name(&self) -> Seq<char> {
        self.name@
    }

    /// This node's aliases, in registration order.
    pub closed spec fn spec_aliases(&self) -> Seq<Seq<char>> {
        self.aliases@.map_values(|s: String| s@)
    }

    /// This node's handler.
    pub closed spec fn spec_handler(&self) -> HandlerKind<H> {
        self.handler
    }

    /// The mapping a sequence of registrations denotes: later entries win.
    pub open spec fn map_of(s: Seq<(String, Cmd<H>)>) -> Map<Seq<char>, Cmd<H>>
        decreases s.len(),
    {
        if s.len() == 0 {
            Map::empty()
        } else {
            Self::map_of(s.drop_last()).insert(s.last().0@, s.last().1)
        }
    }

    /// The child mapping: name to child node.
    pub open spec fn child_map(&self) -> Map<Seq<char>, Cmd<H>> {
        Self::map_of(self.children())
    }

    /// The labels a node claims among its siblings: its name, then its
    /// aliases, in registration order.
    pub open spec fn labels(&self) -> Seq<Seq<char>> {
        seq![self.spec_name()] + self.spec_aliases()
    }

    /// All labels the children of a node claim, in registration order.
    pub open spec fn labels_of(s: Seq<(String, Cmd<H>)>) -> Seq<Seq<char>>
        decreases s.len(),
    {
        if s.len() == 0 {
            Seq::empty()
        } else {
            Self::labels_of(s.drop_last()) + s.last().1.labels()
        }
    }

    /// At every node of the tree, the children's names and aliases are
    /// pairwise distinct. The argument parser demands this of a specification
    /// before it parses or renders completions from it (its debug builds
    /// assert it), so the functions that hand it the tree require it.
    pub open spec fn distinct_labels(&self) -> bool
        decreases *self,
    {
        &&& Self::labels_of(self.children()).no_duplicates()
        &&& forall|i: int|
            0 <= i < self.children().len() ==> (#[trigger] self.children()[i]).1.distinct_labels()
    }

    /// Sibling names are unique and each entry's key is its node's own name.
    #[verifier::type_invariant]
    spec fn wf(&self) -> bool {
        &&& forall|i: int, j: int|
            0 <= i < j < self.subcmds@.len() ==> (#[trigger] self.subcmds@[i]).0@ != (
            #[trigger] self.subcmds@[j]).0@
        &&& forall|i: int|
            0 <= i < self.subcmds@.len() ==> (#[trigger] self.subcmds@[i]).0@
                == self.subcmds@[i].1.name@
    }

    proof fn lemma_map_of_index(s: Seq<(String, Cmd<H>)>, i: int)
        requires
            forall|x: int, y: int|
                0 <= x < y < s.len() ==> (#[trigger] s[x]).0@ != (#[trigger] s[y]).0@,
            0 <= i < s.len(),
        ensures
            Self::map_of(s).contains_key(s[i].0@),
            Self::map_of(s)[s[i].0@] == s[i].1,
        decreases s.len(),
    {
        if i == s.len() - 1 {
        } else {
            assert(s.drop_last()[i] == s[i]);
            Self::lemma_map_of_index(s.drop_last(), i);
            assert(s[i].0@ != s.last().0@);
        }
    }

    proof fn lemma_map_of_contains(s: Seq<(String, Cmd<H>)>, k: Seq<char>)
        ensures
            Self::map_of(s).contains_key(k) <==> exists|i: int|
                0 <= i < s.len() && (#[trigger] s[i]).0@ == k,
        decreases s.len(),
    {
        if s.len() > 0 {
            Self::lemma_map_of_contains(s.drop_last(), k);
            if s.last().0@ == k {
                assert((#[trigger] s[s.len() - 1]).0@ == k);
            } else {
                if exists|i: int| 0 <= i < s.len() && (#[trigger] s[i]).0@ == k {
                    let i = choose|i: int| 0 <= i < s.len() && (#[trigger] s[i]).0@ == k;
                    assert(i < s.len() - 1);
                    assert(s.drop_last()[i] == s[i]);
                }
                if exists|i: int| 0 <= i < s.drop_last().len() && (#[trigger] s.drop_last()[i]).0@
                    == k {
                    let i = choose|i: int|
                        0 <= i < s.drop_last().len() && (#[trigger] s.drop_last()[i]).0@ == k;
                    assert(s[i] == s.drop_last()[i]);
                }
            }
        }
    }

    proof fn lemma_map_of_update(s: Seq<(String, Cmd<H>)>, i: int, v: (String, Cmd<H>))
        requires
            forall|x: int, y: int|
                0 <= x < y < s.len() ==> (#[trigger] s[x]).0@ != (#[trigger] s[y]).0@,
            0 <= i < s.len(),
            v.0@ == s[i].0@,
        ensures
            Self::map_of(s.update(i, v)) == Self::map_of(s).insert(v.0@, v.1),
        decreases s.len(),
    {
        let t = s.update(i, v);
        if i == s.len() - 1 {
            assert(t.drop_last() =~= s.drop_last());
            assert(t.last() == v);
            assert(Self::map_of(t) == Self::map_of(s.drop_last()).insert(v.0@, v.1));
            assert(Self::map_of(s).insert(v.0@, v.1) =~= Self::map_of(s.drop_last()).insert(
                v.0@,
                v.1,
            ));
        } else {
            assert(t.drop_last() =~= s.drop_last().update(i, v));
            assert(t.last() == s.last());
            assert(s.drop_last()[i] == s[i]);
            Self::lemma_map_of_update(s.drop_last(), i, v);
            assert(s[i].0@ != s.last().0@);
            assert(Self::map_of(t) == Self::map_of(s.drop_last()).insert(v.0@, v.1).insert(
                s.last().0@,
                s.last().1,
            ));
            assert(Self::map_of(s.drop_last()).insert(v.0@, v.1).insert(s.last().0@, s.last().1)
                =~= Self::map_of(s.drop_last()).insert(s.last().0@, s.last().1).insert(v.0@, v.1));
        }
    }

    proof fn lemma_map_of_push(s: Seq<(String, Cmd<H>)>, v: (String, Cmd<H>))
        ensures
            Self::map_of(s.push(v)) == Self::map_of(s).insert(v.0@, v.1),
    {
        assert(s.push(v).drop_last() =~= s);
        assert(s.push(v).last() == v);
    }

    proof fn lemma_map_view_push(s: Seq<String>, x: String)
        ensures
            s.push(x).map_values(|t: String| t@) =~= s.map_values(|t: String| t@).push(x@),
    {
        let lhs = s.push(x).map_values(|t: String| t@);
        let rhs = s.map_values(|t: String| t@).push(x@);
        assert forall|j: int| 0 <= j < lhs.len() implies lhs[j] == rhs[j] by {
            if j < s.len() {
                assert(s.push(x)[j] == s[j]);
            } else {
                assert(s.push(x)[j] == x);
            }
        }
    }

    /// The labels this node's children claim, flattened in registration
    /// order: each child's name, then its aliases.
    fn collect_labels(&self) -> (r: Vec<String>)
        ensures
            r@.map_values(|s: String| s@) == Self::labels_of(self.children()),
    {
        let mut out: Vec<String> = Vec::new();
        proof {
            assert(out@.map_values(|s: String| s@) =~= Self::labels_of(self.children().take(0)));
        }
        let mut i: usize = 0;
        while i < self.subcmds.len()
            invariant
                i <= self.subcmds@.len(),
                out@.map_values(|s: String| s@) == Self::labels_of(self.children().take(i as int)),
            decreases self.subcmds@.len() - i,
        {
            let child = &self.subcmds[i].1;
            let ghost mid = Self::labels_of(self.children().take(i as int));
            let ghost before = out@;
            out.push(child.get_name().to_owned());
            proof {
                assert(out@ =~= before.push(out@.last()));
                Self::lemma_map_view_push(before, out@.last());
                assert(out@.map_values(|s: String| s@) =~= mid + seq![child.spec_name()]);
            }
            let aliases = child.get_all_aliases();
            let mut j: usize = 0;
            while j < aliases.len()
                invariant
                    j <= aliases@.len(),
                    aliases@.map_values(|s: String| s@) == child.spec_aliases(),
                    out@.map_values(|s: String| s@) == mid + seq![child.spec_name()]
                        + child.spec_aliases().take(j as int),
                decreases aliases@.len() - j,
            {
                let ghost beforej = out@;
                out.push(aliases[j].clone());
                proof {
                    assert(out@ =~= beforej.push(out@.last()));
                    Self::lemma_map_view_push(beforej, out@.last());
                    assert(aliases@[j as int]@ == child.spec_aliases()[j as int]);
                    assert(child.spec_aliases().take(j as int + 1) =~= child.spec_aliases().take(
                        j as int,
                    ).push(child.spec_aliases()[j as int]));
                    assert(out@.map_values(|s: String| s@) =~= mid + seq![child.spec_name()]
                        + child.spec_aliases().take(j as int + 1));
                }
                j += 1;
            }
            proof {
                assert(child.spec_aliases().take(child.spec_aliases().len() as int)
                    =~= child.spec_aliases());
                assert(mid + seq![child.spec_name()] + child.spec_aliases() =~= mid
                    + child.labels());
                let nxt = self.children().take(i as int + 1);
                assert(nxt.drop_last() =~= self.children().take(i as int));
                assert(nxt.last() == self.children()[i as int]);
                assert(Self::labels_of(nxt) == mid + self.children()[i as int].1.labels());
            }
            i += 1;
        }
        proof {
            assert(self.children().take(self.children().len() as int) =~= self.children());
        }
        out
    }

    /// Whether the strings are pairwise distinct, by value.
    fn pairwise_distinct(v: &Vec<String>) -> (b: bool)
        ensures
            b == v@.map_values(|s: String| s@).no_duplicates(),
    {
        let ghost w = v@.map_values(|s: String| s@);
        let mut i: usize = 0;
        while i < v.len()
            invariant
                i <= v@.len(),
                w == v@.map_values(|s: String| s@),
                forall|x: int, y: int| 0 <= x < y < v@.len() && x < i ==> w[x] != w[y],
            decreases v@.len() - i,
        {
            let mut j: usize = i + 1;
            while j < v.len()
                invariant
                    i < j <= v@.len() || (i as int + 1 == j && j > v@.len()),
                    i < v@.len(),
                    w == v@.map_values(|s: String| s@),
                    forall|y: int| i < y < j ==> w[i as int] != w[y],
                decreases v@.len() - j,
            {
                if v[i] == v[j] {
                    proof {
                        assert(w[i as int] == w[j as int]);
                        assert(!w.no_duplicates());
                    }
                    return false;
                }
                j += 1;
            }
            i += 1;
        }
        proof {
            assert forall|x: int, y: int|
                0 <= x < w.len() && 0 <= y < w.len() && x != y implies w[x] != w[y] by {
                if x < y {
                    assert(w[x] != w[y]);
                } else {
                    assert(w[y] != w[x]);
                }
            }
        }
        true
    }

    /// Decide at run time whether every node's children claim pairwise
    /// distinct names and aliases — the condition the dispatch entry points
    /// require before handing the tree to the argument parser.
    pub fn check_distinct_labels(&self) -> (b: bool)
        ensures
            b == self.distinct_labels(),
        decreases *self,
    {
        let labels = self.collect_labels();
        if !Self::pairwise_distinct(&labels) {
            return false;
        }
        let mut i: usize = 0;
        while i < self.subcmds.len()
            invariant
                i <= self.subcmds@.len(),
                Self::labels_of(self.children()).no_duplicates(),
                forall|k: int|
                    0 <= k < i ==> (#[trigger] self.children()[k]).1.distinct_labels(),
            decreases self.subcmds@.len() - i,
        {
            if !self.subcmds[i].1.check_distinct_labels() {
                return false;
            }
            i += 1;
        }
        true
    }

    /// Create a new command under `name`, with the default dispatching
    /// handler and no children.
    pub fn new(name: &str) -> (r: Self)
        ensures
            r.spec_name() == name@,
            r.spec_handler() is Dispatch,
            r.children() == Seq::<(String, Cmd<H>)>::empty(),
            r.spec_aliases() == Seq::<Seq<char>>::empty(),
    {
        let r = Cmd {
            cmd: shims::command_new(name),
            name: name.to_owned(),
            aliases: Vec::new(),
            handler: HandlerKind::Dispatch,
            subcmds: Vec::new(),
        };
        proof {
            assert(r.spec_aliases() =~= Seq::<Seq<char>>::empty());
        }
        r
    }

    /// (Re)set this command's name.
    pub fn name(self, name: &str) -> (r: Self)
        ensures
            r.spec_name() == name@,
            r.spec_aliases() == self.spec_aliases(),
            r.spec_handler() == self.spec_handler(),
            r.children() == self.children(),
    {
        proof {
            use_type_invariant(&self);
        }
        let Cmd { cmd, name: _, aliases, handler, subcmds } = self;
        Cmd {
            cmd: shims::command_set_name(cmd, name),
            name: name.to_owned(),
            aliases,
            handler,
            subcmds,
        }
    }

    /// Record one alias for this command.
    pub fn alias(self, name: &str) -> (r: Self)
        ensures
            r.spec_name() == self.spec_name(),
            r.spec_aliases() == self.spec_aliases().push(name@),
            r.spec_handler() == self.spec_handler(),
            r.children() == self.children(),
    {
        proof {
            use_type_invariant(&self);
        }
        let Cmd { cmd, name: own, mut aliases, handler, subcmds } = self;
        aliases.push(name.to_owned());
        let r = Cmd { cmd: shims::command_alias(cmd, name), name: own, aliases, handler, subcmds };
        proof {
            assert(r.spec_aliases() =~= self.spec_aliases().push(name@));
        }
        r
    }

    /// Record several aliases at once.
    pub fn aliases(self, names: &Vec<String>) -> (r: Self)
        ensures
            r.spec_name() == self.spec_name(),
            r.spec_aliases() == self.spec_aliases() + names@.map_values(|s: String| s@),
            r.spec_handler() == self.spec_handler(),
            r.children() == self.children(),
    {
        let mut this = self;
        let ghost orig = this;
        let mut i: usize = 0;
        while i < names.len()
            invariant
                i <= names@.len(),
                this.spec_name() == orig.spec_name(),
                this.spec_handler() == orig.spec_handler(),
                this.children() == orig.children(),
                this.spec_aliases() == orig.spec_aliases() + names@.map_values(
                    |s: String| s@,
                ).take(i as int),
            decreases names@.len() - i,
    {
            let ghost before = this.spec_aliases();
            this = this.alias(names[i].as_str());
            proof {
                assert(this.spec_aliases() =~= orig.spec_aliases() + names@.map_values(
                    |s: String| s@,
                ).take(i as int + 1));
            }
            i += 1;
        }
        proof {
            assert(names@.map_values(|s: String| s@).take(names@.len() as int) =~= names@.map_values(
                |s: String| s@,
            ));
        }
        this
    }

    /// Set the description shown in help.
    pub fn about(self, about: &str) -> (r: Self)
        ensures
            r.spec_name() == self.spec_name(),
            r.spec_aliases() == self.spec_aliases(),
            r.spec_handler() == self.spec_handler(),
            r.children() == self.children(),
    {
        proof {
            use_type_invariant(&self);
        }
        let Cmd { cmd, name, aliases, handler, subcmds } = self;
        Cmd { cmd: shims::command_about(cmd, about), name, aliases, handler, subcmds }
    }

    /// Set the version shown by `--version`.
    pub fn version(self, ver: &str) -> (r: Self)
        ensures
            r.spec_name() == self.spec_name(),
            r.spec_aliases() == self.spec_aliases(),
            r.spec_handler() == self.spec_handler(),
            r.children() == self.children(),
    {
        proof {
            use_type_invariant(&self);
        }
        let Cmd { cmd, name, aliases, handler, subcmds } = self;
        Cmd { cmd: shims::command_version(cmd, ver), name, aliases, handler, subcmds }
    }

    /// Set the author metadata.
    pub fn author(self, author: &str) -> (r: Self)
        ensures
            r.spec_name() == self.spec_name(),
            r.spec_aliases() == self.spec_aliases(),
            r.spec_handler() == self.spec_handler(),
            r.children() == self.children(),
    {
        proof {
            use_type_invariant(&self);
        }
        let Cmd { cmd, name, aliases, handler, subcmds } = self;
        Cmd { cmd: shims::command_author(cmd, author), name, aliases, handler, subcmds }
    }

    /// Set the colour preference, forwarded to the argument parser.
    pub fn color(self, color: clap::ColorChoice) -> (r: Self)
        ensures
            r.spec_name() == self.spec_name(),
            r.spec_aliases() == self.spec_aliases(),
            r.spec_handler() == self.spec_handler(),
            r.children() == self.children(),
    {
        proof {
            use_type_invariant(&self);
        }
        let Cmd { cmd, name, aliases, handler, subcmds } = self;
        Cmd { cmd: shims::command_color(cmd, color), name, aliases, handler, subcmds }
    }

    /// Set the position in help listings.
    pub fn display_order(self, ord: usize) -> (r: Self)
        ensures
            r.spec_name() == self.spec_name(),
            r.spec_aliases() == self.spec_aliases(),
            r.spec_handler() == self.spec_handler(),
            r.children() == self.children(),
    {
        proof {
            use_type_invariant(&self);
        }
        let Cmd { cmd, name, aliases, handler, subcmds } = self;
        Cmd { cmd: shims::command_display_order(cmd, ord), name, aliases, handler, subcmds }
    }

    /// Ask the argument parser to treat a missing subcommand as a parse
    /// error that shows the help text.
    pub fn subcommand_required_else_help(self, yes: bool) -> (r: Self)
        ensures
            r.spec_name() == self.spec_name(),
            r.spec_aliases() == self.spec_aliases(),
            r.spec_handler() == self.spec_handler(),
            r.children() == self.children(),
    {
        proof {
            use_type_invariant(&self);
        }
        let Cmd { cmd, name, aliases, handler, subcmds } = self;
        let cmd = shims::command_subcommand_required(cmd, yes);
        let cmd = shims::command_arg_required_else_help(cmd, yes);
        Cmd { cmd, name, aliases, handler, subcmds }
    }

    /// Attach one argument declaration.
    pub fn arg(self, a: clap::Arg) -> (r: Self)
        ensures
            r.spec_name() == self.spec_name(),
            r.spec_aliases() == self.spec_aliases(),
            r.spec_handler() == self.spec_handler(),
            r.children() == self.children(),
    {
        proof {
            use_type_invariant(&self);
        }
        let Cmd { cmd, name, aliases, handler, subcmds } = self;
        Cmd { cmd: shims::command_arg(cmd, a), name, aliases, handler, subcmds }
    }

    /// Bind a custom handler to this node.
    pub fn handler(self, handler: H) -> (r: Self)
        ensures
            r.spec_name() == self.spec_name(),
            r.spec_aliases() == self.spec_aliases(),
            r.spec_handler() == HandlerKind::Custom(handler),
            r.children() == self.children(),
    {
        proof {
            use_type_invariant(&self);
        }
        let Cmd { cmd, name, aliases, handler: _, subcmds } = self;
        Cmd { cmd, name, aliases, handler: HandlerKind::Custom(handler), subcmds }
    }

    /// This command's name.
    pub fn get_name(&self) -> (r: &str)
        ensures
            r@ == self.spec_name(),
    {
        self.name.as_str()
    }

    /// All aliases recorded for this command, in registration order.
    pub fn get_all_aliases(&self) -> (r: &Vec<String>)
        ensures
            r@.map_values(|s: String| s@) == self.spec_aliases(),
    {
        &self.aliases
    }

    /// Register `subcmd` under its own name. A child already registered
    /// under that name is replaced in place; otherwise the child is appended:
    /// registration is idempotent by position and last-write-wins by name.
    pub fn subcommand(self, subcmd: Self) -> (r: Self)
        ensures
            r.spec_name() == self.spec_name(),
            r.spec_aliases() == self.spec_aliases(),
            r.spec_handler() == self.spec_handler(),
            r.child_map() == self.child_map().insert(subcmd.spec_name(), subcmd),
            self.child_map().contains_key(subcmd.spec_name()) ==> {
                &&& r.children().len() == self.children().len()
                &&& forall|j: int|
                    0 <= j < self.children().len() ==> (#[trigger] r.children()[j]).0@
                        == self.children()[j].0@
                &&& forall|j: int|
                    0 <= j < self.children().len() && (#[trigger] self.children()[j]).0@
                        != subcmd.spec_name() ==> r.children()[j] == self.children()[j]
                &&& forall|j: int|
                    0 <= j < self.children().len() && (#[trigger] self.children()[j]).0@
                        == subcmd.spec_name() ==> r.children()[j].1 == subcmd
            },
            !self.child_map().contains_key(subcmd.spec_name()) ==> {
                &&& r.children().len() == self.children().len() + 1
                &&& r.children().drop_last() == self.children()
                &&& r.children().last().0@ == subcmd.spec_name()
                &&& r.children().last().1 == subcmd
            },
    {
        proof {
            use_type_invariant(&self);
            use_type_invariant(&subcmd);
        }
        let key = subcmd.name.clone();
        let Cmd { cmd, name, aliases, handler, mut subcmds } = self;
        let ghost olds = subcmds@;
        let mut i: usize = 0;
        let mut replaced = false;
        while i < subcmds.len()
            invariant_except_break
                subcmds@ == olds,
                i <= olds.len(),
                !replaced,
                forall|j: int| 0 <= j < i ==> (#[trigger] olds[j]).0@ != key@,
            ensures
                subcmds@ == olds,
                replaced ==> i < olds.len() && olds[i as int].0@ == key@,
                !replaced ==> forall|j: int| 0 <= j < olds.len() ==> (#[trigger] olds[j]).0@
                    != key@,
            decreases olds.len() - i,
        {
            if subcmds[i].0 == key {
                replaced = true;
                break ;
            }
            i += 1;
        }
        proof {
            Self::lemma_map_of_contains(olds, key@);
        }
        if replaced {
            let _ = subcmds.remove(i);
            subcmds.insert(i, (key, subcmd));
            proof {
                let ii = i as int;
                assert(subcmds@ =~= olds.update(ii, (key, subcmd)));
                Self::lemma_map_of_update(olds, ii, (key, subcmd));
                assert forall|x: int, y: int|
                    0 <= x < y < subcmds@.len() implies (#[trigger] subcmds@[x]).0@ != (
                #[trigger] subcmds@[y]).0@ by {
                    assert(olds[x].0@ != olds[y].0@);
                    assert(olds[x].0@ == subcmds@[x].0@ || x == ii);
                    assert(olds[y].0@ == subcmds@[y].0@ || y == ii);
                    assert(olds[ii].0@ == key@);
                }
                assert forall|x: int| 0 <= x < subcmds@.len() implies (#[trigger] subcmds@[x]).0@
                    == subcmds@[x].1.name@ by {
                    if x != ii {
                        assert(subcmds@[x] == olds[x]);
                    }
                }
            }
        } else {
            subcmds.push((key, subcmd));
            proof {
                Self::lemma_map_of_push(olds, (key, subcmd));
                assert(subcmds@.drop_last() =~= olds);
                assert forall|x: int| 0 <= x < subcmds@.len() implies (#[trigger] subcmds@[x]).0@
                    == subcmds@[x].1.name@ by {
                    if x < olds.len() {
                        assert(subcmds@[x] == olds[x]);
                    }
                }
                assert forall|x: int, y: int|
                    0 <= x < y < subcmds@.len() implies (#[trigger] subcmds@[x]).0@ != (
                #[trigger] subcmds@[y]).0@ by {
                    if y < olds.len() {
                        assert(olds[x].0@ != olds[y].0@);
                    } else {
                        assert(subcmds@[x] == olds[x]);
                        assert(olds[x].0@ != key@);
                    }
                }
            }
        }
        Cmd { cmd, name, aliases, handler, subcmds }
    }

    /// Register several subcommands, in order.
    pub fn subcommands(self, subcmds: Vec<Self>) -> (r: Self)
        ensures
            r.spec_name() == self.spec_name(),
            r.spec_aliases() == self.spec_aliases(),
            r.spec_handler() == self.spec_handler(),
            r.child_map() == register_all(self.child_map(), subcmds@),
    {
        let mut this = self;
        let ghost orig = this;
        let mut q = subcmds;
        let ghost allq = q@;
        let ghost n = allq.len();
        while q.len() > 0
            invariant
                q@ =~= allq.skip(n - q@.len()),
                q@.len() <= n,
                n == allq.len(),
                this.spec_name() == orig.spec_name(),
                this.spec_aliases() == orig.spec_aliases(),
                this.spec_handler() == orig.spec_handler(),
                this.child_map() == register_all(orig.child_map(), allq.take(n - q@.len())),
            decreases q@.len(),
        {
            let ghost i = n - q@.len();
            let sub = q.remove(0);
            proof {
                assert(sub == allq[i]);
                assert(q@ =~= allq.skip(i + 1));
                assert(allq.take(i + 1).drop_last() =~= allq.take(i));
                assert(allq.take(i + 1).last() == allq[i]);
            }
            this = this.subcommand(sub);
        }
        proof {
            assert(allq.take(n as int) =~= allq);
        }
        this
    }

    /// Look up a child by name: the most recently registered child under
    /// that name, if any.
    pub fn find_child(&self, name: &String) -> (r: Option<&Cmd<H>>)
        ensures
            match r {
                Some(c) => self.child_map().contains_key(name@) && *c == self.child_map()[name@],
                None => !self.child_map().contains_key(name@),
            },
    {
        proof {
            use_type_invariant(self);
        }
        let mut i: usize = 0;
        while i < self.subcmds.len()
            invariant
                i <= self.subcmds@.len(),
                forall|j: int| 0 <= j < i ==> (#[trigger] self.subcmds@[j]).0@ != name@,
            decreases self.subcmds@.len() - i,
        {
            if self.subcmds[i].0 == *name {
                proof {
                    use_type_invariant(self);
                    Self::lemma_map_of_index(self.subcmds@, i as int);
                }
                return Some(&self.subcmds[i].1);
            }
            i += 1;
        }
        proof {
            use_type_invariant(self);
            Self::lemma_map_of_contains(self.subcmds@, name@);
        }
        None
    }
}

/// The mapping after registering `regs` in order over `m`: each registration
/// binds its node's name, later registrations winning.
pub open spec fn register_all<H>(
    m: Map<Seq<char>, Cmd<H>>,
    regs: Seq<Cmd<H>>,
) -> Map<Seq<char>, Cmd<H>>
    decreases regs.len(),
{
    if regs.len() == 0 {
        m
    } else {
        register_all(m, regs.drop_last()).insert(regs.last().spec_name(), regs.last())
    }
}

/// Registering children is idempotent by position but last-write-wins by
/// name: after any sequence of registrations, a lookup by name yields the
/// most recently registered node with that name.
pub proof fn lemma_register_last_wins<H>(m: Map<Seq<char>, Cmd<H>>, regs: Seq<Cmd<H>>, i: int)
    requires
        0 <= i < regs.len(),
        forall|j: int|
            i < j < regs.len() ==> (#[trigger] regs[j]).spec_name() != regs[i].spec_name(),
    ensures
        register_all(m, regs).contains_key(regs[i].spec_name()),
        register_all(m, regs)[regs[i].spec_name()] == regs[i],
    decreases regs.len(),
{
    if i == regs.len() - 1 {
    } else {
        assert(regs.drop_last()[i] == regs[i]);
        assert(forall|j: int|
            i < j < regs.drop_last().len() ==> (#[trigger] regs.drop_last()[j]).spec_name()
                != regs.drop_last()[i].spec_name());
        lemma_register_last_wins(m, regs.drop_last(), i);
        assert(regs.last() == regs[regs.len() - 1]);
        assert(regs.last().spec_name() != regs[i].spec_name());
    }
}

/// What the default handler does with a node and a chain of selected names:
/// an exhausted chain is a no-op, a known name delegates to that child, an
/// unknown one fails.
pub open spec fn resolve_children<H>(n: Cmd<H>, path: Seq<Seq<char>>) -> Resolution<H>
    decreases path.len(), 0int,
{
    if path.len() == 0 {
        Resolution::Done
    } else if n.child_map().contains_key(path[0]) {
        resolve(n.child_map()[path[0]], path.drop_first())
    } else {
        Resolution::Missing(path[0])
    }
}

/// Where dispatch of the chain ends when started at `n`: default nodes
/// delegate along the chain; any other handler ends resolution at its node,
/// with the rest of the chain scoped to it.
pub open spec fn resolve<H>(n: Cmd<H>, path: Seq<Seq<char>>) -> Resolution<H>
    decreases path.len(), 1int,
{
    match n.spec_handler() {
        HandlerKind::Dispatch => resolve_children(n, path),
        _ => Resolution::At(n, path),
    }
}

/// The node a chain of names leads to, by child lookup alone.
pub open spec fn node_at<H>(n: Cmd<H>, path: Seq<Seq<char>>) -> Option<Cmd<H>>
    decreases path.len(),
{
    if path.len() == 0 {
        Some(n)
    } else if n.child_map().contains_key(path[0]) {
        node_at(n.child_map()[path[0]], path.drop_first())
    } else {
        None
    }
}

/// Every name of the chain exists in its parent's mapping, and every node
/// strictly above the chain's end dispatches by default.
pub open spec fn descends_by_dispatch<H>(n: Cmd<H>, path: Seq<Seq<char>>) -> bool
    decreases path.len(),
{
    path.len() > 0 ==> {
        &&& n.spec_handler() is Dispatch
        &&& n.child_map().contains_key(path[0])
        &&& descends_by_dispatch(n.child_map()[path[0]], path.drop_first())
    }
}

/// Dispatch reaches the deepest node the chain names, never an ancestor, and
/// scopes an exhausted chain to it: where every node above the chain's end
/// dispatches by default, resolution ends at the deepest node — as a no-op
/// where that node itself dispatches by default, and at that node's own
/// handler otherwise.
pub proof fn lemma_dispatch_reaches_deepest<H>(n: Cmd<H>, path: Seq<Seq<char>>)
    requires
        descends_by_dispatch(n, path),
    ensures
        node_at(n, path) is Some,
        (match node_at(n, path).unwrap().spec_handler() {
            HandlerKind::Dispatch => resolve(n, path) is Done,
            _ => resolve(n, path) == Resolution::At(
                node_at(n, path).unwrap(),
                Seq::<Seq<char>>::empty(),
            ),
        }),
    decreases path.len(),
{
    if path.len() == 0 {
        assert(path =~= Seq::<Seq<char>>::empty());
    } else {
        lemma_dispatch_reaches_deepest(n.child_map()[path[0]], path.drop_first());
    }
}

/// Render the completion script for the shell a scoped invocation selected.
fn run_completions(snapshot: &clap::Command, bin_name: &String, m: &Matches) -> (r: Result<
    (),
    Error,
>)
    ensures
        r is Ok || r matches Err(Error::ArgParse(_)),
{
    let shell_str = match shims::get_string_arg(m.arg_matches(), "shell") {
        Some(s) => s,
        None => {
            return Err(Error::ArgParse("missing required argument `shell`".to_owned()));
        },
    };
    match ShellKind::from_name(shell_str.as_str()) {
        None => Err(Error::ArgParse("unsupported shell identifier".to_owned())),
        Some(sh) => {
            proof {
                crate::shell::lemma_shell_name_supported(sh);
            }
            let cs = shims::parse_shell(sh.name()).unwrap();
            let script = shims::generate_completions(cs, snapshot, bin_name.as_str());
            shims::write_stdout(script.as_str());
            Ok(())
        },
    }
}

impl<H> Cmd<H> {
    /// Invoke this node's handler on the matches and the context. The default
    /// handler dispatches along the selection chain; resolution is pinned by
    /// `resolve`: an exhausted chain at default nodes is a no-op, an unknown
    /// name fails with `UnknownSubcommand`, and any other handler runs at its
    /// own node. The context is untouched unless a custom handler ran.
    pub fn exec_with<Ctx>(&self, m: &Matches, ctx: &mut Ctx) -> (r: Result<(), Error>) where
        H: Handler<Ctx>,

        ensures
            resolve(*self, m.path()) is Done ==> r is Ok && *final(ctx) == *old(ctx),
            (match resolve(*self, m.path()) {
                Resolution::Missing(nm) => r matches Err(Error::UnknownSubcommand(s)) && s@ == nm,
                _ => true,
            }),
            (match resolve(*self, m.path()) {
                Resolution::At(node, _) => {
                    &&& (node.spec_handler() matches HandlerKind::Completions { .. } ==> ((r is Ok
                        || r matches Err(Error::ArgParse(_))) && *final(ctx) == *old(ctx)))
                    &&& (node.spec_handler() matches HandlerKind::Custom(_) ==> (r is Ok
                        || r matches Err(Error::Handler(_))))
                },
                _ => true,
            }),
            !(r matches Err(Error::Tokenize(_))),
            r matches Err(Error::ArgParse(_)) ==> *final(ctx) == *old(ctx),
            r matches Err(Error::UnknownSubcommand(_)) ==> *final(ctx) == *old(ctx),
        decreases m.path().len(), 1int,
    {
        match &self.handler {
            HandlerKind::Dispatch => self.dispatch_subcmd(m, ctx),
            HandlerKind::Completions { snapshot, bin_name } => run_completions(
                snapshot,
                bin_name,
                m,
            ),
            // The handler's result is handed on unchanged, a failure's message
            // wrapped as Error::Handler. Verus gives a caller no way to name
            // the result of an uncontracted trait method, so that tie is not
            // in the ensures; only the outcome's kind is.
            HandlerKind::Custom(h) => match h.call(self, m, ctx) {
                Ok(()) => Ok(()),
                Err(msg) => Err(Error::Handler(msg)),
            },
        }
    }

    /// The default handler: an exhausted chain succeeds as a no-op; a
    /// selected name is looked up among the children and execution is
    /// delegated to it with the matches scoped to it; an unknown name fails.
    pub fn dispatch_subcmd<Ctx>(&self, m: &Matches, ctx: &mut Ctx) -> (r: Result<(), Error>) where
        H: Handler<Ctx>,

        ensures
            resolve_children(*self, m.path()) is Done ==> r is Ok && *final(ctx) == *old(ctx),
            (match resolve_children(*self, m.path()) {
                Resolution::Missing(nm) => r matches Err(Error::UnknownSubcommand(s)) && s@ == nm,
                _ => true,
            }),
            (match resolve_children(*self, m.path()) {
                Resolution::At(node, _) => {
                    &&& (node.spec_handler() matches HandlerKind::Completions { .. } ==> ((r is Ok
                        || r matches Err(Error::ArgParse(_))) && *final(ctx) == *old(ctx)))
                    &&& (node.spec_handler() matches HandlerKind::Custom(_) ==> (r is Ok
                        || r matches Err(Error::Handler(_))))
                },
                _ => true,
            }),
            !(r matches Err(Error::Tokenize(_))),
            r matches Err(Error::ArgParse(_)) ==> *final(ctx) == *old(ctx),
            r matches Err(Error::UnknownSubcommand(_)) ==> *final(ctx) == *old(ctx),
        decreases m.path().len(), 0int,
    {
        match m.subcommand() {
            None => Ok(()),
            Some((nm, sub_m)) => match self.find_child(nm) {
                None => Err(Error::UnknownSubcommand(nm.clone())),
                // The child's result is returned as it came; the ensures pin
                // its kind per the resolution, while the identity of a
                // propagated message has no name a contract could use.
                Some(child) => child.exec_with(sub_m, ctx),
            },
        }
    }

    /// Assemble the full argument specification for the parser: this node's
    /// own declarations with each child's specification attached, child names
    /// being unique by the tree's invariant.
    fn build_spec(&self) -> (r: clap::Command)
        decreases *self,
    {
        let mut c = shims::command_clone(&self.cmd);
        let mut i: usize = 0;
        while i < self.subcmds.len()
            invariant
                i <= self.subcmds@.len(),
            decreases self.subcmds@.len() - i,
        {
            c = shims::command_subcommand(c, self.subcmds[i].1.build_spec());
            i += 1;
        }
        c
    }

    /// Parse tokens against this command's argument specification; the first
    /// token is read as the binary name. No handler runs.
    pub fn parse_from(&self, tokens: &Vec<String>) -> (r: Result<Matches, Error>)
        requires
            self.distinct_labels(),
        ensures
            (match r {
                Err(e) => e matches Error::ArgParse(_),
                Ok(_) => true,
            }),
    {
        match shims::command_try_parse(&self.build_spec(), tokens) {
            Ok(am) => Ok(Matches::from_arg_matches(am)),
            Err(msg) => Err(Error::ArgParse(msg)),
        }
    }

    /// Parse the tokens and, on success, execute: a parse failure is
    /// surfaced as `ArgParse` without invoking any handler or touching the
    /// context.
    pub fn exec_from<Ctx>(&self, tokens: &Vec<String>, ctx: &mut Ctx) -> (r: Result<
        (),
        Error,
    >) where H: Handler<Ctx>
        requires
            self.distinct_labels(),
        ensures
            !(r matches Err(Error::Tokenize(_))),
            r matches Err(Error::ArgParse(_)) ==> *final(ctx) == *old(ctx),
            r matches Err(Error::UnknownSubcommand(_)) ==> *final(ctx) == *old(ctx),
    {
        match self.parse_from(tokens) {
            Err(e) => Err(e),
            Ok(m) => self.exec_with(&m, ctx),
        }
    }

    /// Render the completion script for `shell` from this command's argument
    /// specification. The script is never empty and references this command's
    /// own name, which is embedded as the binary name.
    pub fn completion_script(&self, shell: ShellKind) -> (r: String)
        requires
            self.distinct_labels(),
        ensures
            r@.len() > 0,
            shims::contains_run(r@, self.spec_name()),
    {
        proof {
            crate::shell::lemma_shell_name_supported(shell);
        }
        let cs = shims::parse_shell(shell.name()).unwrap();
        shims::generate_completions(cs, &self.build_spec(), self.name.as_str())
    }

    /// Install the completion generator: a child named `completions` with one
    /// required `shell` argument restricted to the five supported
    /// identifiers. Its handler renders a script from a snapshot of the
    /// argument specification taken now — before the completions leaf itself
    /// is attached, so the script never describes the generator — and writes
    /// it to standard output under this command's name.
    pub fn with_completions_subcmd(self) -> (r: Self)
        requires
            self.distinct_labels(),
        ensures
            r.spec_name() == self.spec_name(),
            r.spec_aliases() == self.spec_aliases(),
            r.spec_handler() == self.spec_handler(),
            r.child_map().dom() == self.child_map().dom().insert("completions"@),
            r.child_map()["completions"@].spec_name() == "completions"@,
            r.child_map()["completions"@].spec_handler() matches HandlerKind::Completions {
                bin_name,
                ..
            } && bin_name@ == self.spec_name(),
            forall|k: Seq<char>|
                k != "completions"@ && self.child_map().contains_key(k)
                    ==> #[trigger] r.child_map()[k] == self.child_map()[k],
    {
        let shells = ShellKind::all();
        let mut vals: Vec<String> = Vec::new();
        let mut i: usize = 0;
        while i < shells.len()
            invariant
                i <= shells@.len(),
                vals@.len() == i,
                forall|j: int| 0 <= j < i ==> (#[trigger] vals@[j])@ == shells@[j].spec_name(),
            decreases shells@.len() - i,
        {
            vals.push(shells[i].name().to_owned());
            i += 1;
        }
        proof {
            let lhs = vals@.map_values(|s: String| s@);
            let rhs = shells@.map_values(|k: ShellKind| k.spec_name());
            assert forall|j: int| 0 <= j < lhs.len() implies lhs[j] == rhs[j] by {
                assert(vals@[j]@ == shells@[j].spec_name());
            }
            assert(lhs =~= rhs);
        }
        let mut a = shims::arg_new("shell");
        a = shims::arg_required(a, true);
        a = shims::arg_possible_values(a, &vals);
        let sub0: Cmd<H> = Cmd::new("completions").about(
            "Generate completions for current shell. Add the output script to `.profile` or `.bashrc` etc. to make it effective.",
        ).arg(a);
        let snapshot = self.build_spec();
        let bin_name = self.name.clone();
        proof {
            use_type_invariant(&sub0);
        }
        let Cmd { cmd, name: sname, aliases, handler: _, subcmds } = sub0;
        let sub = Cmd {
            cmd,
            name: sname,
            aliases,
            handler: HandlerKind::Completions { snapshot, bin_name },
            subcmds,
        };
        let r = self.subcommand(sub);
        proof {
            assert(r.child_map().dom() =~= self.child_map().dom().insert("completions"@));
        }
        r
    }
}

} // verus!
