use vstd::prelude::*;
use crate::shims;

verus! {

/// The structured result of parsing tokens against a command's argument
/// specification and those of its ancestors.
///
/// Beyond the raw match data, the dispatch engine reads two things of it:
/// which child (if any) the caller selected, and the sub-matches scoped to
/// that child. `path` abstracts exactly that: the chain of selected names.
pub struct Matches {
    pub(crate) inner: clap::ArgMatches,
    pub(crate) sel: Option<(String, Box<Matches>)>,
}

impl Matches {
    /// The chain of selected child names, outermost first.
    pub closed spec fn path(&self) -> Seq<Seq<char>>
        decreases self,
    {
        match self.sel {
            Option::None => Seq::empty(),
            Option::Some((n, b)) => seq![n@] + b.path(),
        }
    }

    /// Match data selecting no child.
    pub fn empty() -> (r: Matches)
        ensures
            r.path() == Seq::<Seq<char>>::empty(),
    {
        Matches { inner: shims::empty_arg_matches(), sel: None }
    }

    /// Match data that selects the child `name` and scopes `sub` to it.
    pub fn selecting(name: String, sub: Matches) -> (r: Matches)
        ensures
            r.path() == seq![name@] + sub.path(),
    {
        Matches { inner: shims::empty_arg_matches(), sel: Some((name, Box::new(sub))) }
    }

    /// The selected child's name and the sub-matches scoped to it, if a child
    /// was selected.
    pub fn subcommand(&self) -> (r: Option<(&String, &Matches)>)
        ensures
            match r {
                Some(p) => {
                    &&& self.path().len() > 0
                    &&& p.0@ == self.path()[0]
                    &&& p.1.path() == self.path().drop_first()
                },
                None => self.path().len() == 0,
            },
    {
        match &self.sel {
            Some((n, b)) => {
                proof {
                    assert((seq![n@] + b.path()).drop_first() =~= b.path());
                }
                Some((n, &**b))
            },
            None => None,
        }
    }

    /// The raw match data at this level, for handlers that read their own
    /// arguments.
    pub fn arg_matches(&self) -> &clap::ArgMatches {
        &self.inner
    }

    /// Rebuild the selection chain from the argument parser's match data.
    pub(crate) fn from_arg_matches(m: clap::ArgMatches) -> (r: Matches) {
        let (names, levels, innermost) = shims::subcommand_chain(m);
        Self::from_levels(names, levels, innermost)
    }

    /// Fold the per-level selections back into a chain whose path is exactly
    /// the selected names, outermost first.
    fn from_levels(
        names: Vec<String>,
        levels: Vec<clap::ArgMatches>,
        innermost: clap::ArgMatches,
    ) -> (r: Matches)
        requires
            names@.len() == levels@.len(),
        ensures
            r.path() == names@.map_values(|s: String| s@),
    {
        let ghost all = names@.map_values(|s: String| s@);
        let mut names = names;
        let mut levels = levels;
        let mut acc = Matches { inner: innermost, sel: None };
        proof {
            assert(acc.path() =~= all.skip(names@.len() as int));
        }
        while names.len() > 0
            invariant
                names@.len() == levels@.len(),
                names@.len() <= all.len(),
                names@.map_values(|s: String| s@) == all.take(names@.len() as int),
                acc.path() == all.skip(names@.len() as int),
            decreases names@.len(),
        {
            let ghost k = names@.len() as int;
            let n = names.pop().unwrap();
            let lv = levels.pop().unwrap();
            proof {
                assert(n@ == all.take(k)[k - 1]);
                assert(all.take(k)[k - 1] == all[k - 1]);
                assert(names@.map_values(|s: String| s@) =~= all.take(k - 1));
            }
            acc = Matches { inner: lv, sel: Some((n, Box::new(acc))) };
            proof {
                assert(acc.path() =~= all.skip(k - 1));
            }
        }
        proof {
            assert(all.take(0) =~= Seq::<Seq<char>>::empty());
            assert(acc.path() =~= all);
        }
        acc
    }
}

} // verus!
