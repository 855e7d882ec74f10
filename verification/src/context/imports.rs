//! The imports in progress: which modules are being loaded, so that a
//! chain of imports that leads back into itself is refused and never
//! followed again.

use crate::context::global::GlobalContext;
use crate::context::ModuleRef;
use vstd::prelude::*;

verus! {

/// Why a module cannot be imported.
#[derive(Clone, Copy, Debug, PartialEq, Eq, Structural)]
pub enum ImportError {
    /// The module is being loaded already: the import that asks for it
    /// stands, directly or through other modules, in the module itself.
    /// `depth` says how many loads were begun before that of the module.
    CyclicImport { depth: usize },
}

/// What is to be done about an import.
#[derive(Clone, Copy, Debug, PartialEq, Eq, Structural)]
pub enum ImportStep {
    /// The module is registered at this place: nothing is to be done.
    Known(usize),
    /// The module is to be read, and its own imports followed.
    Load,
}

/// The first place at which `path` stands among the first `n` keys.
pub open spec fn first_place(keys: Seq<Seq<char>>, path: Seq<char>, n: int) -> Option<int>
    decreases n,
{
    if n <= 0 || n > keys.len() {
        None
    } else {
        match first_place(keys, path, n - 1) {
            Some(i) => Some(i),
            None => if keys[n - 1] == path {
                Some(n - 1)
            } else {
                None
            },
        }
    }
}

/// A key has a first place exactly when it is among the keys.
pub proof fn lemma_first_place(keys: Seq<Seq<char>>, path: Seq<char>, n: int)
    requires
        0 <= n <= keys.len(),
    ensures
        match first_place(keys, path, n) {
            Some(i) => 0 <= i < n && keys[i] == path,
            None => forall|k: int| 0 <= k < n ==> keys[k] != path,
        },
    decreases n,
{
    if n > 0 {
        lemma_first_place(keys, path, n - 1);
    }
}

/// The modules that are being loaded, the outermost first.
pub struct LoadStack {
    loading: Vec<ModuleRef>,
}

impl View for LoadStack {
    type V = Seq<Seq<char>>;

    closed spec fn view(&self) -> Seq<Seq<char>> {
        Seq::new(self.loading@.len(), |i: int| self.loading@[i]@)
    }
}

impl LoadStack {
    /// No module is being loaded twice.
    pub open spec fn wf(&self) -> bool {
        forall|i: int, j: int| 0 <= i < j < self@.len() ==> self@[i] != self@[j]
    }

    /// Nothing is being loaded.
    pub fn new() -> (stack: Self)
        ensures
            stack.wf(),
            stack@.len() == 0,
    {
        LoadStack { loading: Vec::new() }
    }

    /// How many loads are in progress.
    pub fn depth(&self) -> (n: usize)
        ensures
            n == self@.len(),
    {
        self.loading.len()
    }

    /// The place of the module among the loads in progress.
    pub fn place_of(&self, path: &ModuleRef) -> (place: Option<usize>)
        ensures
            match place {
                Some(i) => first_place(self@, path@, self@.len() as int) == Some(i as int) && i
                    < self@.len() && self@[i as int] == path@,
                None => first_place(self@, path@, self@.len() as int).is_none() && !self@.contains(
                    path@,
                ),
            },
    {
        let mut i: usize = 0;
        while i < self.loading.len()
            invariant
                i <= self@.len(),
                self@.len() == self.loading@.len(),
                first_place(self@, path@, i as int).is_none(),
            decreases self@.len() - i,
        {
            if self.loading[i].same_as(path) {
                proof {
                    assert(self@[i as int] == path@);
                    assert(first_place(self@, path@, i as int + 1) == Some(i as int));
                    lemma_first_place_stays(self@, path@, i as int + 1, self@.len() as int);
                }
                return Some(i);
            }
            i += 1;
        }
        proof {
            lemma_first_place(self@, path@, self@.len() as int);
        }
        None
    }

    /// Begins the load of a module. A module that is being loaded already
    /// is refused, and the loads in progress stay as they are; any other
    /// module becomes the innermost load.
    pub fn begin(&mut self, path: ModuleRef) -> (result: Result<(), ImportError>)
        requires
            old(self).wf(),
        ensures
            final(self).wf(),
            match first_place(old(self)@, path@, old(self)@.len() as int) {
                Some(i) => result == Err::<(), ImportError>(
                    ImportError::CyclicImport { depth: i as usize },
                ) && final(self)@ == old(self)@,
                None => result.is_ok() && final(self)@ == old(self)@.push(path@),
            },
    {
        match self.place_of(&path) {
            Some(depth) => Err(ImportError::CyclicImport { depth }),
            None => {
                self.loading.push(path);
                assert(self@ =~= old(self)@.push(path@));
                Ok(())
            },
        }
    }

    /// Ends the innermost load and gives the key of its module; `None`
    /// where nothing is being loaded.
    pub fn finish(&mut self) -> (done: Option<ModuleRef>)
        requires
            old(self).wf(),
        ensures
            final(self).wf(),
            match done {
                Some(path) => old(self)@.len() > 0 && path@ == old(self)@.last() && final(self)@
                    == old(self)@.drop_last(),
                None => old(self)@.len() == 0 && final(self)@ == old(self)@,
            },
    {
        let done = self.loading.pop();
        proof {
            if done.is_some() {
                assert(self@ =~= old(self)@.drop_last());
            } else {
                assert(self@ =~= old(self)@);
            }
        }
        done
    }
}

proof fn lemma_first_place_stays(keys: Seq<Seq<char>>, path: Seq<char>, at: int, n: int)
    requires
        0 <= at <= n <= keys.len(),
        first_place(keys, path, at).is_some(),
    ensures
        first_place(keys, path, n) == first_place(keys, path, at),
    decreases n - at,
{
    if at < n {
        lemma_first_place_stays(keys, path, at, n - 1);
    }
}

/// As long as no module is loaded twice at once, the loads in progress are
/// no more than the modules there are: where every load in progress is of
/// one of `known` modules, the depth is at most their number. So a chain of
/// imports cannot go on for ever.
pub proof fn lemma_depth_bounded(stack: Seq<Seq<char>>, known: Set<Seq<char>>)
    requires
        forall|i: int, j: int| 0 <= i < j < stack.len() ==> stack[i] != stack[j],
        forall|i: int| 0 <= i < stack.len() ==> known.contains(#[trigger] stack[i]),
        known.finite(),
    ensures
        stack.len() <= known.len(),
    decreases stack.len(),
{
    if stack.len() > 0 {
        let last = stack.last();
        let rest = stack.drop_last();
        assert forall|i: int| 0 <= i < rest.len() implies known.remove(last).contains(
            #[trigger] rest[i],
        ) by {
            assert(stack[i] != stack[stack.len() - 1]);
            assert(known.contains(stack[i]));
        }
        lemma_depth_bounded(rest, known.remove(last));
        assert(known.contains(stack[stack.len() - 1]));
    }
}

impl GlobalContext {
    /// Decides what an import of the module with the key `path` leads to,
    /// given the loads in progress: a module that is being loaded is
    /// refused as a circular import; a module that is registered is known
    /// and not read again; every other module is to be loaded.
    pub fn import_step(&self, loading: &LoadStack, path: &ModuleRef) -> (step: Result<
        ImportStep,
        ImportError,
    >)
        ensures
            step == match first_place(loading@, path@, loading@.len() as int) {
                Some(depth) => Err::<ImportStep, ImportError>(
                    ImportError::CyclicImport { depth: depth as usize },
                ),
                None => match Self::registered_at(self.modules@, path@, 0) {
                    Some(i) => Ok::<ImportStep, ImportError>(ImportStep::Known(i as usize)),
                    None => Ok::<ImportStep, ImportError>(ImportStep::Load),
                },
            },
    {
        match loading.place_of(path) {
            Some(depth) => Err(ImportError::CyclicImport { depth }),
            None => match self.module_index(path) {
                Some(i) => Ok(ImportStep::Known(i)),
                None => Ok(ImportStep::Load),
            },
        }
    }
}

} // verus!
