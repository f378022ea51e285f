//! The hygiene scope: the marks handed out to plugins, each of them once.

use vstd::prelude::*;

verus! {

/// `swc_common::Globals`: the state that marks are drawn from. Nothing of
/// what it holds is visible here.
#[verifier::external_type_specification]
#[verifier::external_body]
pub struct ExGlobals(swc_common::Globals);

/// `swc_common::Globals::new` makes a table of marks that holds the root
/// mark alone. Nothing is claimed of the value.
pub assume_specification[ swc_common::Globals::new ]() -> (globals: swc_common::Globals)
;

/// Calls `swc_common::Mark::new` with `globals` set as the ambient
/// `swc_common::GLOBALS`, and hands back the number of the mark it made.
/// Which number that is depends on what `globals` has handed out before, so
/// nothing is claimed of it.
#[verifier::external_body]
fn fresh_mark(globals: &swc_common::Globals) -> (raw: u32) {
    swc_common::GLOBALS.set(globals, swc_common::Mark::new).as_u32()
}

/// Calls `swc_common::GLOBALS.set`, which runs `work` once, on the calling
/// thread, with `globals` as the ambient hygiene state, and returns what
/// `work` returned.
#[verifier::external_body]
fn with_globals<R, F: FnOnce() -> R>(globals: &swc_common::Globals, work: F) -> (out: R)
    requires
        work.requires(()),
    ensures
        work.ensures((), out),
{
    swc_common::GLOBALS.set(globals, work)
}

/// The identity that a plugin's synthesized identifiers carry.
#[derive(Debug, Clone, Copy, PartialEq, Eq, Structural)]
pub struct Mark {
    raw: u32,
}

impl Mark {
    /// The number of this mark.
    pub closed spec fn id(self) -> u32 {
        self.raw
    }

    /// The number of this mark.
    pub fn as_u32(self) -> (raw: u32)
        ensures
            raw == self.id(),
    {
        self.raw
    }
}

/// Why no mark could be handed out.
#[derive(Debug, Clone, Copy, PartialEq, Eq, Structural)]
pub enum HygieneError {
    /// The mark in hand was handed out before: the space of marks is used up.
    Exhausted { raw: u32 },
}

/// The marks of one process and the state they are drawn from.
pub struct HygieneScope {
    globals: swc_common::Globals,
    issued: Vec<u32>,
}

/// No number occurs twice in `marks`.
pub open spec fn all_distinct(marks: Seq<u32>) -> bool {
    forall|i: int, j: int| 0 <= i < j < marks.len() ==> marks[i] != marks[j]
}

impl HygieneScope {
    /// The numbers of the marks handed out so far, oldest first.
    pub closed spec fn issued(&self) -> Seq<u32> {
        self.issued@
    }

    /// No mark was handed out twice.
    #[verifier::type_invariant]
    pub closed spec fn wf(&self) -> bool {
        all_distinct(self.issued@)
    }

    /// A scope that has handed out no mark yet.
    pub fn new() -> (scope: Self)
        ensures
            scope.issued() == Seq::<u32>::empty(),
    {
        HygieneScope { globals: swc_common::Globals::new(), issued: Vec::new() }
    }

    /// The numbers of the marks handed out so far, oldest first. No two of
    /// them are equal.
    pub fn issued_marks(&self) -> (marks: Vec<u32>)
        ensures
            marks@ == self.issued(),
            all_distinct(marks@),
    {
        proof {
            use_type_invariant(self);
        }
        self.issued.clone()
    }

    /// Whether the mark numbered `raw` was handed out by this scope.
    pub fn has_issued(&self, raw: u32) -> (found: bool)
        ensures
            found == self.issued().contains(raw),
    {
        let mut i: usize = 0;
        while i < self.issued.len()
            invariant
                i <= self.issued@.len(),
                forall|k: int| 0 <= k < i ==> self.issued@[k] != raw,
            decreases self.issued@.len() - i,
        {
            if self.issued[i] == raw {
                return true;
            }
            i = i + 1;
        }
        false
    }

    /// Enters the mark numbered `raw` as handed out, unless it was before.
    pub fn record_mark(&mut self, raw: u32) -> (out: Result<Mark, HygieneError>)
        ensures
            match out {
                Ok(mark) => !old(self).issued().contains(raw) && mark.id() == raw
                    && final(self).issued() == old(self).issued().push(raw),
                Err(HygieneError::Exhausted { raw: seen }) => old(self).issued().contains(raw)
                    && seen == raw && final(self).issued() == old(self).issued(),
            },
    {
        proof {
            use_type_invariant(&*self);
        }
        if self.has_issued(raw) {
            Err(HygieneError::Exhausted { raw })
        } else {
            // The list is replaced as a whole: its invariant is proved where
            // the new list is assigned.
            let mut issued = self.issued.clone();
            issued.push(raw);
            self.issued = issued;
            Ok(Mark { raw })
        }
    }

    /// Hands out a mark that this scope has not handed out before.
    pub fn new_scope(&mut self) -> (out: Result<Mark, HygieneError>)
        ensures
            match out {
                Ok(mark) => !old(self).issued().contains(mark.id())
                    && final(self).issued() == old(self).issued().push(mark.id()),
                Err(HygieneError::Exhausted { raw }) => old(self).issued().contains(raw)
                    && final(self).issued() == old(self).issued(),
            },
    {
        let raw = fresh_mark(&self.globals);
        self.record_mark(raw)
    }

    /// Runs `work` with this scope as the ambient hygiene state.
    pub fn run_under<R, F: FnOnce() -> R>(&self, work: F) -> (out: R)
        requires
            work.requires(()),
        ensures
            work.ensures((), out),
    {
        with_globals(&self.globals, work)
    }
}

/// A mark never comes twice: the mark that a scope hands out, when it has
/// handed out `later` so far, differs from every mark that is in `later`,
/// and so from a mark `first` that it handed out at an earlier time, when
/// it had handed out `earlier`.
pub proof fn lemma_marks_never_repeat(earlier: Seq<u32>, first: Mark, later: Seq<u32>, second: Mark)
    requires
        earlier.push(first.id()).is_prefix_of(later),
        !later.contains(second.id()),
    ensures
        first != second,
{
    let grown = earlier.push(first.id());
    assert(grown[earlier.len() as int] == first.id());
}

} // verus!
