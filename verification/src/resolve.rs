//! From copy patterns and what their globs matched to copy operations, and
//! which operation prevails where several write to one destination.

use crate::copy::{CopyPluginConfig, Pattern};
use vstd::prelude::*;

verus! {

/// One file that the glob of a pattern matched, and the path it is copied
/// to.
#[derive(Debug, Clone, PartialEq, Eq)]
pub struct GlobMatch {
    pub source: String,
    pub destination: String,
}

/// One copy that is to be performed.
#[derive(Debug, Clone, PartialEq, Eq)]
pub struct CopyOperation {
    /// The place of the pattern in its configuration, from zero.
    pub pattern: usize,
    pub source: String,
    pub destination: String,
    pub priority: i32,
    /// Whether the copy may overwrite what is at the destination.
    pub force: bool,
}

/// The operation that copies one match of the pattern at place `index`.
pub open spec fn operation_of(pattern: Pattern, index: usize, found: GlobMatch) -> CopyOperation {
    CopyOperation {
        pattern: index,
        source: found.source,
        destination: found.destination,
        priority: pattern.priority,
        force: pattern.force,
    }
}

/// The operations of the pattern at place `index`: one for each match, in
/// the order of the matches.
pub open spec fn operations_of(pattern: Pattern, index: usize, found: Seq<GlobMatch>) -> Seq<
    CopyOperation,
> {
    Seq::new(found.len(), |k: int| operation_of(pattern, index, found[k]))
}

/// The operations of all patterns, pattern by pattern in the order of
/// declaration. `found[k]` holds the matches of the pattern at place `k`; a
/// pattern without such an entry has no match, and an entry without a
/// pattern counts for nothing.
pub open spec fn declared_operations(patterns: Seq<Pattern>, found: Seq<Vec<GlobMatch>>) -> Seq<
    CopyOperation,
>
    decreases found.len(),
{
    if found.len() == 0 {
        Seq::empty()
    } else {
        let k = found.len() - 1;
        let rest = declared_operations(patterns, found.drop_last());
        if k < patterns.len() {
            rest + operations_of(patterns[k], k as usize, found.last()@)
        } else {
            rest
        }
    }
}

/// The directory that a pattern's glob is evaluated in: the one it names,
/// or else `default_base`.
pub open spec fn base_of(pattern: Pattern, default_base: Seq<char>) -> Seq<char> {
    match pattern.context {
        Some(context) => context@,
        None => default_base,
    }
}

impl Pattern {
    /// The directory that this pattern's glob is evaluated in.
    pub fn base_dir(&self, default_base: &String) -> (base: String)
        ensures
            base@ == base_of(*self, default_base@),
    {
        match &self.context {
            Some(context) => context.clone(),
            None => default_base.clone(),
        }
    }

    /// The operations of this pattern, declared at place `index`, for what
    /// its glob matched. A glob that matched nothing gives no operation,
    /// whatever the pattern says of missing files.
    pub fn operations(&self, index: usize, found: Vec<GlobMatch>) -> (ops: Vec<CopyOperation>)
        ensures
            ops@ == operations_of(*self, index, found@),
            found@.len() == 0 ==> ops@.len() == 0,
    {
        let ghost matches = found@;
        let mut ops: Vec<CopyOperation> = Vec::new();
        for one in it: found
            invariant
                it.seq() == matches,
                ops@ == operations_of(*self, index, matches.take(it.index())),
        {
            let GlobMatch { source, destination } = one;
            ops.push(
                CopyOperation {
                    pattern: index,
                    source,
                    destination,
                    priority: self.priority,
                    force: self.force,
                },
            );
        }
        ops
    }
}

impl CopyPluginConfig {
    /// The operations of this configuration for what the globs of its
    /// patterns matched, pattern by pattern in the order of declaration.
    pub fn operations(&self, found: Vec<Vec<GlobMatch>>) -> (ops: Vec<CopyOperation>)
        ensures
            ops@ == declared_operations(self.patterns@, found@),
    {
        let ghost lists = found@;
        let mut ops: Vec<CopyOperation> = Vec::new();
        let mut index: usize = 0;
        let count = found.len();
        for list in it: found
            invariant
                it.seq() == lists,
                lists.len() == count,
                index == it.index(),
                ops@ == declared_operations(self.patterns@, lists.take(it.index())),
        {
            proof {
                assert(lists.take(index + 1).drop_last() == lists.take(index as int));
            }
            if index < self.patterns.len() {
                let mut more = self.patterns[index].operations(index, list);
                ops.append(&mut more);
            }
            index = index + 1;
        }
        proof {
            assert(lists.take(lists.len() as int) == lists);
        }
        ops
    }
}

/// Operation `i` yields to operation `j`: where both write to one
/// destination, `j` prevails. The higher priority prevails; of equal
/// priorities the pattern declared later; of one pattern's operations the
/// later one.
pub open spec fn yields_to(ops: Seq<CopyOperation>, i: int, j: int) -> bool {
    let a = ops[i];
    let b = ops[j];
    a.priority < b.priority || (a.priority == b.priority && (a.pattern < b.pattern || (a.pattern
        == b.pattern && i < j)))
}

/// `winner` is the operation that prevails at `destination`: it writes
/// there, and every other operation that writes there yields to it. Where
/// no operation writes there, there is no winner.
pub open spec fn is_authoritative(
    ops: Seq<CopyOperation>,
    destination: Seq<char>,
    winner: Option<usize>,
) -> bool {
    match winner {
        Some(w) => w < ops.len() && ops[w as int].destination@ == destination && forall|j: int|
            0 <= j < ops.len() && j != w && ops[j].destination@ == destination ==> yields_to(
                ops,
                j,
                w as int,
            ),
        None => forall|j: int| 0 <= j < ops.len() ==> ops[j].destination@ != destination,
    }
}

/// `order` lists every operation of `ops` once, each after all that yield
/// to it.
pub open spec fn is_precedence_order(ops: Seq<CopyOperation>, order: Seq<usize>) -> bool {
    &&& order.len() == ops.len()
    &&& forall|a: int| 0 <= a < order.len() ==> order[a] < ops.len()
    &&& forall|a: int, b: int|
        0 <= a < b < order.len() ==> yields_to(ops, order[a] as int, order[b] as int)
}

/// Whether operation `i` yields to operation `j`.
fn yields(ops: &Vec<CopyOperation>, i: usize, j: usize) -> (answer: bool)
    requires
        i < ops@.len(),
        j < ops@.len(),
    ensures
        answer == yields_to(ops@, i as int, j as int),
{
    let a = &ops[i];
    let b = &ops[j];
    a.priority < b.priority || (a.priority == b.priority && (a.pattern < b.pattern || (a.pattern
        == b.pattern && i < j)))
}

/// The operation that prevails at `destination`.
pub fn authoritative(ops: &Vec<CopyOperation>, destination: &String) -> (winner: Option<usize>)
    ensures
        is_authoritative(ops@, destination@, winner),
{
    let mut winner: Option<usize> = None;
    let mut i: usize = 0;
    while i < ops.len()
        invariant
            i <= ops@.len(),
            is_authoritative(ops@.take(i as int), destination@, winner),
        decreases ops@.len() - i,
    {
        let ghost seen = ops@.take(i as int);
        let ghost next = ops@.take(i + 1);
        proof {
            assert forall|j: int| 0 <= j < i implies next[j] == seen[j] by {}
        }
        if ops[i].destination == *destination {
            let takes = match winner {
                Some(w) => yields(ops, w, i),
                None => true,
            };
            if takes {
                proof {
                    assert forall|j: int|
                        0 <= j < next.len() && j != i && next[j].destination@
                            == destination@ implies yields_to(next, j, i as int) by {
                        let w = winner->0 as int;
                        if j != w {
                            assert(yields_to(seen, j, w));
                        }
                    }
                }
                winner = Some(i);
            } else {
                proof {
                    let w = winner->0 as int;
                    assert forall|j: int|
                        0 <= j < next.len() && j != w && next[j].destination@
                            == destination@ implies yields_to(next, j, w) by {
                        if j < i {
                            assert(yields_to(seen, j, w));
                        }
                    }
                }
            }
        } else {
            proof {
                match winner {
                    Some(w) => {
                        assert forall|j: int|
                            0 <= j < next.len() && j != w && next[j].destination@
                                == destination@ implies yields_to(next, j, w as int) by {
                            assert(yields_to(seen, j, w as int));
                        }
                    },
                    None => {},
                }
            }
        }
        i = i + 1;
    }
    proof {
        assert(ops@.take(i as int) == ops@);
    }
    winner
}

/// The order in which to perform `ops` so that at every destination the
/// operation that prevails is performed last.
pub fn precedence_order(ops: &Vec<CopyOperation>) -> (order: Vec<usize>)
    ensures
        is_precedence_order(ops@, order@),
{
    let mut order: Vec<usize> = Vec::new();
    let mut i: usize = 0;
    while i < ops.len()
        invariant
            i <= ops@.len(),
            order@.len() == i,
            forall|a: int| 0 <= a < order@.len() ==> order@[a] < i,
            forall|a: int, b: int|
                0 <= a < b < order@.len() ==> yields_to(ops@, order@[a] as int, order@[b] as int),
        decreases ops@.len() - i,
    {
        let mut p: usize = 0;
        while p < order.len() && yields(ops, order[p], i)
            invariant
                i < ops@.len(),
                p <= order@.len(),
                order@.len() == i,
                forall|a: int| 0 <= a < order@.len() ==> order@[a] < i,
                forall|a: int| 0 <= a < p ==> yields_to(ops@, order@[a] as int, i as int),
            decreases order@.len() - p,
        {
            p = p + 1;
        }
        let ghost before = order@;
        order.insert(p, i);
        proof {
            let now = order@;
            assert forall|a: int| 0 <= a < now.len() implies now[a] < i + 1 by {}
            assert forall|a: int, b: int| 0 <= a < b < now.len() implies yields_to(
                ops@,
                now[a] as int,
                now[b] as int,
            ) by {
                if a == p && b - 1 > p {
                    assert(yields_to(ops@, before[p as int] as int, before[b - 1] as int));
                }
            }
        }
        i = i + 1;
    }
    order
}

/// Yielding is a strict total order on the operations: none yields to
/// itself, of two operations exactly one yields to the other, and what
/// yields to one that yields to a third yields to the third.
pub proof fn lemma_yielding_is_a_total_order(ops: Seq<CopyOperation>, i: int, j: int, k: int)
    ensures
        !yields_to(ops, i, i),
        i != j ==> (yields_to(ops, i, j) <==> !yields_to(ops, j, i)),
        yields_to(ops, i, j) && yields_to(ops, j, k) ==> yields_to(ops, i, k),
{
}

/// At most one operation prevails at a destination: whoever works it out,
/// and however often, gets the same answer.
pub proof fn lemma_authoritative_is_unique(
    ops: Seq<CopyOperation>,
    destination: Seq<char>,
    one: Option<usize>,
    other: Option<usize>,
)
    requires
        is_authoritative(ops, destination, one),
        is_authoritative(ops, destination, other),
    ensures
        one == other,
{
    match (one, other) {
        (Some(v), Some(w)) => {
            if v != w {
                assert(yields_to(ops, v as int, w as int));
                assert(yields_to(ops, w as int, v as int));
            }
        },
        _ => {},
    }
}

/// A tie goes to the pattern declared later: of two operations of equal
/// priority that write to one destination, the one of the earlier pattern
/// does not prevail there, and where no third operation writes there, the
/// one of the later pattern does.
pub proof fn lemma_tie_goes_to_the_later_pattern(
    ops: Seq<CopyOperation>,
    destination: Seq<char>,
    winner: Option<usize>,
    i: usize,
    j: usize,
)
    requires
        is_authoritative(ops, destination, winner),
        i < ops.len(),
        j < ops.len(),
        ops[i as int].destination@ == destination,
        ops[j as int].destination@ == destination,
        ops[i as int].priority == ops[j as int].priority,
        ops[i as int].pattern < ops[j as int].pattern,
    ensures
        winner is Some,
        winner != Some(i),
        (forall|k: int|
            0 <= k < ops.len() && ops[k].destination@ == destination ==> k == i || k == j)
            ==> winner == Some(j),
{
    if winner == Some(i) {
        assert(yields_to(ops, j as int, i as int));
    }
}

/// In the order of precedence, the operation that prevails at a destination
/// is the last that writes there.
pub proof fn lemma_authoritative_comes_last(
    ops: Seq<CopyOperation>,
    order: Seq<usize>,
    destination: Seq<char>,
    winner: usize,
    a: int,
    b: int,
)
    requires
        is_precedence_order(ops, order),
        is_authoritative(ops, destination, Some(winner)),
        0 <= a < b < order.len(),
        order[a] == winner,
    ensures
        ops[order[b] as int].destination@ != destination,
{
    let later = order[b] as int;
    assert(yields_to(ops, winner as int, later));
    if ops[later].destination@ == destination {
        assert(yields_to(ops, later, winner as int));
    }
}

/// A pattern whose glob matched nothing has no operation, whatever it says
/// of missing files, of overwriting and of its priority.
pub proof fn lemma_no_match_no_operation(pattern: Pattern, index: usize)
    ensures
        operations_of(pattern, index, Seq::<GlobMatch>::empty()) == Seq::<CopyOperation>::empty(),
{
    assert(operations_of(pattern, index, Seq::<GlobMatch>::empty()) =~= Seq::<
        CopyOperation,
    >::empty());
}

/// Every operation of a configuration stems from a match of a pattern: it
/// names a pattern whose glob matched something, and carries that
/// pattern's priority and overwrite flag. The operations of a pattern
/// declared later come later.
pub proof fn lemma_operations_stem_from_matches(patterns: Seq<Pattern>, found: Seq<Vec<GlobMatch>>)
    requires
        found.len() <= usize::MAX,
    ensures
        forall|a: int|
            0 <= a < declared_operations(patterns, found).len() ==> {
                let op = #[trigger] declared_operations(patterns, found)[a];
                &&& op.pattern < patterns.len()
                &&& op.pattern < found.len()
                &&& found[op.pattern as int]@.len() > 0
                &&& op.priority == patterns[op.pattern as int].priority
                &&& op.force == patterns[op.pattern as int].force
            },
        forall|a: int, b: int|
            0 <= a < b < declared_operations(patterns, found).len() ==> declared_operations(
                patterns,
                found,
            )[a].pattern <= declared_operations(patterns, found)[b].pattern,
    decreases found.len(),
{
    if found.len() > 0 {
        let k = found.len() - 1;
        let front = found.drop_last();
        let rest = declared_operations(patterns, front);
        let all = declared_operations(patterns, found);
        lemma_operations_stem_from_matches(patterns, front);
        assert forall|a: int| 0 <= a < rest.len() implies found[rest[a].pattern as int]
            == front[rest[a].pattern as int] by {}
        assert forall|a: int| 0 <= a < all.len() implies {
            let op = #[trigger] all[a];
            &&& op.pattern < patterns.len()
            &&& op.pattern < found.len()
            &&& found[op.pattern as int]@.len() > 0
            &&& op.priority == patterns[op.pattern as int].priority
            &&& op.force == patterns[op.pattern as int].force
        } by {
            if a >= rest.len() {
                assert(all[a] == operations_of(patterns[k], k as usize, found.last()@)[a
                    - rest.len()]);
            }
        }
        assert forall|a: int, b: int| 0 <= a < b < all.len() implies all[a].pattern
            <= all[b].pattern by {
            if b >= rest.len() {
                assert(all[b] == operations_of(patterns[k], k as usize, found.last()@)[b
                    - rest.len()]);
                if a >= rest.len() {
                    assert(all[a] == operations_of(patterns[k], k as usize, found.last()@)[a
                        - rest.len()]);
                }
            }
        }
    }
}

} // verus!
