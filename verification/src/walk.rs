use vstd::prelude::*;
use crate::counters::Event;
use crate::counters::is_error_event;
use crate::counters::files_in;
use crate::counters::dirs_in;
use crate::counters::errors_in;

verus! {

/// One filesystem subtree, as the traversal sees it: a regular file, or a
/// directory with its children. Anything else the traversal reports as
/// unsupported and never descends into, so it has no place in the
/// removable shape.
pub enum Node {
    File,
    Dir(Vec<Node>),
}

/// One removal attempt of the traversal: a regular file, or a directory
/// (attempted only after all of its contents).
#[derive(Clone, Copy, PartialEq, Eq, Structural, Debug)]
pub enum Step {
    File,
    Dir,
}

/// The contents-first order over one subtree: every descendant's attempt
/// comes before the subtree root's own attempt, which comes last.
pub open spec fn post_order(t: Node) -> Seq<Step>
    decreases t,
{
    match t {
        Node::File => seq![Step::File],
        Node::Dir(cs) => forest_post_order(cs@) + seq![Step::Dir],
    }
}

/// The contents-first order over a row of sibling subtrees, left to right.
pub open spec fn forest_post_order(cs: Seq<Node>) -> Seq<Step>
    decreases cs,
{
    if cs.len() == 0 {
        Seq::empty()
    } else {
        post_order(cs[0]) + forest_post_order(cs.drop_first())
    }
}

/// How many regular files a subtree holds.
pub open spec fn count_files(t: Node) -> int
    decreases t,
{
    match t {
        Node::File => 1,
        Node::Dir(cs) => forest_count_files(cs@),
    }
}

/// How many regular files a row of sibling subtrees holds.
pub open spec fn forest_count_files(cs: Seq<Node>) -> int
    decreases cs,
{
    if cs.len() == 0 {
        0
    } else {
        count_files(cs[0]) + forest_count_files(cs.drop_first())
    }
}

/// How many directories a subtree holds, the subtree root included when it
/// is one.
pub open spec fn count_dirs(t: Node) -> int
    decreases t,
{
    match t {
        Node::File => 0,
        Node::Dir(cs) => forest_count_dirs(cs@) + 1,
    }
}

/// How many directories a row of sibling subtrees holds.
pub open spec fn forest_count_dirs(cs: Seq<Node>) -> int
    decreases cs,
{
    if cs.len() == 0 {
        0
    } else {
        count_dirs(cs[0]) + forest_count_dirs(cs.drop_first())
    }
}

/// The event one attempt yields, given whether the removal succeeded.
pub open spec fn event_of(s: Step, ok: bool) -> Event {
    match s {
        Step::File => if ok {
            Event::FileDeleted
        } else {
            Event::FileRemovalFailed
        },
        Step::Dir => if ok {
            Event::DirDeleted
        } else {
            Event::DirRemovalFailed
        },
    }
}

/// The events of a whole walk: attempt by attempt, each paired with its
/// outcome.
pub open spec fn events_of(steps: Seq<Step>, oks: Seq<bool>) -> Seq<Event> {
    Seq::new(steps.len(), |i: int| event_of(steps[i], oks[i]))
}

/// Lays out the removal attempts for one subtree in contents-first order:
/// the returned plan is exactly the subtree's post-order listing.
pub fn removal_plan(t: &Node) -> (plan: Vec<Step>)
    ensures
        plan@ == post_order(*t),
{
    let mut plan: Vec<Step> = Vec::new();
    push_plan(t, &mut plan);
    proof {
        assert(Seq::<Step>::empty() + post_order(*t) =~= post_order(*t));
    }
    plan
}

fn push_plan(t: &Node, plan: &mut Vec<Step>)
    ensures
        final(plan)@ == old(plan)@ + post_order(*t),
    decreases *t,
{
    match t {
        Node::File => {
            plan.push(Step::File);
            proof {
                assert(old(plan)@.push(Step::File) =~= old(plan)@ + post_order(*t));
            }
        },
        Node::Dir(cs) => {
            let ghost plan0 = plan@;
            let mut i: usize = 0;
            while i < cs.len()
                invariant
                    0 <= i <= cs@.len(),
                    t is Dir,
                    t->Dir_0@ == cs@,
                    plan@ == plan0 + forest_post_order(cs@.take(i as int)),
                decreases cs@.len() - i,
            {
                proof {
                    assert(decreases_to!(*t => t->Dir_0));
                    assert(decreases_to!(t->Dir_0 => t->Dir_0@));
                    assert(decreases_to!(cs@ => cs@[i as int]));
                }
                push_plan(&cs[i], plan);
                proof {
                    lemma_forest_snoc(cs@, i as int);
                }
                i = i + 1;
            }
            plan.push(Step::Dir);
            proof {
                assert(cs@.take(cs@.len() as int) =~= cs@);
                assert((plan0 + forest_post_order(cs@)).push(Step::Dir) =~= plan0 + post_order(
                    *t,
                ));
            }
        },
    }
}

proof fn lemma_forest_snoc(cs: Seq<Node>, i: int)
    requires
        0 <= i < cs.len(),
    ensures
        forest_post_order(cs.take(i + 1)) == forest_post_order(cs.take(i)) + post_order(cs[i]),
    decreases i,
{
    if i == 0 {
        assert(cs.take(0) =~= Seq::<Node>::empty());
        assert(cs.take(1).drop_first() =~= Seq::<Node>::empty());
        assert(cs.take(1)[0] == cs[0]);
        assert(post_order(cs[0]) + Seq::<Step>::empty() =~= post_order(cs[0]));
        assert(Seq::<Step>::empty() + post_order(cs[0]) =~= post_order(cs[0]));
    } else {
        lemma_forest_snoc(cs.drop_first(), i - 1);
        assert(cs.drop_first().take(i) =~= cs.take(i + 1).drop_first());
        assert(cs.drop_first().take(i - 1) =~= cs.take(i).drop_first());
        assert(cs.take(i + 1)[0] == cs[0]);
        assert(cs.take(i)[0] == cs[0]);
        assert(cs.drop_first()[i - 1] == cs[i]);
        assert(post_order(cs[0]) + (forest_post_order(cs.take(i).drop_first()) + post_order(cs[i]))
            =~= (post_order(cs[0]) + forest_post_order(cs.take(i).drop_first())) + post_order(
            cs[i],
        ));
    }
}

/// Pairs a plan's attempts with their outcomes: entry `k` of the result is
/// the event of attempt `k` under outcome `k`.
pub fn run_events(plan: &Vec<Step>, oks: &Vec<bool>) -> (events: Vec<Event>)
    requires
        oks@.len() == plan@.len(),
    ensures
        events@ == events_of(plan@, oks@),
{
    let mut events: Vec<Event> = Vec::new();
    let mut i: usize = 0;
    while i < plan.len()
        invariant
            0 <= i <= plan@.len(),
            oks@.len() == plan@.len(),
            events@ =~= events_of(plan@, oks@).take(i as int),
        decreases plan@.len() - i,
    {
        let e = match plan[i] {
            Step::File => if oks[i] {
                Event::FileDeleted
            } else {
                Event::FileRemovalFailed
            },
            Step::Dir => if oks[i] {
                Event::DirDeleted
            } else {
                Event::DirRemovalFailed
            },
        };
        events.push(e);
        i = i + 1;
    }
    proof {
        assert(events_of(plan@, oks@).take(plan@.len() as int) =~= events_of(plan@, oks@));
    }
    events
}

/// How many attempts of a walk are file removals.
pub open spec fn file_steps(s: Seq<Step>) -> int
    decreases s.len(),
{
    if s.len() == 0 {
        0
    } else {
        file_steps(s.drop_last()) + (if s.last() is File { 1int } else { 0int })
    }
}

/// How many attempts of a walk are directory removals.
pub open spec fn dir_steps(s: Seq<Step>) -> int
    decreases s.len(),
{
    if s.len() == 0 {
        0
    } else {
        dir_steps(s.drop_last()) + (if s.last() is Dir { 1int } else { 0int })
    }
}

proof fn lemma_step_counts_singleton(s: Step)
    ensures
        file_steps(seq![s]) == (if s is File { 1int } else { 0int }),
        dir_steps(seq![s]) == (if s is Dir { 1int } else { 0int }),
{
    reveal_with_fuel(file_steps, 2);
    reveal_with_fuel(dir_steps, 2);
    assert(seq![s].drop_last() =~= Seq::<Step>::empty());
}

proof fn lemma_step_counts_concat(a: Seq<Step>, b: Seq<Step>)
    ensures
        file_steps(a + b) == file_steps(a) + file_steps(b),
        dir_steps(a + b) == dir_steps(a) + dir_steps(b),
    decreases b.len(),
{
    if b.len() == 0 {
        assert(a + b =~= a);
    } else {
        lemma_step_counts_concat(a, b.drop_last());
        assert((a + b).drop_last() =~= a + b.drop_last());
        assert((a + b).last() == b.last());
    }
}

/// The walk of a subtree attempts exactly its files and its directories.
pub proof fn lemma_post_order_counts(t: Node)
    ensures
        file_steps(post_order(t)) == count_files(t),
        dir_steps(post_order(t)) == count_dirs(t),
    decreases t,
{
    match t {
        Node::File => {
            lemma_step_counts_singleton(Step::File);
        },
        Node::Dir(cs) => {
            lemma_forest_post_order_counts(cs@);
            lemma_step_counts_concat(forest_post_order(cs@), seq![Step::Dir]);
            lemma_step_counts_singleton(Step::Dir);
        },
    }
}

proof fn lemma_forest_post_order_counts(cs: Seq<Node>)
    ensures
        file_steps(forest_post_order(cs)) == forest_count_files(cs),
        dir_steps(forest_post_order(cs)) == forest_count_dirs(cs),
    decreases cs,
{
    if cs.len() > 0 {
        lemma_post_order_counts(cs[0]);
        lemma_forest_post_order_counts(cs.drop_first());
        lemma_step_counts_concat(post_order(cs[0]), forest_post_order(cs.drop_first()));
    }
}

proof fn lemma_success_run_events(steps: Seq<Step>, oks: Seq<bool>)
    requires
        oks.len() == steps.len(),
        forall|k: int| 0 <= k < oks.len() ==> oks[k],
    ensures
        files_in(events_of(steps, oks)) == file_steps(steps),
        dirs_in(events_of(steps, oks)) == dir_steps(steps),
        errors_in(events_of(steps, oks)) == 0,
    decreases steps.len(),
{
    if steps.len() > 0 {
        lemma_success_run_events(steps.drop_last(), oks.drop_last());
        assert(events_of(steps, oks).drop_last() =~= events_of(steps.drop_last(), oks.drop_last()));
        assert(events_of(steps, oks).last() == event_of(steps.last(), oks[steps.len() - 1]));
    }
}

/// Deleting a fully removable tree: when every attempt of the walk
/// succeeds, the run's events count exactly the tree's files as deleted
/// files, its directories (the root included) as deleted directories, and
/// no error.
pub proof fn lemma_removable_tree_counts(t: Node, oks: Seq<bool>)
    requires
        oks.len() == post_order(t).len(),
        forall|k: int| 0 <= k < oks.len() ==> oks[k],
    ensures
        files_in(events_of(post_order(t), oks)) == count_files(t),
        dirs_in(events_of(post_order(t), oks)) == count_dirs(t),
        errors_in(events_of(post_order(t), oks)) == 0,
{
    lemma_post_order_counts(t);
    lemma_success_run_events(post_order(t), oks);
}

/// Where the walk of child `j` begins inside the walk of its row of
/// siblings: after the whole walks of the children to its left.
pub open spec fn child_offset(cs: Seq<Node>, j: int) -> int {
    forest_post_order(cs.take(j)).len() as int
}

proof fn lemma_forest_split(cs: Seq<Node>, j: int)
    requires
        0 <= j < cs.len(),
    ensures
        forest_post_order(cs) == forest_post_order(cs.take(j)) + post_order(cs[j])
            + forest_post_order(cs.skip(j + 1)),
    decreases j,
{
    if j == 0 {
        assert(cs.take(0) =~= Seq::<Node>::empty());
        assert(cs.skip(1) =~= cs.drop_first());
        assert(forest_post_order(cs.take(0)) + post_order(cs[0]) + forest_post_order(cs.skip(1))
            =~= post_order(cs[0]) + forest_post_order(cs.drop_first()));
    } else {
        let df = cs.drop_first();
        lemma_forest_split(df, j - 1);
        assert(df.take(j - 1) =~= cs.take(j).drop_first());
        assert(df.skip(j) =~= cs.skip(j + 1));
        assert(df[j - 1] == cs[j]);
        assert(cs.take(j)[0] == cs[0]);
        assert(forest_post_order(cs) =~= forest_post_order(cs.take(j)) + post_order(cs[j])
            + forest_post_order(cs.skip(j + 1)));
    }
}

/// Contents-first order: within the walk of a directory, the whole walk of
/// any one child — the child's own attempt included — lies strictly before
/// the directory's own attempt, which comes last.
pub proof fn lemma_contents_first(t: Node, j: int)
    requires
        t is Dir,
        0 <= j < t->Dir_0@.len(),
    ensures
        post_order(t).len() >= 1,
        post_order(t).last() == Step::Dir,
        0 <= child_offset(t->Dir_0@, j),
        child_offset(t->Dir_0@, j) + post_order(t->Dir_0@[j]).len() < post_order(t).len(),
        post_order(t).subrange(
            child_offset(t->Dir_0@, j),
            child_offset(t->Dir_0@, j) + post_order(t->Dir_0@[j]).len(),
        ) == post_order(t->Dir_0@[j]),
{
    let cs = t->Dir_0@;
    lemma_forest_split(cs, j);
    let parent = post_order(t);
    let off = child_offset(cs, j);
    assert(parent.subrange(off, off + post_order(cs[j]).len()) =~= post_order(cs[j]));
}

proof fn lemma_errors_nonneg(evs: Seq<Event>)
    ensures
        errors_in(evs) >= 0,
    decreases evs.len(),
{
    if evs.len() > 0 {
        lemma_errors_nonneg(evs.drop_last());
    }
}

proof fn lemma_one_error_witness(evs: Seq<Event>, i: int)
    requires
        0 <= i < evs.len(),
        is_error_event(evs[i]),
    ensures
        errors_in(evs) >= 1,
    decreases evs.len(),
{
    lemma_errors_nonneg(evs.drop_last());
    if i < evs.len() - 1 {
        lemma_one_error_witness(evs.drop_last(), i);
    }
}

proof fn lemma_two_error_witnesses(evs: Seq<Event>, i: int, j: int)
    requires
        0 <= i < j < evs.len(),
        is_error_event(evs[i]),
        is_error_event(evs[j]),
    ensures
        errors_in(evs) >= 2,
    decreases evs.len(),
{
    if j == evs.len() - 1 {
        lemma_one_error_witness(evs.drop_last(), i);
    } else {
        lemma_two_error_witnesses(evs.drop_last(), i, j);
    }
}

/// A failed attempt inside a directory blocks the directory itself. The
/// filesystem grants the directory's own removal only when everything
/// inside it was removed; under that reading of the outcomes, one failure
/// inside the walk makes at least two errors in the run — the inner
/// failure's, and the directory's own.
pub proof fn lemma_failed_child_blocks_parent(t: Node, oks: Seq<bool>, i: int)
    requires
        t is Dir,
        oks.len() == post_order(t).len(),
        0 <= i < oks.len() - 1,
        !oks[i],
        oks[oks.len() - 1] ==> (forall|k: int| 0 <= k < oks.len() ==> oks[k]),
    ensures
        errors_in(events_of(post_order(t), oks)) >= 2,
{
    let steps = post_order(t);
    let evs = events_of(steps, oks);
    assert(!oks[oks.len() - 1]);
    assert(is_error_event(evs[i]));
    assert(is_error_event(evs[oks.len() - 1]));
    lemma_two_error_witnesses(evs, i, oks.len() - 1);
}

} // verus!
