//! The deletion plan: which branches go, in which scope, in which order.

use vstd::prelude::*;

use crate::branch::{BranchView, Scope};
use crate::classify::{Classification, Classified, ClassifiedView};
use crate::options::{DeleteMode, Options, OptionsView};
use crate::text::{
    holds_name, lemma_name_order_connected, lemma_precedes_irreflexive,
    lemma_precedes_transitive, name_before, name_precedes, same_name,
};
use vstd::utf8::encode_utf8;

verus! {

/// One planned deletion: a branch name and the scope to delete it in.
#[derive(Debug, Clone, PartialEq, Eq)]
pub struct PlanEntry {
    pub name: String,
    pub scope: Scope,
}

/// A planned deletion as specifications see it.
pub struct Target {
    pub name: Seq<char>,
    pub scope: Scope,
}

impl View for PlanEntry {
    type V = Target;

    open spec fn view(&self) -> Target {
        Target { name: self.name@, scope: self.scope }
    }
}

impl DeepView for PlanEntry {
    type V = Target;

    open spec fn deep_view(&self) -> Target {
        self@
    }
}

impl PlanEntry {
    /// A copy of this entry.
    pub fn duplicate(&self) -> (copy: PlanEntry)
        ensures
            copy@ == self@,
    {
        PlanEntry { name: self.name.clone(), scope: self.scope }
    }
}

/// The order of a plan: by name, and for one name the local deletion before
/// the remote one.
pub open spec fn target_before(a: Target, b: Target) -> bool {
    name_before(a.name, b.name) || (a.name == b.name && a.scope == Scope::Local && b.scope
        == Scope::Remote)
}

/// A sequence of targets that rises strictly in the order of a plan. Such a
/// sequence holds no target twice.
pub open spec fn ordered(plan: Seq<Target>) -> bool {
    forall|i: int, j: int|
        0 <= i < j < plan.len() ==> target_before(#[trigger] plan[i], #[trigger] plan[j])
}

/// Branches of this classification are deleted.
pub open spec fn deletable(class: Classification, delete_unpushed: bool) -> bool {
    match class {
        Classification::Merged => true,
        Classification::Squashed => true,
        Classification::Unpushed => delete_unpushed,
        Classification::Active => false,
    }
}

/// The delete mode lets branches of this scope be deleted.
pub open spec fn in_scope(mode: DeleteMode, scope: Scope) -> bool {
    match mode {
        DeleteMode::Local => scope == Scope::Local,
        DeleteMode::Remote => scope == Scope::Remote,
        DeleteMode::Both => true,
    }
}

/// The branch goes into the plan: it is not ignored, its classification
/// allows deleting it, and it lives in a scope that may be touched.
pub open spec fn selected(item: ClassifiedView, options: OptionsView) -> bool {
    &&& !options.ignored_branches.contains(item.branch.name)
    &&& deletable(item.class, options.delete_unpushed_branches)
    &&& in_scope(options.delete_mode, item.branch.scope)
}

/// The deletion that removes `branch`.
pub open spec fn target_of(branch: BranchView) -> Target {
    Target { name: branch.name, scope: branch.scope }
}

/// The number of leading targets of `plan` that sort before `target`: in an
/// ordered plan, the place where `target` belongs.
pub open spec fn slot(plan: Seq<Target>, target: Target) -> int
    decreases plan.len(),
{
    if plan.len() == 0 || !target_before(plan[0], target) {
        0
    } else {
        1 + slot(plan.drop_first(), target)
    }
}

/// `plan` with `target` put where it belongs, unless it is there already.
pub open spec fn placed(plan: Seq<Target>, target: Target) -> Seq<Target> {
    let at = slot(plan, target);
    if at < plan.len() && plan[at] == target {
        plan
    } else {
        plan.insert(at, target)
    }
}

/// The plan for a list of classified branches: the selected ones, each
/// once, in the order of a plan.
pub open spec fn planned(classified: Seq<ClassifiedView>, options: OptionsView) -> Seq<Target>
    decreases classified.len(),
{
    if classified.len() == 0 {
        Seq::empty()
    } else {
        let earlier = planned(classified.drop_last(), options);
        if selected(classified.last(), options) {
            placed(earlier, target_of(classified.last().branch))
        } else {
            earlier
        }
    }
}

/// `target` is wanted: some selected branch of the list is removed by it.
pub open spec fn wanted(
    classified: Seq<ClassifiedView>,
    options: OptionsView,
    target: Target,
) -> bool {
    exists|i: int|
        0 <= i < classified.len() && selected(#[trigger] classified[i], options) && target_of(
            classified[i].branch,
        ) == target
}

/// No target sorts before itself.
pub proof fn lemma_target_order_irreflexive(a: Target)
    ensures
        !target_before(a, a),
{
    lemma_precedes_irreflexive(encode_utf8(a.name));
}

/// The order of a plan is transitive.
pub proof fn lemma_target_order_transitive(a: Target, b: Target, c: Target)
    requires
        target_before(a, b),
        target_before(b, c),
    ensures
        target_before(a, c),
{
    if name_before(a.name, b.name) && name_before(b.name, c.name) {
        lemma_precedes_transitive(encode_utf8(a.name), encode_utf8(b.name), encode_utf8(c.name));
    }
}

/// Two different targets are always ordered one way or the other.
pub proof fn lemma_target_order_connected(a: Target, b: Target)
    requires
        a != b,
    ensures
        target_before(a, b) || target_before(b, a),
{
    if a.name != b.name {
        lemma_name_order_connected(a.name, b.name);
    }
}

/// The targets before the slot sort before `target`; the one at the slot,
/// if there is one, does not.
pub proof fn lemma_slot(plan: Seq<Target>, target: Target)
    ensures
        0 <= slot(plan, target) <= plan.len(),
        forall|j: int| 0 <= j < slot(plan, target) ==> target_before(#[trigger] plan[j], target),
        slot(plan, target) < plan.len() ==> !target_before(plan[slot(plan, target)], target),
    decreases plan.len(),
{
    if plan.len() == 0 || !target_before(plan[0], target) {
    } else {
        let rest = plan.drop_first();
        lemma_slot(rest, target);
        assert forall|j: int| 0 <= j < slot(plan, target) implies target_before(
            #[trigger] plan[j],
            target,
        ) by {
            if j > 0 {
                assert(plan[j] == rest[j - 1]);
            }
        }
        if slot(plan, target) < plan.len() {
            assert(plan[slot(plan, target)] == rest[slot(rest, target)]);
        }
    }
}

/// The slot is the first place whose target does not sort before `target`.
pub proof fn lemma_slot_found(plan: Seq<Target>, target: Target, at: int)
    requires
        0 <= at <= plan.len(),
        forall|j: int| 0 <= j < at ==> target_before(#[trigger] plan[j], target),
        at < plan.len() ==> !target_before(plan[at], target),
    ensures
        slot(plan, target) == at,
    decreases at,
{
    if at > 0 {
        let rest = plan.drop_first();
        assert(target_before(plan[0], target));
        assert forall|j: int| 0 <= j < at - 1 implies target_before(#[trigger] rest[j], target) by {
            assert(rest[j] == plan[j + 1]);
        }
        if at < plan.len() {
            assert(rest[at - 1] == plan[at]);
        }
        lemma_slot_found(rest, target, at - 1);
    }
}

/// Placing a target keeps a plan ordered and adds that target to it, and
/// nothing else.
pub proof fn lemma_placed(plan: Seq<Target>, target: Target)
    requires
        ordered(plan),
    ensures
        ordered(placed(plan, target)),
        forall|other: Target| #[trigger]
            placed(plan, target).contains(other) <==> plan.contains(other) || other == target,
{
    let at = slot(plan, target);
    let after = placed(plan, target);
    lemma_slot(plan, target);
    if at < plan.len() && plan[at] == target {
        assert(plan.contains(target));
    } else {
        assert forall|i: int, j: int| 0 <= i < j < after.len() implies target_before(
            #[trigger] after[i],
            #[trigger] after[j],
        ) by {
            if i == at {
                assert(after[j] == plan[j - 1]);
                lemma_target_order_connected(target, plan[at]);
                if j - 1 > at {
                    lemma_target_order_transitive(target, plan[at], plan[j - 1]);
                }
            } else if j == at {
                assert(after[i] == plan[i]);
            } else {
                let pi = if i < at { i } else { i - 1 };
                let pj = if j < at { j } else { j - 1 };
                assert(after[i] == plan[pi]);
                assert(after[j] == plan[pj]);
            }
        }
        assert forall|other: Target| #[trigger]
            after.contains(other) <==> plan.contains(other) || other == target by {
            if after.contains(other) {
                let i = choose|i: int| 0 <= i < after.len() && after[i] == other;
                if i < at {
                    assert(plan[i] == other);
                } else if i > at {
                    assert(plan[i - 1] == other);
                }
            }
            if plan.contains(other) {
                let i = choose|i: int| 0 <= i < plan.len() && plan[i] == other;
                if i < at {
                    assert(after[i] == other);
                } else {
                    assert(after[i + 1] == other);
                }
            }
            if other == target {
                assert(after[at] == other);
            }
        }
    }
}

/// The plan is ordered and holds exactly the wanted targets.
pub proof fn lemma_planned(classified: Seq<ClassifiedView>, options: OptionsView)
    ensures
        ordered(planned(classified, options)),
        forall|target: Target| #[trigger]
            planned(classified, options).contains(target) <==> wanted(classified, options, target),
    decreases classified.len(),
{
    let plan = planned(classified, options);
    if classified.len() == 0 {
        assert forall|target: Target| #[trigger]
            plan.contains(target) <==> wanted(classified, options, target) by {}
    } else {
        let front = classified.drop_last();
        let last = classified.last();
        let earlier = planned(front, options);
        lemma_planned(front, options);
        if selected(last, options) {
            lemma_placed(earlier, target_of(last.branch));
        }
        assert forall|target: Target| #[trigger]
            plan.contains(target) <==> wanted(classified, options, target) by {
            if wanted(front, options, target) {
                let i = choose|i: int|
                    0 <= i < front.len() && selected(#[trigger] front[i], options) && target_of(
                        front[i].branch,
                    ) == target;
                assert(classified[i] == front[i]);
            }
            if wanted(classified, options, target) {
                let i = choose|i: int|
                    0 <= i < classified.len() && selected(#[trigger] classified[i], options)
                        && target_of(classified[i].branch) == target;
                if i < front.len() {
                    assert(front[i] == classified[i]);
                    assert(wanted(front, options, target));
                }
            }
            if selected(last, options) && target == target_of(last.branch) {
                assert(classified[classified.len() - 1] == last);
            }
        }
    }
}

/// Two ordered plans that hold the same targets are the same plan: what a
/// plan holds fixes its order, so the same branches are always planned in
/// the same order.
pub proof fn law_plan_order_is_fixed(p: Seq<Target>, q: Seq<Target>)
    requires
        ordered(p),
        ordered(q),
        forall|target: Target| p.contains(target) <==> q.contains(target),
    ensures
        p == q,
    decreases p.len(),
{
    if p.len() == 0 {
        if q.len() > 0 {
            assert(q.contains(q[0]));
        }
        assert(p =~= q);
    } else {
        assert(p.contains(p[0]));
        assert(q.contains(p[0]));
        assert(q.contains(q[0]));
        assert(p.contains(q[0]));
        let i = choose|i: int| 0 <= i < p.len() && p[i] == q[0];
        let j = choose|j: int| 0 <= j < q.len() && q[j] == p[0];
        if p[0] != q[0] {
            assert(target_before(p[0], p[i]));
            assert(target_before(q[0], q[j]));
            lemma_target_order_transitive(p[0], q[0], p[0]);
            lemma_target_order_irreflexive(p[0]);
        }
        let pt = p.drop_first();
        let qt = q.drop_first();
        assert forall|target: Target| pt.contains(target) <==> qt.contains(target) by {
            if pt.contains(target) {
                let k = choose|k: int| 0 <= k < pt.len() && pt[k] == target;
                assert(p[k + 1] == target);
                assert(target_before(p[0], p[k + 1]));
                lemma_target_order_irreflexive(target);
                assert(q.contains(target));
                let m = choose|m: int| 0 <= m < q.len() && q[m] == target;
                assert(qt[m - 1] == target);
            }
            if qt.contains(target) {
                let k = choose|k: int| 0 <= k < qt.len() && qt[k] == target;
                assert(q[k + 1] == target);
                assert(target_before(q[0], q[k + 1]));
                lemma_target_order_irreflexive(target);
                assert(p.contains(target));
                let m = choose|m: int| 0 <= m < p.len() && p[m] == target;
                assert(pt[m - 1] == target);
            }
        }
        assert(ordered(pt)) by {
            assert forall|a: int, b: int| 0 <= a < b < pt.len() implies target_before(
                #[trigger] pt[a],
                #[trigger] pt[b],
            ) by {
                assert(pt[a] == p[a + 1]);
                assert(pt[b] == p[b + 1]);
            }
        }
        assert(ordered(qt)) by {
            assert forall|a: int, b: int| 0 <= a < b < qt.len() implies target_before(
                #[trigger] qt[a],
                #[trigger] qt[b],
            ) by {
                assert(qt[a] == q[a + 1]);
                assert(qt[b] == q[b + 1]);
            }
        }
        law_plan_order_is_fixed(pt, qt);
        assert(p =~= seq![p[0]] + pt);
        assert(q =~= seq![q[0]] + qt);
    }
}

/// An ignored branch is never planned, whatever its classification.
pub proof fn law_ignored_never_planned(
    classified: Seq<ClassifiedView>,
    options: OptionsView,
    target: Target,
)
    requires
        options.ignored_branches.contains(target.name),
    ensures
        !planned(classified, options).contains(target),
{
    lemma_planned(classified, options);
}

/// A plan never leaves the scope of its delete mode: with `Local` it holds
/// no remote deletion, with `Remote` no local one.
pub proof fn law_plan_stays_in_scope(
    classified: Seq<ClassifiedView>,
    options: OptionsView,
    target: Target,
)
    requires
        planned(classified, options).contains(target),
    ensures
        options.delete_mode == DeleteMode::Local ==> target.scope == Scope::Local,
        options.delete_mode == DeleteMode::Remote ==> target.scope == Scope::Remote,
{
    lemma_planned(classified, options);
}

/// An active branch is never planned.
pub proof fn law_active_never_planned(
    classified: Seq<ClassifiedView>,
    options: OptionsView,
    target: Target,
)
    requires
        forall|i: int|
            0 <= i < classified.len() && target_of(#[trigger] classified[i].branch) == target
                ==> classified[i].class == Classification::Active,
    ensures
        !planned(classified, options).contains(target),
{
    lemma_planned(classified, options);
}

/// Whether `a` comes before `b` in a plan.
pub fn entry_before(a: &PlanEntry, b: &PlanEntry) -> (before: bool)
    ensures
        before == target_before(a@, b@),
{
    if name_precedes(a.name.as_str(), b.name.as_str()) {
        return true;
    }
    if !same_name(a.name.as_str(), b.name.as_str()) {
        return false;
    }
    match (a.scope, b.scope) {
        (Scope::Local, Scope::Remote) => true,
        _ => false,
    }
}

/// Whether two entries delete the same branch in the same scope.
pub fn same_entry(a: &PlanEntry, b: &PlanEntry) -> (same: bool)
    ensures
        same == (a@ == b@),
{
    if !same_name(a.name.as_str(), b.name.as_str()) {
        return false;
    }
    match (a.scope, b.scope) {
        (Scope::Local, Scope::Local) => true,
        (Scope::Remote, Scope::Remote) => true,
        _ => false,
    }
}

/// Whether a classified branch goes into the plan.
pub fn is_selected(item: &Classified, options: &Options) -> (yes: bool)
    ensures
        yes == selected(item@, options@),
{
    if holds_name(&options.ignored_branches, item.branch.name.as_str()) {
        return false;
    }
    let deletable = match item.class {
        Classification::Merged => true,
        Classification::Squashed => true,
        Classification::Unpushed => options.delete_unpushed_branches,
        Classification::Active => false,
    };
    let in_scope = match (options.delete_mode, item.branch.scope) {
        (DeleteMode::Local, Scope::Remote) => false,
        (DeleteMode::Remote, Scope::Local) => false,
        _ => true,
    };
    deletable && in_scope
}

/// Puts `entry` where it belongs among `entries`, unless it is there
/// already.
fn place(entries: &mut Vec<PlanEntry>, entry: PlanEntry)
    requires
        ordered(old(entries).deep_view()),
    ensures
        final(entries).deep_view() == placed(old(entries).deep_view(), entry@),
        ordered(final(entries).deep_view()),
{
    let ghost before = entries.deep_view();
    let ghost target = entry@;
    let mut at: usize = 0;
    while at < entries.len() && entry_before(&entries[at], &entry)
        invariant
            at <= entries.len(),
            entries.deep_view() == before,
            entry@ == target,
            forall|j: int| 0 <= j < at ==> target_before(#[trigger] before[j], target),
        decreases entries.len() - at,
    {
        at += 1;
    }
    proof {
        lemma_slot_found(before, target, at as int);
        lemma_placed(before, target);
    }
    if at < entries.len() && same_entry(&entries[at], &entry) {
        return;
    }
    entries.insert(at, entry);
    proof {
        assert(entries.deep_view() =~= before.insert(at as int, target));
    }
}

/// The ordered list of deletions that a run will attempt.
#[derive(Debug, PartialEq, Eq)]
pub struct DeletionPlan {
    entries: Vec<PlanEntry>,
}

impl View for DeletionPlan {
    type V = Seq<Target>;

    closed spec fn view(&self) -> Seq<Target> {
        self.entries.deep_view()
    }
}

impl DeletionPlan {
    /// A plan is always in order, so it names no deletion twice.
    #[verifier::type_invariant]
    spec fn in_order(&self) -> bool {
        ordered(self.entries.deep_view())
    }

    /// The plan that deletes nothing.
    pub fn empty() -> (plan: DeletionPlan)
        ensures
            plan@ == Seq::<Target>::empty(),
    {
        let entries: Vec<PlanEntry> = Vec::new();
        proof {
            assert(entries.deep_view() =~= Seq::<Target>::empty());
        }
        DeletionPlan { entries }
    }

    /// The number of planned deletions.
    pub fn len(&self) -> (n: usize)
        ensures
            n == self@.len(),
    {
        self.entries.len()
    }

    /// Whether nothing is planned.
    pub fn is_empty(&self) -> (empty: bool)
        ensures
            empty == (self@.len() == 0),
    {
        self.entries.len() == 0
    }

    /// The planned deletion at `index`, if the plan is that long.
    pub fn get(&self, index: usize) -> (entry: Option<&PlanEntry>)
        ensures
            match entry {
                Some(e) => index < self@.len() && e@ == self@[index as int],
                None => index >= self@.len(),
            },
    {
        if index < self.entries.len() {
            Some(&self.entries[index])
        } else {
            None
        }
    }

    /// The planned deletions in the order in which they will be attempted.
    pub fn entries(&self) -> (entries: &Vec<PlanEntry>)
        ensures
            entries.deep_view() == self@,
            ordered(self@),
    {
        proof {
            use_type_invariant(self);
        }
        &self.entries
    }

    /// A copy of this plan.
    pub fn duplicate(&self) -> (copy: DeletionPlan)
        ensures
            copy@ == self@,
    {
        proof {
            use_type_invariant(self);
        }
        let mut entries: Vec<PlanEntry> = Vec::new();
        let mut i: usize = 0;
        while i < self.entries.len()
            invariant
                i <= self.entries.len(),
                entries.len() == i,
                forall|j: int| 0 <= j < i ==> entries@[j]@ == self.entries@[j]@,
            decreases self.entries.len() - i,
        {
            entries.push(self.entries[i].duplicate());
            i += 1;
        }
        proof {
            assert(entries.deep_view() =~= self.entries.deep_view());
        }
        DeletionPlan { entries }
    }
}

/// Builds the deletion plan from the classified branches.
///
/// Ignored branches are dropped first. Of the others those stay whose
/// classification allows deleting them and whose scope the delete mode
/// covers. What is left is planned once for each name and scope, ordered by
/// name, a local deletion before the remote one of the same name.
pub fn build_plan(classified: &Vec<Classified>, options: &Options) -> (plan: DeletionPlan)
    ensures
        plan@ == planned(classified.deep_view(), options@),
        ordered(plan@),
        forall|target: Target| #[trigger]
            plan@.contains(target) <==> wanted(classified.deep_view(), options@, target),
        forall|i: int|
            0 <= i < plan@.len() ==> !options@.ignored_branches.contains(#[trigger] plan@[i].name),
        forall|i: int|
            0 <= i < plan@.len() ==> in_scope(options.delete_mode, #[trigger] plan@[i].scope),
{
    let mut entries: Vec<PlanEntry> = Vec::new();
    let mut i: usize = 0;
    proof {
        assert(classified.deep_view().take(0) =~= Seq::empty());
        assert(entries.deep_view() =~= Seq::<Target>::empty());
    }
    while i < classified.len()
        invariant
            i <= classified.len(),
            entries.deep_view() == planned(classified.deep_view().take(i as int), options@),
            ordered(entries.deep_view()),
        decreases classified.len() - i,
    {
        let item = &classified[i];
        proof {
            let upto = classified.deep_view().take(i + 1);
            assert(upto.drop_last() =~= classified.deep_view().take(i as int));
            assert(upto.last() == item@);
        }
        if is_selected(item, options) {
            place(
                &mut entries,
                PlanEntry { name: item.branch.name.clone(), scope: item.branch.scope },
            );
        }
        i += 1;
    }
    proof {
        assert(classified.deep_view().take(classified.len() as int) =~= classified.deep_view());
        lemma_planned(classified.deep_view(), options@);
        let plan = entries.deep_view();
        assert forall|i: int| 0 <= i < plan.len() implies !options@.ignored_branches.contains(
            #[trigger] plan[i].name,
        ) by {
            assert(plan.contains(plan[i]));
        }
        assert forall|i: int| 0 <= i < plan.len() implies in_scope(
            options.delete_mode,
            #[trigger] plan[i].scope,
        ) by {
            assert(plan.contains(plan[i]));
        }
    }
    DeletionPlan { entries }
}

} // verus!
