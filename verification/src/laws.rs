//! What holds of every run.

use vstd::prelude::*;

use crate::branch::{candidates, BranchView, Scope};
use crate::classify::{
    drawn_from, law_progress_follows_the_answers, progress, verdict, Answers, Classification,
    ClassifiedView, FindingsView, Progress, Question,
};
use crate::confirm::{approves, ResponseView};
use crate::error::{AdapterError, Error};
use crate::execute::{outcome, outcomes, status_of, ExecutionResult, ExitStatus};
use crate::model::{
    advance, begin_classification, deleting, deletions, executed, initial, make_plan,
    next_candidate, open_question, pending, phase_of, rank, reference, run, settle, valid,
    EngineView,
};
use crate::options::{DeleteMode, OptionsView};
use crate::plan::{in_scope, lemma_planned, planned, Target};
use crate::protocol::{ActionView, ReplyView, SkippedView, Stage};

verus! {

/// A fresh run is in a valid state.
pub proof fn law_initial_is_valid(options: OptionsView)
    ensures
        valid(initial(options)),
{
}

/// Making the plan leads to a valid state.
proof fn lemma_make_plan_is_valid(s: EngineView)
    requires
        s.results.len() == 0,
    ensures
        valid(make_plan(s)),
{
}

/// Going on to the next candidate leads to a valid state.
proof fn lemma_next_candidate_is_valid(s: EngineView)
    requires
        s.cursor < s.candidates.len(),
        s.classified.len() + s.skipped.len() == s.cursor + 1,
        s.plan.len() == 0,
        s.results.len() == 0,
    ensures
        valid(next_candidate(s)),
{
    lemma_make_plan_is_valid(s);
}

/// Starting to classify leads to a valid state.
proof fn lemma_begin_classification_is_valid(s: EngineView)
    requires
        s.classified.len() == 0,
        s.skipped.len() == 0,
        s.plan.len() == 0,
        s.results.len() == 0,
    ensures
        valid(begin_classification(s)),
{
    lemma_make_plan_is_valid(s);
}

/// Taking in an answer about a candidate leads to a valid state.
proof fn lemma_settle_is_valid(s: EngineView)
    requires
        s.stage == Stage::Classifying,
        s.cursor < s.candidates.len(),
        s.classified.len() + s.skipped.len() == s.cursor,
        s.plan.len() == 0,
        s.results.len() == 0,
    ensures
        valid(settle(s)),
{
    let branch = s.candidates[s.cursor as int];
    match progress(branch, s.findings, s.remote_branches, s.options) {
        Progress::Ask(_) => {},
        Progress::Done(class) => {
            lemma_next_candidate_is_valid(
                EngineView { classified: s.classified.push(ClassifiedView { branch, class }), ..s },
            );
        },
        Progress::Failed(reason) => {
            lemma_next_candidate_is_valid(
                EngineView { skipped: s.skipped.push(SkippedView { branch, reason }), ..s },
            );
        },
    }
}

/// Whatever comes in, a valid state is followed by a valid state.
pub proof fn law_valid_is_kept(s: EngineView, reply: ReplyView)
    requires
        valid(s),
    ensures
        valid(advance(s, reply)),
{
    reveal(advance);
    match (s.stage, reply) {
        (Stage::LocalBranches, ReplyView::LocalBranches(listing)) => {
            match listing {
                Ok(names) => {
                    lemma_begin_classification_is_valid(
                        EngineView {
                            candidates: candidates(names, Scope::Local, s.options.base_branch),
                            ..s
                        },
                    );
                },
                Err(reason) => {
                    lemma_begin_classification_is_valid(
                        EngineView {
                            tolerated: Some(Error::Enumeration(Scope::Local, reason)),
                            ..s
                        },
                    );
                },
            }
        },
        (Stage::RemoteBranches, ReplyView::RemoteBranches(listing)) => {
            match listing {
                Ok(names) => {
                    let found = candidates(names, Scope::Remote, s.options.base_branch);
                    lemma_begin_classification_is_valid(
                        EngineView {
                            remote_branches: found,
                            candidates: if in_scope(s.options.delete_mode, Scope::Remote) {
                                s.candidates + found
                            } else {
                                s.candidates
                            },
                            ..s
                        },
                    );
                },
                Err(reason) => {
                    lemma_begin_classification_is_valid(
                        EngineView {
                            tolerated: Some(Error::Enumeration(Scope::Remote, reason)),
                            ..s
                        },
                    );
                },
            }
        },
        (Stage::Classifying, ReplyView::Ancestor(answer)) => {
            lemma_settle_is_valid(
                EngineView { findings: FindingsView { ancestor: Some(answer), ..s.findings }, ..s },
            );
        },
        (Stage::Classifying, ReplyView::MergeBase(answer)) => {
            lemma_settle_is_valid(
                EngineView {
                    findings: FindingsView { merge_base: Some(answer), ..s.findings },
                    ..s
                },
            );
        },
        (Stage::Classifying, ReplyView::DiffEmpty(answer)) => {
            lemma_settle_is_valid(
                EngineView {
                    findings: FindingsView { diff_empty: Some(answer), ..s.findings },
                    ..s
                },
            );
        },
        _ => {},
    }
}

/// The place of a stage in a run.
pub open spec fn stage_rank(stage: Stage) -> int {
    match stage {
        Stage::CurrentBranch => 0,
        Stage::Remotes => 1,
        Stage::LocalBranches => 2,
        Stage::RemoteBranches => 3,
        Stage::Classifying => 4,
        Stage::Confirming => 5,
        Stage::Executing => 6,
        Stage::Finished(_) => 7,
    }
}

/// The number of questions answered about the candidate under the cursor.
pub open spec fn answered_questions(findings: FindingsView) -> int {
    (if findings.ancestor is Some {
        1int
    } else {
        0int
    }) + (if findings.merge_base is Some {
        1int
    } else {
        0int
    }) + (if findings.diff_empty is Some {
        1int
    } else {
        0int
    })
}

/// `a` lies behind `b` on the way of a run: in an earlier stage, or in the
/// same stage with fewer candidates dealt with, fewer questions answered
/// about the same candidate, or fewer deletions attempted.
pub open spec fn behind(a: EngineView, b: EngineView) -> bool {
    ||| stage_rank(a.stage) < stage_rank(b.stage)
    ||| a.stage == Stage::Classifying && b.stage == Stage::Classifying && (a.cursor < b.cursor || (
        a.cursor == b.cursor && answered_questions(a.findings) < answered_questions(b.findings)))
    ||| a.stage == Stage::Executing && b.stage == Stage::Executing && a.results.len()
        < b.results.len()
}

/// A run that is over stays over, and nothing changes any more.
pub proof fn law_finished_is_final(s: EngineView, reply: ReplyView)
    requires
        s.stage is Finished,
    ensures
        advance(s, reply) == s,
{
    reveal(advance);
}

/// A reply either changes nothing or takes the run forward: no state is
/// ever visited twice.
pub proof fn law_steps_lead_forward(s: EngineView, reply: ReplyView)
    requires
        valid(s),
    ensures
        advance(s, reply) == s || behind(s, advance(s, reply)),
{
    reveal(advance);
}

/// A run passes through its phases in order and never goes back to an
/// earlier one.
pub proof fn law_phases_never_go_back(s: EngineView, replies: Seq<ReplyView>)
    requires
        valid(s),
    ensures
        valid(run(s, replies)),
        run(s, replies) == s || behind(s, run(s, replies)),
        rank(phase_of(s.stage)) <= rank(phase_of(run(s, replies).stage)),
    decreases replies.len(),
{
    if replies.len() > 0 {
        let next = advance(s, replies[0]);
        law_valid_is_kept(s, replies[0]);
        law_steps_lead_forward(s, replies[0]);
        law_phases_never_go_back(next, replies.drop_first());
    }
}

/// Whatever a run has planned respects the configuration: no ignored
/// branch is in the plan, and no deletion outside the scope of the delete
/// mode.
pub proof fn law_plan_respects_options(s: EngineView, target: Target)
    requires
        valid(s),
        s.plan.contains(target),
    ensures
        !s.options.ignored_branches.contains(target.name),
        in_scope(s.options.delete_mode, target.scope),
        s.options.delete_mode == DeleteMode::Local ==> target.scope == Scope::Local,
        s.options.delete_mode == DeleteMode::Remote ==> target.scope == Scope::Remote,
{
    lemma_planned(s.classified, s.options);
}

/// A run asks for a deletion only while it carries out its plan, and only
/// for a deletion that the plan holds.
pub proof fn law_only_planned_deletions(s: EngineView)
    requires
        valid(s),
        pending(s) is DeleteLocalBranch || pending(s) is DeleteRemoteBranch,
    ensures
        s.stage == Stage::Executing,
        exists|target: Target| #[trigger]
            s.plan.contains(target) && pending(s) == deleting(target, s.options),
{
    if s.stage == Stage::Executing {
        let target = s.plan[s.results.len() as int];
        assert(s.plan.contains(target));
    }
}

/// A refusal ends the run with an empty plan and without a single
/// deletion, attempted or asked for.
pub proof fn law_refusal_deletes_nothing(s: EngineView, response: ResponseView)
    requires
        valid(s),
        s.stage == Stage::Confirming,
        !approves(s.options, response),
    ensures
        advance(s, ReplyView::Confirmation(response)).stage == Stage::Finished(ExitStatus::Success),
        advance(s, ReplyView::Confirmation(response)).plan.len() == 0,
        advance(s, ReplyView::Confirmation(response)).results.len() == 0,
        pending(advance(s, ReplyView::Confirmation(response))) == ActionView::Report(
            ExitStatus::Success,
        ),
{
    reveal(advance);
}

/// A failed deletion is recorded and the run goes on with the next planned
/// deletion as if nothing had happened.
pub proof fn law_failure_does_not_stop_the_run(s: EngineView, reason: AdapterError)
    requires
        valid(s),
        s.stage == Stage::Executing,
        s.results.len() + 1 < s.plan.len(),
    ensures
        advance(s, ReplyView::Deleted(Err(reason))).stage == Stage::Executing,
        advance(s, ReplyView::Deleted(Err(reason))).plan == s.plan,
        advance(s, ReplyView::Deleted(Err(reason))).results == s.results.push(
            ExecutionResult::Failed(reason),
        ),
        pending(advance(s, ReplyView::Deleted(Err(reason)))) == deleting(
            s.plan[s.results.len() as int + 1],
            s.options,
        ),
{
    reveal(advance);
}

/// Carrying out a plan attempts every planned deletion: whatever the
/// replies, the run ends after the last of them with one outcome for each
/// deletion, each decided by its own reply alone.
pub proof fn law_every_deletion_is_attempted(s: EngineView, done: Seq<Result<(), AdapterError>>)
    requires
        valid(s),
        s.stage == Stage::Executing,
        done.len() == s.plan.len() - s.results.len(),
    ensures
        run(s, deletions(done)).stage == Stage::Finished(
            status_of(s.results + outcomes(done)),
        ),
        run(s, deletions(done)).plan == s.plan,
        run(s, deletions(done)).results == s.results + outcomes(done),
    decreases done.len(),
{
    reveal(advance);
    let replies = deletions(done);
    let rest = done.drop_first();
    let next = advance(s, replies[0]);
    let all = s.results + outcomes(done);
    assert(replies[0] == ReplyView::Deleted(done[0]));
    assert(next == executed(s, done[0]));
    assert(replies.drop_first() =~= deletions(rest));
    assert(run(s, replies) == run(next, deletions(rest)));
    assert(next.results + outcomes(rest) =~= all);
    law_valid_is_kept(s, replies[0]);
    if rest.len() > 0 {
        law_every_deletion_is_attempted(next, rest);
    } else {
        assert(next.results =~= all);
        assert(run(next, deletions(rest)) == next);
    }
}

/// The reply that answers `question` as `answers` says.
pub open spec fn answer_to(question: Question, answers: Answers) -> ReplyView {
    match question {
        Question::Ancestor => ReplyView::Ancestor(answers.ancestor),
        Question::MergeBase => ReplyView::MergeBase(answers.merge_base),
        Question::DiffEmpty => ReplyView::DiffEmpty(answers.diff_empty),
    }
}

/// One question about the candidate with index `index` answered from
/// `answers`. A run that is busy with anything else stays as it is.
pub open spec fn consult(s: EngineView, answers: Answers, index: nat) -> EngineView {
    if s.stage == Stage::Classifying && s.cursor == index {
        match open_question(s) {
            Some(question) => advance(s, answer_to(question, answers)),
            None => s,
        }
    } else {
        s
    }
}

/// The candidate under the cursor asked about until it is settled.
#[verifier::opaque]
pub open spec fn examined(s: EngineView, answers: Answers) -> EngineView {
    consult(consult(consult(s, answers, s.cursor), answers, s.cursor), answers, s.cursor)
}

/// The candidate under the cursor has got what the repository's answers
/// come to: its classification, or its place among the skipped branches.
#[verifier::opaque]
pub open spec fn judged(s: EngineView, answers: Answers) -> EngineView {
    let branch = s.candidates[s.cursor as int];
    match verdict(branch, answers, s.remote_branches, s.options) {
        Ok(class) => next_candidate(
            EngineView { classified: s.classified.push(ClassifiedView { branch, class }), ..s },
        ),
        Err(reason) => next_candidate(
            EngineView { skipped: s.skipped.push(SkippedView { branch, reason }), ..s },
        ),
    }
}

/// The findings with the answer to `question` added.
pub open spec fn learned(
    findings: FindingsView,
    question: Question,
    answers: Answers,
) -> FindingsView {
    match question {
        Question::Ancestor => FindingsView { ancestor: Some(answers.ancestor), ..findings },
        Question::MergeBase => FindingsView { merge_base: Some(answers.merge_base), ..findings },
        Question::DiffEmpty => FindingsView { diff_empty: Some(answers.diff_empty), ..findings },
    }
}

/// Consulting the repository answers the open question and settles what
/// the answer allows to settle.
proof fn lemma_consult(s: EngineView, answers: Answers, question: Question)
    requires
        s.stage == Stage::Classifying,
        open_question(s) == Some(question),
    ensures
        consult(s, answers, s.cursor) == settle(
            EngineView { findings: learned(s.findings, question, answers), ..s },
        ),
{
    reveal(advance);
}

/// Where the next candidate starts does not depend on what was found out
/// about the last one.
proof fn lemma_next_candidate_forgets(s: EngineView, findings: FindingsView)
    ensures
        next_candidate(EngineView { findings, ..s }) == next_candidate(s),
{
}

/// After the candidate under the cursor, the run is busy with something
/// else.
proof fn lemma_next_candidate_moves_on(s: EngineView)
    ensures
        !(next_candidate(s).stage == Stage::Classifying && next_candidate(s).cursor == s.cursor),
{
}

/// Findings that settle the candidate settle it as the answers say.
proof fn lemma_settle_judges(s: EngineView, findings: FindingsView, answers: Answers)
    requires
        s.stage == Stage::Classifying,
        s.cursor < s.candidates.len(),
        drawn_from(findings, answers),
        !(progress(s.candidates[s.cursor as int], findings, s.remote_branches, s.options) is Ask),
    ensures
        settle(EngineView { findings, ..s }) == judged(s, answers),
        !(judged(s, answers).stage == Stage::Classifying && judged(s, answers).cursor == s.cursor),
{
    reveal(judged);
    let branch = s.candidates[s.cursor as int];
    law_progress_follows_the_answers(branch, findings, answers, s.remote_branches, s.options);
    match verdict(branch, answers, s.remote_branches, s.options) {
        Ok(class) => {
            let pushed = EngineView {
                classified: s.classified.push(ClassifiedView { branch, class }),
                ..s
            };
            lemma_next_candidate_forgets(pushed, findings);
            lemma_next_candidate_moves_on(pushed);
        },
        Err(reason) => {
            let pushed = EngineView {
                skipped: s.skipped.push(SkippedView { branch, reason }),
                ..s
            };
            lemma_next_candidate_forgets(pushed, findings);
            lemma_next_candidate_moves_on(pushed);
        },
    }
}

/// Findings that leave a question open leave the run where it is.
proof fn lemma_settle_waits(s: EngineView, findings: FindingsView)
    requires
        s.stage == Stage::Classifying,
        s.cursor < s.candidates.len(),
        progress(s.candidates[s.cursor as int], findings, s.remote_branches, s.options) is Ask,
    ensures
        settle(EngineView { findings, ..s }) == (EngineView { findings, ..s }),
        open_question(EngineView { findings, ..s }) == Some(
            progress(
                s.candidates[s.cursor as int],
                findings,
                s.remote_branches,
                s.options,
            )->Ask_0,
        ),
{
}

/// Three questions at most settle a candidate, and they settle it the way
/// the repository's answers say: the run classifies the branch as the
/// verdict on the answers has it, or skips it for the reason that the
/// verdict gives, and goes on.
pub proof fn law_candidate_gets_its_verdict(s: EngineView, answers: Answers)
    requires
        valid(s),
        s.stage == Stage::Classifying,
        s.findings == FindingsView::none(),
    ensures
        examined(s, answers) == judged(s, answers),
{
    reveal(examined);
    let index = s.cursor;
    let branch = s.candidates[index as int];
    let end = judged(s, answers);
    let f1 = learned(s.findings, Question::Ancestor, answers);
    let s1 = EngineView { findings: f1, ..s };
    let first = consult(s, answers, index);
    lemma_consult(s, answers, Question::Ancestor);
    assert(first == settle(s1));
    if progress(branch, f1, s.remote_branches, s.options) is Ask {
        lemma_settle_waits(s, f1);
        assert(first == s1);
        let q1 = progress(branch, f1, s.remote_branches, s.options)->Ask_0;
        assert(q1 == Question::MergeBase);
        let f2 = learned(f1, Question::MergeBase, answers);
        let s2 = EngineView { findings: f2, ..s };
        let second = consult(first, answers, index);
        lemma_consult(s1, answers, Question::MergeBase);
        assert((EngineView { findings: f2, ..s1 }) == s2);
        assert(second == settle(s2));
        if progress(branch, f2, s.remote_branches, s.options) is Ask {
            lemma_settle_waits(s, f2);
            assert(second == s2);
            let f3 = learned(f2, Question::DiffEmpty, answers);
            let s3 = EngineView { findings: f3, ..s };
            let third = consult(second, answers, index);
            lemma_consult(s2, answers, Question::DiffEmpty);
            assert((EngineView { findings: f3, ..s2 }) == s3);
            assert(third == settle(s3));
            lemma_settle_judges(s, f3, answers);
            assert(third == end);
        } else {
            lemma_settle_judges(s, f2, answers);
            assert(second == end);
            assert(consult(second, answers, index) == second);
        }
    } else {
        lemma_settle_judges(s, f1, answers);
        assert(first == end);
        assert(consult(first, answers, index) == first);
        assert(consult(consult(first, answers, index), answers, index) == first);
    }
}

/// The next `count` candidates examined one after the other, each with the
/// answers that `repository` holds under the name of its ref.
pub open spec fn examined_all(
    s: EngineView,
    repository: Map<Seq<char>, Answers>,
    count: nat,
) -> EngineView
    decreases count,
{
    if count == 0 {
        s
    } else {
        let branch = s.candidates[s.cursor as int];
        examined_all(
            examined(s, repository[reference(branch, s.options.remote)]),
            repository,
            (count - 1) as nat,
        )
    }
}

/// The classifications that `repository` gives to a list of candidates,
/// in the order of the list. Candidates without a classification are left
/// out.
pub open spec fn classified_by(
    branches: Seq<BranchView>,
    repository: Map<Seq<char>, Answers>,
    remote_branches: Seq<BranchView>,
    options: OptionsView,
) -> Seq<ClassifiedView>
    decreases branches.len(),
{
    if branches.len() == 0 {
        Seq::empty()
    } else {
        let branch = branches.first();
        let rest = classified_by(branches.drop_first(), repository, remote_branches, options);
        match verdict(
            branch,
            repository[reference(branch, options.remote)],
            remote_branches,
            options,
        ) {
            Ok(class) => seq![ClassifiedView { branch, class }] + rest,
            Err(_) => rest,
        }
    }
}

/// The candidates that `repository` leaves without a classification, each
/// with the reason, in the order of the list.
pub open spec fn skipped_by(
    branches: Seq<BranchView>,
    repository: Map<Seq<char>, Answers>,
    remote_branches: Seq<BranchView>,
    options: OptionsView,
) -> Seq<SkippedView>
    decreases branches.len(),
{
    if branches.len() == 0 {
        Seq::empty()
    } else {
        let branch = branches.first();
        let rest = skipped_by(branches.drop_first(), repository, remote_branches, options);
        match verdict(
            branch,
            repository[reference(branch, options.remote)],
            remote_branches,
            options,
        ) {
            Ok(_) => rest,
            Err(reason) => seq![SkippedView { branch, reason }] + rest,
        }
    }
}

/// What a settled candidate leaves behind: one more classified or skipped
/// branch, and either the next candidate with nothing known about it or,
/// after the last one, the plan.
proof fn lemma_judged(s: EngineView, answers: Answers)
    requires
        valid(s),
        s.stage == Stage::Classifying,
        s.findings == FindingsView::none(),
    ensures
        valid(judged(s, answers)),
        judged(s, answers).options == s.options,
        judged(s, answers).candidates == s.candidates,
        judged(s, answers).remote_branches == s.remote_branches,
        match verdict(s.candidates[s.cursor as int], answers, s.remote_branches, s.options) {
            Ok(class) => {
                &&& judged(s, answers).classified == s.classified.push(
                    ClassifiedView { branch: s.candidates[s.cursor as int], class },
                )
                &&& judged(s, answers).skipped == s.skipped
            },
            Err(reason) => {
                &&& judged(s, answers).classified == s.classified
                &&& judged(s, answers).skipped == s.skipped.push(
                    SkippedView { branch: s.candidates[s.cursor as int], reason },
                )
            },
        },
        s.cursor + 1 < s.candidates.len() ==> {
            &&& judged(s, answers).stage == Stage::Classifying
            &&& judged(s, answers).cursor == s.cursor + 1
            &&& judged(s, answers).findings == FindingsView::none()
        },
        s.cursor + 1 >= s.candidates.len() ==> {
            &&& judged(s, answers).stage != Stage::Classifying
            &&& judged(s, answers).plan == planned(judged(s, answers).classified, s.options)
        },
{
    reveal(judged);
    let branch = s.candidates[s.cursor as int];
    match verdict(branch, answers, s.remote_branches, s.options) {
        Ok(class) => {
            lemma_next_candidate_is_valid(
                EngineView { classified: s.classified.push(ClassifiedView { branch, class }), ..s },
            );
        },
        Err(reason) => {
            lemma_next_candidate_is_valid(
                EngineView { skipped: s.skipped.push(SkippedView { branch, reason }), ..s },
            );
        },
    }
}

/// The classification phase comes to what the repository says and to
/// nothing else. Examining the candidates that are left classifies each as
/// the verdict on the repository's answers has it, skips those without a
/// verdict, and ends with the plan of what was classified. A repository
/// that has not changed therefore leads to the same classifications again.
pub proof fn law_classification_follows_the_repository(
    s: EngineView,
    repository: Map<Seq<char>, Answers>,
    count: nat,
)
    requires
        valid(s),
        s.stage == Stage::Classifying,
        s.findings == FindingsView::none(),
        count == s.candidates.len() - s.cursor,
    ensures
        examined_all(s, repository, count).stage != Stage::Classifying,
        examined_all(s, repository, count).classified == s.classified + classified_by(
            s.candidates.skip(s.cursor as int),
            repository,
            s.remote_branches,
            s.options,
        ),
        examined_all(s, repository, count).skipped == s.skipped + skipped_by(
            s.candidates.skip(s.cursor as int),
            repository,
            s.remote_branches,
            s.options,
        ),
        examined_all(s, repository, count).plan == planned(
            examined_all(s, repository, count).classified,
            s.options,
        ),
    decreases count,
{
    let branch = s.candidates[s.cursor as int];
    let answers = repository[reference(branch, s.options.remote)];
    let left = s.candidates.skip(s.cursor as int);
    let next = examined(s, answers);
    law_candidate_gets_its_verdict(s, answers);
    lemma_judged(s, answers);
    assert(left.first() == branch);
    assert(left.drop_first() =~= s.candidates.skip(s.cursor as int + 1));
    let last = examined_all(s, repository, count);
    assert(last == examined_all(next, repository, (count - 1) as nat));
    let now = classified_by(left, repository, s.remote_branches, s.options);
    let later = classified_by(left.drop_first(), repository, s.remote_branches, s.options);
    let now_skipped = skipped_by(left, repository, s.remote_branches, s.options);
    let later_skipped = skipped_by(left.drop_first(), repository, s.remote_branches, s.options);
    assert(next.classified + later =~= s.classified + now);
    assert(next.skipped + later_skipped =~= s.skipped + now_skipped);
    if count > 1 {
        law_classification_follows_the_repository(next, repository, (count - 1) as nat);
    } else {
        assert(later =~= Seq::<ClassifiedView>::empty());
        assert(later_skipped =~= Seq::<SkippedView>::empty());
        assert(last == next);
        assert(next.classified =~= s.classified + now);
        assert(next.skipped =~= s.skipped + now_skipped);
    }
}

/// A run classifies a candidate as merged whenever the repository calls
/// it an ancestor of the base branch, whatever the configuration and
/// whatever else the repository would say about it.
pub proof fn law_ancestors_are_classified_merged(s: EngineView, answers: Answers)
    requires
        valid(s),
        s.stage == Stage::Classifying,
        s.findings == FindingsView::none(),
        answers.ancestor == Ok::<bool, AdapterError>(true),
    ensures
        examined(s, answers).classified == s.classified.push(
            ClassifiedView {
                branch: s.candidates[s.cursor as int],
                class: Classification::Merged,
            },
        ),
        examined(s, answers).skipped == s.skipped,
{
    law_candidate_gets_its_verdict(s, answers);
    lemma_judged(s, answers);
}

/// Classifying is repeatable. Two runs that set out to classify the same
/// candidates under the same configuration, against a repository that
/// answers the same way, come to the same classifications, skip the same
/// branches and make the same plan, whatever else differs between them.
pub proof fn law_unchanged_repository_same_classes(
    first: EngineView,
    second: EngineView,
    repository: Map<Seq<char>, Answers>,
)
    requires
        valid(first),
        valid(second),
        first.stage == Stage::Classifying,
        second.stage == Stage::Classifying,
        first.cursor == 0,
        second.cursor == 0,
        first.findings == FindingsView::none(),
        second.findings == FindingsView::none(),
        first.candidates == second.candidates,
        first.remote_branches == second.remote_branches,
        first.options == second.options,
    ensures
        examined_all(first, repository, first.candidates.len()).classified == examined_all(
            second,
            repository,
            second.candidates.len(),
        ).classified,
        examined_all(first, repository, first.candidates.len()).skipped == examined_all(
            second,
            repository,
            second.candidates.len(),
        ).skipped,
        examined_all(first, repository, first.candidates.len()).plan == examined_all(
            second,
            repository,
            second.candidates.len(),
        ).plan,
{
    law_classification_follows_the_repository(first, repository, first.candidates.len());
    law_classification_follows_the_repository(second, repository, second.candidates.len());
    assert(first.classified =~= second.classified);
    assert(first.skipped =~= second.skipped);
}

/// A configuration that does not fit the repository ends the run before
/// any branch is listed, with the failure as the status of the run.
pub proof fn law_invalid_configuration_ends_the_run(
    s: EngineView,
    remotes: Seq<Seq<char>>,
    error: Error,
)
    requires
        s.stage == Stage::Remotes,
        s.options.verdict(s.current_branch, remotes) == Err::<(), Error>(error),
    ensures
        advance(s, ReplyView::Remotes(remotes)).stage == Stage::Finished(ExitStatus::Fatal(error)),
        pending(advance(s, ReplyView::Remotes(remotes))) == ActionView::Report(
            ExitStatus::Fatal(error),
        ),
{
    reveal(advance);
}

/// When both scopes are cleaned, a local listing that fails does not end
/// the run: the failure is kept as a warning and the remote scope is
/// listed next.
pub proof fn law_failed_local_listing_spares_the_remote_scope(s: EngineView, reason: AdapterError)
    requires
        s.stage == Stage::LocalBranches,
        s.options.delete_mode == DeleteMode::Both,
    ensures
        advance(s, ReplyView::LocalBranches(Err(reason))).stage == Stage::RemoteBranches,
        advance(s, ReplyView::LocalBranches(Err(reason))).tolerated == Some(
            Error::Enumeration(Scope::Local, reason),
        ),
{
    reveal(advance);
}

/// When both scopes are cleaned and no local branch is judged by what the
/// remote holds, a remote listing that fails does not end the run: the
/// failure is kept as a warning and the local branches are dealt with.
pub proof fn law_failed_remote_listing_spares_the_local_scope(s: EngineView, reason: AdapterError)
    requires
        valid(s),
        s.stage == Stage::RemoteBranches,
        s.options.delete_mode == DeleteMode::Both,
        !s.options.delete_unpushed_branches,
        s.tolerated is None,
    ensures
        !(advance(s, ReplyView::RemoteBranches(Err(reason))).stage is Finished
            && advance(s, ReplyView::RemoteBranches(Err(reason))).stage->Finished_0 is Fatal),
        advance(s, ReplyView::RemoteBranches(Err(reason))).candidates == s.candidates,
        advance(s, ReplyView::RemoteBranches(Err(reason))).tolerated == Some(
            Error::Enumeration(Scope::Remote, reason),
        ),
{
    reveal(advance);
}

} // verus!
