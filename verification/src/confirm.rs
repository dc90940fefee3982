//! Asking before deleting: what the user is shown before anything is
//! deleted, and what counts as a yes.

use vstd::prelude::*;
use vstd::utf8::*;

use crate::options::{Options, OptionsView};
use crate::plan::{DeletionPlan, Target};
use crate::text::same_name;

verus! {

/// What came back from asking the user.
#[derive(Debug, Clone, PartialEq, Eq)]
pub enum Response {
    /// The line that the user typed.
    Line(String),
    /// The input ended, or the user cancelled the question.
    Closed,
}

/// A response as specifications see it.
pub enum ResponseView {
    Line(Seq<char>),
    Closed,
}

impl View for Response {
    type V = ResponseView;

    open spec fn view(&self) -> ResponseView {
        match self {
            Response::Line(line) => ResponseView::Line(line@),
            Response::Closed => ResponseView::Closed,
        }
    }
}

/// What the user is shown: the warning for the delete mode, and under it the
/// names of the branches that will go.
#[derive(Debug, Clone, PartialEq, Eq)]
pub struct Prompt {
    pub message: String,
    pub names: Vec<String>,
}

/// Space, tab, line feed or carriage return.
pub open spec fn is_blank(byte: u8) -> bool {
    byte == 32 || byte == 9 || byte == 10 || byte == 13
}

/// `byte` is the lower-case ASCII letter `letter` or its capital.
pub open spec fn is_letter(byte: u8, letter: u8) -> bool {
    byte == letter || byte + 32 == letter
}

/// The number of blanks that `s` starts with.
pub open spec fn leading_blanks(s: Seq<u8>) -> int
    decreases s.len(),
{
    if s.len() == 0 || !is_blank(s[0]) {
        0
    } else {
        1 + leading_blanks(s.drop_first())
    }
}

/// The number of blanks that `s` ends with.
pub open spec fn trailing_blanks(s: Seq<u8>) -> int
    decreases s.len(),
{
    if s.len() == 0 || !is_blank(s.last()) {
        0
    } else {
        1 + trailing_blanks(s.drop_last())
    }
}

/// `s` without the blanks around it.
pub open spec fn trimmed(s: Seq<u8>) -> Seq<u8> {
    let rest = s.skip(leading_blanks(s));
    rest.take(rest.len() - trailing_blanks(rest))
}

/// The word is `y` or `yes`, in capitals or not.
pub open spec fn is_yes(word: Seq<u8>) -> bool {
    ||| word.len() == 1 && is_letter(word[0], 121)
    ||| word.len() == 3 && is_letter(word[0], 121) && is_letter(word[1], 101) && is_letter(
        word[2],
        115,
    )
}

/// The line says yes: apart from blanks around it, it is `y` or `yes`.
pub open spec fn affirmative(line: Seq<char>) -> bool {
    is_yes(trimmed(encode_utf8(line)))
}

/// The run may go on to delete: either nobody has to be asked, or the user
/// said yes. Everything else is a refusal, a closed input too.
pub open spec fn approves(options: OptionsView, response: ResponseView) -> bool {
    options.skip_confirmation || (response matches ResponseView::Line(line) && affirmative(line))
}

/// The plan that is carried out after the user was asked: the whole plan
/// after an approval, and nothing after a refusal.
pub open spec fn effective(plan: Seq<Target>, approved: bool) -> Seq<Target> {
    if approved {
        plan
    } else {
        Seq::empty()
    }
}

/// The names in a plan, each once, in the order of the plan.
pub open spec fn names_in(plan: Seq<Target>) -> Seq<Seq<char>>
    decreases plan.len(),
{
    if plan.len() == 0 {
        Seq::empty()
    } else {
        let earlier = names_in(plan.drop_last());
        if plan.len() >= 2 && plan[plan.len() - 2].name == plan.last().name {
            earlier
        } else {
            earlier.push(plan.last().name)
        }
    }
}

/// The leading blanks end at the first byte that is no blank.
pub proof fn lemma_leading_blanks(s: Seq<u8>, n: int)
    requires
        0 <= n <= s.len(),
        forall|j: int| 0 <= j < n ==> is_blank(#[trigger] s[j]),
        n < s.len() ==> !is_blank(s[n]),
    ensures
        leading_blanks(s) == n,
    decreases n,
{
    if n > 0 {
        let rest = s.drop_first();
        assert(is_blank(s[0]));
        assert forall|j: int| 0 <= j < n - 1 implies is_blank(#[trigger] rest[j]) by {
            assert(rest[j] == s[j + 1]);
        }
        if n < s.len() {
            assert(rest[n - 1] == s[n]);
        }
        lemma_leading_blanks(rest, n - 1);
    }
}

/// The trailing blanks start after the last byte that is no blank.
pub proof fn lemma_trailing_blanks(s: Seq<u8>, n: int)
    requires
        0 <= n <= s.len(),
        forall|j: int| s.len() - n <= j < s.len() ==> is_blank(#[trigger] s[j]),
        n < s.len() ==> !is_blank(s[s.len() - n - 1]),
    ensures
        trailing_blanks(s) == n,
    decreases n,
{
    if n > 0 {
        let rest = s.drop_last();
        assert(is_blank(s[s.len() - 1]));
        assert forall|j: int| rest.len() - (n - 1) <= j < rest.len() implies is_blank(
            #[trigger] rest[j],
        ) by {
            assert(rest[j] == s[j]);
        }
        if n < s.len() {
            assert(rest[rest.len() - (n - 1) - 1] == s[s.len() - n - 1]);
        }
        lemma_trailing_blanks(rest, n - 1);
    }
}

/// Whether `byte` is a blank.
fn blank(byte: u8) -> (yes: bool)
    ensures
        yes == is_blank(byte),
{
    byte == 32 || byte == 9 || byte == 10 || byte == 13
}

/// Whether `byte` is the lower-case ASCII letter `letter` or its capital.
fn reads_as(byte: u8, lower: u8) -> (yes: bool)
    requires
        lower >= 32,
    ensures
        yes == is_letter(byte, lower),
{
    byte == lower || byte == lower - 32
}

/// Whether a typed line says yes.
pub fn is_affirmative(line: &str) -> (yes: bool)
    ensures
        yes == affirmative(line@),
{
    let s = line.as_bytes();
    let mut start: usize = 0;
    while start < s.len() && blank(s[start])
        invariant
            start <= s.len(),
            forall|j: int| 0 <= j < start ==> is_blank(#[trigger] s@[j]),
        decreases s.len() - start,
    {
        start += 1;
    }
    let mut end: usize = s.len();
    while end > start && blank(s[end - 1])
        invariant
            start <= end <= s.len(),
            forall|j: int| end <= j < s.len() ==> is_blank(#[trigger] s@[j]),
        decreases end,
    {
        end -= 1;
    }
    proof {
        lemma_leading_blanks(s@, start as int);
        let rest = s@.skip(start as int);
        assert forall|j: int| rest.len() - (s.len() - end) <= j < rest.len() implies is_blank(
            #[trigger] rest[j],
        ) by {
            assert(rest[j] == s@[j + start]);
        }
        if s.len() - end < rest.len() {
            assert(rest[rest.len() - (s.len() - end) - 1] == s@[end - 1]);
        }
        lemma_trailing_blanks(rest, (s.len() - end) as int);
        assert(trimmed(s@) =~= s@.subrange(start as int, end as int));
    }
    let n: usize = end - start;
    if n == 1 {
        reads_as(s[start], 121)
    } else if n == 3 {
        reads_as(s[start], 121) && reads_as(s[start + 1], 101) && reads_as(s[start + 2], 115)
    } else {
        false
    }
}

/// Decides whether the run may delete. With confirmation switched off it
/// lets the run pass without looking at the response. Otherwise only a
/// line that says yes lets it pass.
pub fn confirm(options: &Options, response: &Response) -> (approved: bool)
    ensures
        approved == approves(options@, response@),
{
    if options.skip_confirmation {
        return true;
    }
    match response {
        Response::Line(line) => is_affirmative(line.as_str()),
        Response::Closed => false,
    }
}

/// The plan to carry out once the user has answered: all of it after an
/// approval, none of it after a refusal.
pub fn effective_plan(plan: DeletionPlan, approved: bool) -> (effective_plan: DeletionPlan)
    ensures
        effective_plan@ == effective(plan@, approved),
{
    if approved {
        plan
    } else {
        DeletionPlan::empty()
    }
}

/// The names to show to the user: every planned name once, in plan order.
pub fn plan_names(plan: &DeletionPlan) -> (names: Vec<String>)
    ensures
        names.deep_view() == names_in(plan@),
{
    let entries = plan.entries();
    let mut names: Vec<String> = Vec::new();
    let mut i: usize = 0;
    proof {
        assert(plan@.take(0) =~= Seq::empty());
        assert(names.deep_view() =~= Seq::<Seq<char>>::empty());
    }
    while i < entries.len()
        invariant
            i <= entries.len(),
            entries.deep_view() == plan@,
            names.deep_view() == names_in(plan@.take(i as int)),
        decreases entries.len() - i,
    {
        let ghost before = names.deep_view();
        proof {
            let upto = plan@.take(i + 1);
            assert(upto.drop_last() =~= plan@.take(i as int));
            assert(upto.last() == entries[i as int]@);
            if i >= 1 {
                assert(upto[upto.len() - 2] == entries[i - 1]@);
            }
        }
        if i == 0 || !same_name(entries[i - 1].name.as_str(), entries[i].name.as_str()) {
            names.push(entries[i].name.clone());
            proof {
                assert(names.deep_view() =~= before.push(entries[i as int]@.name));
            }
        }
        i += 1;
    }
    proof {
        assert(plan@.take(entries.len() as int) =~= plan@);
    }
    names
}

/// What to show to the user before the plan is carried out.
pub fn prompt(plan: &DeletionPlan, options: &Options) -> (prompt: Prompt)
    ensures
        prompt.message@ == options.delete_mode.warning(),
        prompt.names.deep_view() == names_in(plan@),
{
    Prompt { message: options.delete_mode.warning_message(), names: plan_names(plan) }
}

/// A refusal leaves nothing to carry out.
pub proof fn law_refusal_empties_plan(
    plan: Seq<Target>,
    options: OptionsView,
    response: ResponseView,
)
    requires
        !approves(options, response),
    ensures
        effective(plan, approves(options, response)).len() == 0,
{
}

} // verus!
