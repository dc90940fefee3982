//! Branches, where they live, and which of the listed names are candidates
//! for deletion at all.

use vstd::prelude::*;
use vstd::string::*;
use vstd::utf8::*;

use crate::error::{AdapterError, Error};
use crate::text::{contains, ends_with, occurs_in, same_name};

verus! {

/// Where a branch lives: in the local clone or on the configured remote.
#[derive(Debug, Clone, Copy, PartialEq, Eq, Structural)]
pub enum Scope {
    Local,
    Remote,
}

/// A branch. Local names and remote names are separate namespaces, so a
/// branch is identified by its name together with its scope.
#[derive(Debug, Clone, PartialEq, Eq)]
pub struct Branch {
    pub name: String,
    pub scope: Scope,
    /// Whether this is the base branch itself.
    pub is_base: bool,
}

/// A branch as specifications see it.
pub struct BranchView {
    pub name: Seq<char>,
    pub scope: Scope,
    pub is_base: bool,
}

impl View for Branch {
    type V = BranchView;

    open spec fn view(&self) -> BranchView {
        BranchView { name: self.name@, scope: self.scope, is_base: self.is_base }
    }
}

impl DeepView for Branch {
    type V = BranchView;

    open spec fn deep_view(&self) -> BranchView {
        self@
    }
}

impl Branch {
    /// A copy of this branch.
    pub fn duplicate(&self) -> (copy: Branch)
        ensures
            copy@ == self@,
    {
        Branch { name: self.name.clone(), scope: self.scope, is_base: self.is_base }
    }
}

/// A listed name that points at `HEAD` instead of naming a branch: `HEAD`
/// itself, a name whose last component is `HEAD`, or a line that shows where
/// a symbolic ref points (`origin/HEAD -> origin/main`).
pub open spec fn is_head_pointer(name: Seq<char>) -> bool {
    ||| name == "HEAD"@
    ||| encode_utf8("/HEAD"@).is_suffix_of(encode_utf8(name))
    ||| occurs_in(encode_utf8(name), encode_utf8(" -> "@))
}

/// A listed name that may be considered for deletion: neither the base
/// branch nor a pointer at `HEAD`.
pub open spec fn is_candidate(name: Seq<char>, base: Seq<char>) -> bool {
    name != base && !is_head_pointer(name)
}

/// The candidate named `name` in `scope`.
pub open spec fn candidate(name: Seq<char>, scope: Scope) -> BranchView {
    BranchView { name, scope, is_base: false }
}

/// The candidates among the listed names, in the order of the listing.
pub open spec fn candidates(names: Seq<Seq<char>>, scope: Scope, base: Seq<char>) -> Seq<
    BranchView,
>
    decreases names.len(),
{
    if names.len() == 0 {
        Seq::empty()
    } else {
        let earlier = candidates(names.drop_last(), scope, base);
        if is_candidate(names.last(), base) {
            earlier.push(candidate(names.last(), scope))
        } else {
            earlier
        }
    }
}

/// The candidates are exactly the listed names that are neither the base
/// branch nor a pointer at `HEAD`; each lives in the listed scope and none is
/// marked as the base branch.
pub proof fn law_candidates_are_the_listed_branches(
    names: Seq<Seq<char>>,
    scope: Scope,
    base: Seq<char>,
)
    ensures
        forall|b: BranchView| #[trigger]
            candidates(names, scope, base).contains(b) <==> names.contains(b.name) && is_candidate(
                b.name,
                base,
            ) && b == candidate(b.name, scope),
    decreases names.len(),
{
    let found = candidates(names, scope, base);
    if names.len() == 0 {
    } else {
        let earlier = candidates(names.drop_last(), scope, base);
        law_candidates_are_the_listed_branches(names.drop_last(), scope, base);
        assert forall|b: BranchView| #[trigger]
            found.contains(b) <==> names.contains(b.name) && is_candidate(b.name, base) && b
                == candidate(b.name, scope) by {
            let last = names.last();
            if found.contains(b) {
                let i = choose|i: int| 0 <= i < found.len() && found[i] == b;
                if i < earlier.len() {
                    assert(earlier.contains(b));
                    let j = choose|j: int|
                        0 <= j < names.drop_last().len() && names.drop_last()[j] == b.name;
                    assert(names[j] == b.name);
                } else {
                    assert(b == candidate(last, scope));
                    assert(names[names.len() - 1] == last);
                }
            }
            if names.contains(b.name) && is_candidate(b.name, base) && b == candidate(
                b.name,
                scope,
            ) {
                let j = choose|j: int| 0 <= j < names.len() && names[j] == b.name;
                if j < names.len() - 1 {
                    assert(names.drop_last()[j] == b.name);
                    assert(earlier.contains(b));
                    let i = choose|i: int| 0 <= i < earlier.len() && earlier[i] == b;
                    assert(found[i] == b);
                } else {
                    assert(found[found.len() - 1] == b);
                }
            }
        }
    }
}

/// Whether a listed name points at `HEAD` instead of naming a branch.
pub fn points_at_head(name: &str) -> (pointer: bool)
    ensures
        pointer == is_head_pointer(name@),
{
    let bytes = name.as_bytes();
    same_name(name, "HEAD") || ends_with(bytes, "/HEAD".as_bytes()) || contains(
        bytes,
        " -> ".as_bytes(),
    )
}

/// Turns the listing of one scope into the branches to consider. The base
/// branch and pointers at `HEAD` are left out; the others keep the order of
/// the listing. A listing that failed is fatal for its scope and comes back
/// as an enumeration error.
pub fn list_branches(
    listing: &Result<Vec<String>, AdapterError>,
    scope: Scope,
    base_branch: &str,
) -> (found: Result<Vec<Branch>, Error>)
    ensures
        match *listing {
            Ok(names) => found matches Ok(branches) && branches.deep_view() == candidates(
                names.deep_view(),
                scope,
                base_branch@,
            ),
            Err(reason) => found matches Err(error) && error == Error::Enumeration(scope, reason),
        },
{
    match listing {
        Err(reason) => Err(Error::Enumeration(scope, *reason)),
        Ok(names) => {
            let mut found: Vec<Branch> = Vec::new();
            let mut i: usize = 0;
            proof {
                assert(names.deep_view().take(0) =~= Seq::empty());
                assert(found.deep_view() =~= Seq::empty());
            }
            while i < names.len()
                invariant
                    i <= names.len(),
                    found.deep_view() == candidates(
                        names.deep_view().take(i as int),
                        scope,
                        base_branch@,
                    ),
                decreases names.len() - i,
            {
                let name = &names[i];
                let ghost before = found.deep_view();
                proof {
                    let upto = names.deep_view().take(i + 1);
                    assert(upto.drop_last() =~= names.deep_view().take(i as int));
                    assert(upto.last() == name@);
                }
                if !same_name(name.as_str(), base_branch) && !points_at_head(name.as_str()) {
                    found.push(Branch { name: name.clone(), scope, is_base: false });
                    proof {
                        assert(found.deep_view() =~= before.push(candidate(name@, scope)));
                    }
                }
                i += 1;
            }
            proof {
                assert(names.deep_view().take(names.len() as int) =~= names.deep_view());
            }
            Ok(found)
        },
    }
}

} // verus!
