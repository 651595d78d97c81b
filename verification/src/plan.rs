//! Loading and validating the package manager's install plan.
//!
//! The plan document lists entries of several kinds. Exactly one entry of
//! the configured kind names the project being built and carries its
//! distribution directory; pre-existing entries name already-built
//! dependencies; entries of any other kind are ignored for forward
//! compatibility.

use vstd::prelude::*;
use crate::error::LinkError;

verus! {

/// One entry of the install plan: its kind tag, its unique identifier
/// (name, version and hash), and, for the configured entry only, the
/// distribution directory of the build output.
#[derive(Debug, PartialEq, Eq)]
pub struct PlanEntry {
    pub kind: String,
    pub id: String,
    pub dist_dir: Option<String>,
}

impl Clone for PlanEntry {
    fn clone(&self) -> (r: Self)
        ensures
            r == *self,
    {
        PlanEntry {
            kind: self.kind.clone(),
            id: self.id.clone(),
            dist_dir: match &self.dist_dir {
                Some(d) => Some(d.clone()),
                None => None,
            },
        }
    }
}

/// The entry names the project being built.
pub open spec fn is_configured(e: PlanEntry) -> bool {
    e.kind@ == "configured"@
}

/// The entry names an already-built dependency.
pub open spec fn is_pre_existing(e: PlanEntry) -> bool {
    e.kind@ == "pre-existing"@
}

/// The first configured entry of the plan stands at index `i`.
pub open spec fn configured_at(s: Seq<PlanEntry>, i: int) -> bool {
    &&& 0 <= i < s.len()
    &&& is_configured(s[i])
    &&& forall|j: int| 0 <= j < i ==> !is_configured(s[j])
}

/// No entry of the plan is configured.
pub open spec fn no_configured(s: Seq<PlanEntry>) -> bool {
    forall|j: int| 0 <= j < s.len() ==> !is_configured(s[j])
}

/// The pre-existing entries of the plan, in plan order.
pub open spec fn deps_of(s: Seq<PlanEntry>) -> Seq<PlanEntry>
    decreases s.len(),
{
    if s.len() == 0 {
        Seq::empty()
    } else if is_pre_existing(s.last()) {
        deps_of(s.drop_last()).push(s.last())
    } else {
        deps_of(s.drop_last())
    }
}

/// How many entries of the plan are pre-existing.
pub open spec fn pre_existing_count(s: Seq<PlanEntry>) -> nat
    decreases s.len(),
{
    if s.len() == 0 {
        0
    } else if is_pre_existing(s.last()) {
        pre_existing_count(s.drop_last()) + 1
    } else {
        pre_existing_count(s.drop_last())
    }
}

/// The read-only view over a validated plan: the project's identifier and
/// distribution directory, the toolchain identifier, and the dependencies
/// in plan order.
#[derive(Debug)]
pub struct LoadedPlan {
    pub project_id: String,
    pub compiler_id: String,
    pub dist_dir: String,
    pub dependencies: Vec<PlanEntry>,
}

/// The plan's output directory: a fixed subdirectory of the project path.
pub fn plan_output_dir(project_path: &str) -> (r: String)
    ensures
        r@ == crate::resolve::join_model(project_path@, "dist-newstyle"@),
{
    crate::resolve::join_path(project_path, "dist-newstyle")
}

/// Where the plan document lies under the output directory: a fixed
/// relative path into the cache subdirectory.
pub fn plan_document_path(output_dir: &str) -> (r: String)
    ensures
        r@ == crate::resolve::join_model(output_dir@, "cache/plan.json"@),
{
    crate::resolve::join_path(output_dir, "cache/plan.json")
}

/// Index of the first configured entry, if any.
fn find_configured(entries: &Vec<PlanEntry>) -> (r: Option<usize>)
    ensures
        match r {
            Some(i) => configured_at(entries@, i as int),
            None => no_configured(entries@),
        },
{
    let configured_kind: String = "configured".to_owned();
    let n = entries.len();
    let mut i: usize = 0;
    while i < n
        invariant
            0 <= i <= n,
            n == entries@.len(),
            configured_kind@ == "configured"@,
            forall|j: int| 0 <= j < i ==> !is_configured(entries@[j]),
        decreases n - i,
    {
        if entries[i].kind == configured_kind {
            return Some(i);
        }
        i += 1;
    }
    None
}

/// Validates a decoded plan document. The single configured entry gives the
/// project identifier and distribution directory; the pre-existing entries
/// become the dependencies, in plan order; entries of any other kind are
/// discarded. A plan with no configured entry, or whose first configured
/// entry has no distribution directory, is rejected.
pub fn load_plan(compiler_id: String, entries: &Vec<PlanEntry>) -> (r: Result<
    LoadedPlan,
    LinkError,
>)
    ensures
        no_configured(entries@) ==> r == Err::<LoadedPlan, LinkError>(
            LinkError::MissingConfiguredEntry,
        ),
        forall|i: int|
            configured_at(entries@, i) && entries@[i].dist_dir is None ==> r == Err::<
                LoadedPlan,
                LinkError,
            >(LinkError::MissingConfiguredEntry),
        r is Ok ==> exists|i: int|
            {
                &&& configured_at(entries@, i)
                &&& entries@[i].dist_dir is Some
                &&& r->Ok_0.project_id == entries@[i].id
                &&& r->Ok_0.dist_dir == entries@[i].dist_dir->0
            },
        r is Ok ==> r->Ok_0.compiler_id == compiler_id && r->Ok_0.dependencies@ == deps_of(
            entries@,
        ),
        r is Err ==> r->Err_0 == LinkError::MissingConfiguredEntry,
        r is Err ==> no_configured(entries@) || exists|i: int|
            configured_at(entries@, i) && entries@[i].dist_dir is None,
{
    let conf = match find_configured(entries) {
        None => {
            return Err(LinkError::MissingConfiguredEntry);
        },
        Some(i) => i,
    };
    let dist_dir = match &entries[conf].dist_dir {
        None => {
            return Err(LinkError::MissingConfiguredEntry);
        },
        Some(d) => d.clone(),
    };
    let pre_existing_kind: String = "pre-existing".to_owned();
    let n = entries.len();
    let mut dependencies: Vec<PlanEntry> = Vec::new();
    let mut k: usize = 0;
    while k < n
        invariant
            0 <= k <= n,
            n == entries@.len(),
            pre_existing_kind@ == "pre-existing"@,
            dependencies@ == deps_of(entries@.take(k as int)),
        decreases n - k,
    {
        if entries[k].kind == pre_existing_kind {
            dependencies.push(entries[k].clone());
        }
        proof {
            assert(entries@.take(k + 1int).drop_last() =~= entries@.take(k as int));
            assert(entries@.take(k + 1int).last() == entries@[k as int]);
        }
        k += 1;
    }
    proof {
        assert(entries@.take(n as int) =~= entries@);
    }
    Ok(LoadedPlan { project_id: entries[conf].id.clone(), compiler_id, dist_dir, dependencies })
}

/// The dependency sequence of a plan counts its pre-existing entries
/// exactly.
pub proof fn lemma_deps_of_count(s: Seq<PlanEntry>)
    ensures
        deps_of(s).len() == pre_existing_count(s),
    decreases s.len(),
{
    if s.len() > 0 {
        lemma_deps_of_count(s.drop_last());
    }
}

/// Law: the dependencies partition the plan: every dependency is a
/// pre-existing entry of the plan, and every pre-existing entry of the plan
/// is a dependency.
pub proof fn lemma_deps_of_partition(s: Seq<PlanEntry>)
    ensures
        forall|k: int|
            0 <= k < deps_of(s).len() ==> is_pre_existing(#[trigger] deps_of(s)[k]) && s.contains(
                deps_of(s)[k],
            ),
        forall|j: int|
            0 <= j < s.len() && is_pre_existing(s[j]) ==> deps_of(s).contains(#[trigger] s[j]),
    decreases s.len(),
{
    if s.len() > 0 {
        let prefix = s.drop_last();
        lemma_deps_of_partition(prefix);
        let all = deps_of(s);
        let init = deps_of(prefix);
        assert forall|k: int| 0 <= k < all.len() implies is_pre_existing(#[trigger] all[k])
            && s.contains(all[k]) by {
            if k < init.len() {
                assert(all[k] == init[k]);
                let w = choose|w: int| 0 <= w < prefix.len() && prefix[w] == init[k];
                assert(s[w] == all[k]);
            } else {
                assert(all[k] == s.last());
                assert(s[s.len() - 1] == s.last());
            }
        }
        assert forall|j: int|
            0 <= j < s.len() && is_pre_existing(s[j]) implies all.contains(#[trigger] s[j]) by {
            if j < s.len() - 1 {
                assert(prefix[j] == s[j]);
                assert(init.contains(s[j]));
                let w = choose|w: int| 0 <= w < init.len() && init[w] == s[j];
                assert(all[w] == s[j]);
            } else {
                assert(all.last() == s[j]);
            }
        }
    }
}

/// Law: a plan with exactly one configured entry, wherever it stands, and
/// any number of pre-existing entries loads through its configured entry,
/// and the dependencies count the pre-existing entries exactly.
pub proof fn lemma_unique_configured_loads(s: Seq<PlanEntry>, i: int)
    requires
        0 <= i < s.len(),
        is_configured(s[i]),
        forall|j: int| 0 <= j < s.len() && j != i ==> !is_configured(s[j]),
    ensures
        configured_at(s, i),
        forall|j: int| configured_at(s, j) ==> j == i,
        deps_of(s).len() == pre_existing_count(s),
{
    lemma_deps_of_count(s);
}

} // verus!
