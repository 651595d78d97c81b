//! Computing the ordered linker directives for a loaded plan.
//!
//! For each dependency, in plan order, the resolver emits a search path
//! under the toolchain's library directory, a link request for the
//! dependency's library, and a runtime search path; the project's own
//! directives come last, after all dependencies, because link order matters
//! to the linker. Static mode is rejected outright: the support libraries
//! it would need cannot yet be located.

use vstd::prelude::*;
use vstd::string::StringExecFns;
use crate::error::LinkError;
use crate::plan::{LoadedPlan, PlanEntry};
use crate::text::{has_prefix, str_has_prefix};

verus! {

/// How the foreign libraries are linked into the host program.
#[derive(Clone, Copy, Debug, PartialEq, Eq, Structural)]
pub enum LinkMode {
    Static,
    Dynamic,
}

/// One instruction to the linker: a library search path, a request to link
/// a named library, or a runtime search path embedded into the binary.
#[derive(Debug, PartialEq, Eq)]
pub enum LinkDirective {
    SearchPath { path: String },
    LinkLibrary { mode: LinkMode, name: String },
    RuntimePath { path: String },
}

/// The mathematical shape of a linker directive: the same three
/// instructions over character sequences.
pub enum Directive {
    SearchPath { path: Seq<char> },
    LinkLibrary { mode: LinkMode, name: Seq<char> },
    RuntimePath { path: Seq<char> },
}

impl View for LinkDirective {
    type V = Directive;

    open spec fn view(&self) -> Directive {
        match self {
            LinkDirective::SearchPath { path } => Directive::SearchPath { path: path@ },
            LinkDirective::LinkLibrary { mode, name } => Directive::LinkLibrary {
                mode: *mode,
                name: name@,
            },
            LinkDirective::RuntimePath { path } => Directive::RuntimePath { path: path@ },
        }
    }
}

/// The views of a directive sequence.
pub open spec fn directive_views(s: Seq<LinkDirective>) -> Seq<Directive> {
    s.map_values(|d: LinkDirective| d@)
}

/// The name of the library built from the unit `name`: the runtime's
/// library prefix before the unit name and, in dynamic mode only, the
/// toolchain-version suffix after it.
pub open spec fn library_name_model(mode: LinkMode, name: Seq<char>, version: Seq<char>) -> Seq<
    char,
> {
    match mode {
        LinkMode::Static => "HS"@ + name,
        LinkMode::Dynamic => "HS"@ + name + "-ghc"@ + version,
    }
}

/// Law: the dynamic library name is exactly the static one with the
/// version-qualified suffix appended; the static one carries no suffix.
pub proof fn lemma_library_name_suffix(name: Seq<char>, version: Seq<char>)
    ensures
        library_name_model(LinkMode::Dynamic, name, version) == library_name_model(
            LinkMode::Static,
            name,
            version,
        ) + "-ghc"@ + version,
        library_name_model(LinkMode::Static, name, version) == "HS"@ + name,
{
}

/// Computes the library name for one logical unit under the given mode and
/// toolchain version.
pub fn library_name(mode: LinkMode, name: &str, version: &str) -> (r: String)
    ensures
        r@ == library_name_model(mode, name@, version@),
{
    let mut s: String = "HS".to_owned();
    s.append(name);
    match mode {
        LinkMode::Static => {},
        LinkMode::Dynamic => {
            s.append("-ghc");
            s.append(version);
        },
    }
    s
}

/// `component` placed under the directory `base`.
pub open spec fn join_model(base: Seq<char>, component: Seq<char>) -> Seq<char> {
    base + "/"@ + component
}

/// Joins a path component onto a base directory.
pub fn join_path(base: &str, component: &str) -> (r: String)
    ensures
        r@ == join_model(base@, component@),
{
    let mut s: String = base.to_owned();
    s.append("/");
    s.append(component);
    s
}

/// The three directives of one dependency: a search path at the
/// dependency's directory under the toolchain library directory, the link
/// request for its dynamic library, and a runtime search path at the same
/// directory.
pub open spec fn entry_directives(e: PlanEntry, version: Seq<char>, libdir: Seq<char>) -> Seq<
    Directive,
> {
    seq![
        Directive::SearchPath { path: join_model(libdir, e.id@) },
        Directive::LinkLibrary {
            mode: LinkMode::Dynamic,
            name: library_name_model(LinkMode::Dynamic, e.id@, version),
        },
        Directive::RuntimePath { path: join_model(libdir, e.id@) },
    ]
}

/// The directives of all dependencies, in plan order.
pub open spec fn dependency_directives(
    deps: Seq<PlanEntry>,
    version: Seq<char>,
    libdir: Seq<char>,
) -> Seq<Directive>
    decreases deps.len(),
{
    if deps.len() == 0 {
        Seq::empty()
    } else {
        dependency_directives(deps.drop_last(), version, libdir) + entry_directives(
            deps.last(),
            version,
            libdir,
        )
    }
}

/// The three directives of the project itself: a search path at the build
/// directory under its distribution directory, the link request for its
/// dynamic library, and a runtime search path at the build directory.
pub open spec fn project_directives(plan: LoadedPlan, version: Seq<char>) -> Seq<Directive> {
    seq![
        Directive::SearchPath { path: join_model(plan.dist_dir@, "build"@) },
        Directive::LinkLibrary {
            mode: LinkMode::Dynamic,
            name: library_name_model(LinkMode::Dynamic, plan.project_id@, version),
        },
        Directive::RuntimePath { path: join_model(plan.dist_dir@, "build"@) },
    ]
}

/// Every directive of a dynamic resolution: the dependencies' directives in
/// plan order, then the project's own.
pub open spec fn resolve_model(plan: LoadedPlan, version: Seq<char>, libdir: Seq<char>) -> Seq<
    Directive,
> {
    dependency_directives(plan.dependencies@, version, libdir) + project_directives(plan, version)
}

/// Law: directives come in blocks of three, one block per dependency in
/// plan order, and the project's block stands last, after every
/// dependency's.
pub proof fn lemma_directive_order(plan: LoadedPlan, version: Seq<char>, libdir: Seq<char>)
    ensures
        resolve_model(plan, version, libdir).len() == 3 * plan.dependencies@.len() + 3,
        forall|i: int|
            0 <= i < plan.dependencies@.len() ==> resolve_model(plan, version, libdir).subrange(
                3 * i,
                3 * i + 3,
            ) =~= entry_directives(plan.dependencies@[i], version, libdir),
        resolve_model(plan, version, libdir).subrange(
            3 * plan.dependencies@.len() as int,
            3 * plan.dependencies@.len() as int + 3,
        ) =~= project_directives(plan, version),
{
    lemma_dependency_directive_order(plan.dependencies@, version, libdir);
    let whole = resolve_model(plan, version, libdir);
    let deps = dependency_directives(plan.dependencies@, version, libdir);
    assert forall|i: int| 0 <= i < plan.dependencies@.len() implies whole.subrange(
        3 * i,
        3 * i + 3,
    ) =~= entry_directives(plan.dependencies@[i], version, libdir) by {
        assert(whole.subrange(3 * i, 3 * i + 3) =~= deps.subrange(3 * i, 3 * i + 3));
    }
}

/// The dependency directives consist of one block of three per dependency,
/// in plan order.
pub proof fn lemma_dependency_directive_order(
    deps: Seq<PlanEntry>,
    version: Seq<char>,
    libdir: Seq<char>,
)
    ensures
        dependency_directives(deps, version, libdir).len() == 3 * deps.len(),
        forall|i: int|
            0 <= i < deps.len() ==> dependency_directives(deps, version, libdir).subrange(
                3 * i,
                3 * i + 3,
            ) =~= entry_directives(deps[i], version, libdir),
    decreases deps.len(),
{
    if deps.len() > 0 {
        let prefix = deps.drop_last();
        lemma_dependency_directive_order(prefix, version, libdir);
        let all = dependency_directives(deps, version, libdir);
        let init = dependency_directives(prefix, version, libdir);
        assert forall|i: int| 0 <= i < deps.len() implies all.subrange(3 * i, 3 * i + 3)
            =~= entry_directives(deps[i], version, libdir) by {
            if i < deps.len() - 1 {
                assert(all.subrange(3 * i, 3 * i + 3) =~= init.subrange(3 * i, 3 * i + 3));
                assert(deps[i] == prefix[i]);
            } else {
                assert(all.subrange(3 * i, 3 * i + 3) =~= entry_directives(
                    deps.last(),
                    version,
                    libdir,
                ));
            }
        }
    }
}

/// Whether the requested mode is supported; static linking is not, because
/// its transitive support libraries cannot yet be located.
pub fn mode_supported(mode: LinkMode) -> (r: Result<(), LinkError>)
    ensures
        mode is Dynamic ==> r is Ok,
        mode is Static ==> r == Err::<(), LinkError>(LinkError::UnsupportedLinkMode),
{
    match mode {
        LinkMode::Static => Err(LinkError::UnsupportedLinkMode),
        LinkMode::Dynamic => Ok(()),
    }
}

/// Whether the plan's toolchain identifier names a supported compiler.
pub fn compiler_supported(plan: &LoadedPlan) -> (r: bool)
    ensures
        r == has_prefix(plan.compiler_id@, "ghc"@),
{
    str_has_prefix(plan.compiler_id.as_str(), "ghc")
}

/// Computes every linker directive for the plan under the given mode, from
/// the toolchain's version string and library directory. Static mode is
/// rejected whatever the plan holds; an unsupported toolchain identifier is
/// rejected next; otherwise the result is exactly the model sequence:
/// three directives per dependency in plan order, then the project's three.
pub fn resolve_directives(
    plan: &LoadedPlan,
    mode: LinkMode,
    ghc_version: &str,
    ghc_libdir: &str,
) -> (r: Result<Vec<LinkDirective>, LinkError>)
    ensures
        mode is Static ==> r == Err::<Vec<LinkDirective>, LinkError>(
            LinkError::UnsupportedLinkMode,
        ),
        mode is Dynamic && !has_prefix(plan.compiler_id@, "ghc"@) ==> r == Err::<
            Vec<LinkDirective>,
            LinkError,
        >(LinkError::UnsupportedCompiler),
        mode is Dynamic && has_prefix(plan.compiler_id@, "ghc"@) ==> r is Ok && directive_views(
            r->Ok_0@,
        ) == resolve_model(*plan, ghc_version@, ghc_libdir@),
{
    match mode {
        LinkMode::Static => {
            return Err(LinkError::UnsupportedLinkMode);
        },
        LinkMode::Dynamic => {},
    }
    if !compiler_supported(plan) {
        return Err(LinkError::UnsupportedCompiler);
    }
    let mut out: Vec<LinkDirective> = Vec::new();
    let n = plan.dependencies.len();
    let mut i: usize = 0;
    while i < n
        invariant
            0 <= i <= n,
            n == plan.dependencies@.len(),
            directive_views(out@) == dependency_directives(
                plan.dependencies@.take(i as int),
                ghc_version@,
                ghc_libdir@,
            ),
        decreases n - i,
    {
        let dep_id = plan.dependencies[i].id.as_str();
        let dir = join_path(ghc_libdir, dep_id);
        out.push(LinkDirective::SearchPath { path: dir.clone() });
        out.push(
            LinkDirective::LinkLibrary {
                mode: LinkMode::Dynamic,
                name: library_name(LinkMode::Dynamic, dep_id, ghc_version),
            },
        );
        out.push(LinkDirective::RuntimePath { path: dir });
        proof {
            let taken = plan.dependencies@.take(i + 1int);
            assert(taken.drop_last() =~= plan.dependencies@.take(i as int));
            assert(taken.last() == plan.dependencies@[i as int]);
            assert(directive_views(out@) =~= dependency_directives(
                taken,
                ghc_version@,
                ghc_libdir@,
            ));
        }
        i += 1;
    }
    let build_dir = join_path(plan.dist_dir.as_str(), "build");
    out.push(LinkDirective::SearchPath { path: build_dir.clone() });
    out.push(
        LinkDirective::LinkLibrary {
            mode: LinkMode::Dynamic,
            name: library_name(LinkMode::Dynamic, plan.project_id.as_str(), ghc_version),
        },
    );
    out.push(LinkDirective::RuntimePath { path: build_dir });
    proof {
        assert(plan.dependencies@.take(n as int) =~= plan.dependencies@);
        assert(directive_views(out@) =~= resolve_model(*plan, ghc_version@, ghc_libdir@));
    }
    Ok(out)
}

} // verus!
