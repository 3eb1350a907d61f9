//! Skill spawn resolution: `${SKILL_DIR}` substitution in path-based
//! capabilities and narrowing of a skill's filesystem grant to the
//! caller's `scope_paths`.

use vstd::prelude::*;

use crate::capability::{
    all_covered, cap_eq, capability_debug, capability_debug_text, capability_satisfies, covered_by,
    spec_capability_satisfies, Capability, FsCapability,
};
use crate::text::{chars_of, string_from_chars};

verus! {

/// Errors of multi-agent orchestration operations. Agent and task ids
/// are held as their rendered text.
#[derive(Debug)]
pub enum OrchestrationError {
    /// The parent may not spawn the requested child kind.
    SpawnNotAuthorized { parent: String, kind: String },
    /// A virtual tool call lacks a capability.
    CapabilityMissing { agent: String, needed: String },
    /// A budget was exceeded.
    BudgetExceeded { budget: String, value: u64, limit: u64 },
    /// The child grant is not within the parent grant.
    GrantNotSubset { extras: Vec<String> },
    /// Malformed virtual-tool arguments.
    ArgError { tool: String, detail: String },
    /// No installed skill has this name.
    SkillNotInstalled { name: String },
    /// The skill's install path is missing.
    SkillInstallPathMissing { name: String, expected_path: String },
    /// The skill's SKILL.md could not be read or parsed.
    SkillContentInvalid { name: String, detail: String },
    /// A `scope_paths` entry is covered by no declared fs path.
    SkillScopePathNotCovered { path: String },
    /// The parent may not spawn the requested skill.
    SkillSpawnNotAuthorized { parent: String, name: String },
}

/// The placeholder replaced by a skill's install directory.
pub open spec fn skill_dir_var() -> Seq<char> {
    seq!['$', '{', 'S', 'K', 'I', 'L', 'L', '_', 'D', 'I', 'R', '}']
}

/// `s` with every occurrence of the non-empty `pat` replaced by `rep`,
/// scanning left to right without overlap (std `str::replace`).
pub open spec fn replace_all(s: Seq<char>, pat: Seq<char>, rep: Seq<char>) -> Seq<char>
    decreases s.len(),
{
    if pat.len() == 0 || s.len() < pat.len() {
        s
    } else if s.take(pat.len() as int) == pat {
        rep + replace_all(s.skip(pat.len() as int), pat, rep)
    } else {
        seq![s[0]] + replace_all(s.skip(1), pat, rep)
    }
}

fn starts_with_at(s: &Vec<char>, i: usize, pat: &Vec<char>) -> (r: bool)
    requires
        i <= s@.len(),
    ensures
        r == (i + pat@.len() <= s@.len() && s@.subrange(i as int, i + pat@.len()) == pat@),
{
    if pat.len() > s.len() - i {
        return false;
    }
    let mut j: usize = 0;
    while j < pat.len()
        invariant
            i + pat@.len() <= s@.len(),
            s@.len() <= usize::MAX,
            j <= pat@.len(),
            forall|k: int| 0 <= k < j ==> s@[i + k] == pat@[k],
        decreases pat@.len() - j,
    {
        if s[i + j] != pat[j] {
            return false;
        }
        j = j + 1;
    }
    assert(s@.subrange(i as int, i + pat@.len()) =~= pat@);
    true
}

/// Replaces every occurrence of `pat` in `s` by `rep`.
pub fn replace_all_exec(s: &str, pat: &str, rep: &str) -> (r: String)
    requires
        pat@.len() > 0,
    ensures
        r@ == replace_all(s@, pat@, rep@),
{
    let cs = chars_of(s);
    let ps = chars_of(pat);
    let rs = chars_of(rep);
    let mut out: Vec<char> = Vec::new();
    let mut i: usize = 0;
    assert(cs@.skip(0) =~= cs@);
    while i < cs.len()
        invariant
            cs@ == s@,
            ps@ == pat@,
            rs@ == rep@,
            ps@.len() > 0,
            i <= cs@.len(),
            replace_all(s@, pat@, rep@) == out@ + replace_all(cs@.skip(i as int), pat@, rep@),
        decreases cs@.len() - i,
    {
        let ghost t = cs@.skip(i as int);
        if starts_with_at(&cs, i, &ps) {
            assert(t.take(ps@.len() as int) =~= cs@.subrange(i as int, i + ps@.len()));
            assert(t.skip(ps@.len() as int) =~= cs@.skip(i + ps@.len()));
            let mut k: usize = 0;
            let ghost out0 = out@;
            while k < rs.len()
                invariant
                    k <= rs@.len(),
                    out@ == out0 + rs@.take(k as int),
                decreases rs@.len() - k,
            {
                out.push(rs[k]);
                k = k + 1;
                assert(out@ =~= out0 + rs@.take(k as int));
            }
            assert(rs@.take(rs@.len() as int) =~= rs@);
            assert(out0 + (rs@ + replace_all(t.skip(ps@.len() as int), pat@, rep@)) =~= out@
                + replace_all(t.skip(ps@.len() as int), pat@, rep@));
            i = i + ps.len();
        } else {
            proof {
                if t.len() >= ps@.len() {
                    assert(t.take(ps@.len() as int) =~= cs@.subrange(i as int, i + ps@.len()));
                }
            }
            assert(t.skip(1) =~= cs@.skip(i + 1));
            let ghost out0 = out@;
            out.push(cs[i]);
            assert(out0 + (seq![t[0]] + replace_all(t.skip(1), pat@, rep@)) =~= out@
                + replace_all(t.skip(1), pat@, rep@));
            i = i + 1;
        }
    }
    assert(cs@.skip(i as int) =~= Seq::<char>::empty());
    assert(out@ + Seq::<char>::empty() =~= out@);
    string_from_chars(out.as_slice())
}

/// The views of a list of strings.
pub open spec fn strs(v: Seq<String>) -> Seq<Seq<char>> {
    v.map_values(|s: String| s@)
}

/// `d` is `c` with `f` applied to its path views, for the path-based
/// filesystem capabilities (`max_bytes` of a write grant kept); any other
/// capability is kept as it is.
pub open spec fn fs_paths_mapped(
    c: Capability,
    d: Capability,
    f: spec_fn(Seq<String>) -> Seq<Seq<char>>,
) -> bool {
    match c {
        Capability::Filesystem(FsCapability::Read { paths }) => d matches Capability::Filesystem(
            FsCapability::Read { paths: p2 },
        ) && strs(p2@) == f(paths@),
        Capability::Filesystem(FsCapability::Write { paths, max_bytes }) => d matches Capability::Filesystem(
            FsCapability::Write { paths: p2, max_bytes: m2 },
        ) && strs(p2@) == f(paths@) && m2 == max_bytes,
        Capability::Filesystem(FsCapability::Exec { paths }) => d matches Capability::Filesystem(
            FsCapability::Exec { paths: p2 },
        ) && strs(p2@) == f(paths@),
        _ => cap_eq(d, c),
    }
}

/// Each path with `${SKILL_DIR}` replaced by `install`.
pub open spec fn substituted_paths(paths: Seq<String>, install: Seq<char>) -> Seq<Seq<char>> {
    paths.map_values(|p: String| replace_all(p@, skill_dir_var(), install))
}

fn substitute_paths(paths: &Vec<String>, install: &str) -> (r: Vec<String>)
    ensures
        strs(r@) == substituted_paths(paths@, install@),
{
    let var = string_from_chars(
        vec!['$', '{', 'S', 'K', 'I', 'L', 'L', '_', 'D', 'I', 'R', '}'].as_slice(),
    );
    assert(var@ =~= skill_dir_var());
    let mut out: Vec<String> = Vec::new();
    let mut i: usize = 0;
    while i < paths.len()
        invariant
            var@ == skill_dir_var(),
            i <= paths@.len(),
            out@.len() == i,
            forall|j: int|
                0 <= j < i ==> (#[trigger] out@[j])@ == replace_all(
                    paths@[j]@,
                    skill_dir_var(),
                    install@,
                ),
        decreases paths@.len() - i,
    {
        out.push(replace_all_exec(paths[i].as_str(), var.as_str(), install));
        i = i + 1;
    }
    assert(strs(out@) =~= substituted_paths(paths@, install@));
    out
}

/// A copy of a list of strings.
pub fn clone_strings(v: &Vec<String>) -> (r: Vec<String>)
    ensures
        r@ == v@,
{
    let mut out: Vec<String> = Vec::new();
    let mut i: usize = 0;
    while i < v.len()
        invariant
            i <= v@.len(),
            out@ == v@.take(i as int),
        decreases v@.len() - i,
    {
        out.push(v[i].clone());
        i = i + 1;
        assert(out@ =~= v@.take(i as int));
    }
    assert(v@.take(v@.len() as int) =~= v@);
    out
}

/// A copy of a capability.
pub fn clone_capability(c: &Capability) -> (r: Capability)
    ensures
        cap_eq(r, *c),
{
    match c {
        Capability::Filesystem(FsCapability::Read { paths }) => Capability::Filesystem(
            FsCapability::Read { paths: clone_strings(paths) },
        ),
        Capability::Filesystem(FsCapability::Write { paths, max_bytes }) => Capability::Filesystem(
            FsCapability::Write { paths: clone_strings(paths), max_bytes: *max_bytes },
        ),
        Capability::Filesystem(FsCapability::Exec { paths }) => Capability::Filesystem(
            FsCapability::Exec { paths: clone_strings(paths) },
        ),
        Capability::Network(crate::capability::NetCapability::Http { hosts, methods }) => {
            let h = match hosts {
                crate::capability::NetHosts::Any => crate::capability::NetHosts::Any,
                crate::capability::NetHosts::List(l) => crate::capability::NetHosts::List(
                    clone_strings(l),
                ),
            };
            Capability::Network(
                crate::capability::NetCapability::Http { hosts: h, methods: clone_strings(methods) },
            )
        },
        Capability::Process(crate::capability::ProcessCapability::Spawn { commands }) =>
            Capability::Process(
            crate::capability::ProcessCapability::Spawn { commands: clone_strings(commands) },
        ),
        Capability::Agent(crate::capability::AgentCapability::Spawn { allowed_kinds }) =>
            Capability::Agent(
            crate::capability::AgentCapability::Spawn { allowed_kinds: clone_strings(allowed_kinds) },
        ),
        Capability::TaskList { mode } => Capability::TaskList { mode: mode.clone() },
        Capability::Plan { mode } => Capability::Plan { mode: mode.clone() },
        Capability::Skill(crate::capability::SkillCapability::Spawn { allowed_skills }) =>
            Capability::Skill(
            crate::capability::SkillCapability::Spawn {
                allowed_skills: clone_strings(allowed_skills),
            },
        ),
        Capability::Custom { name, params } => {
            let mut ps: Vec<(String, String)> = Vec::new();
            let mut i: usize = 0;
            while i < params.len()
                invariant
                    i <= params@.len(),
                    ps@ == params@.take(i as int),
                decreases params@.len() - i,
            {
                ps.push((params[i].0.clone(), params[i].1.clone()));
                i = i + 1;
                assert(ps@ =~= params@.take(i as int));
            }
            assert(params@.take(params@.len() as int) =~= params@);
            Capability::Custom { name: name.clone(), params: ps }
        },
    }
}

/// `r` is `caps` with `${SKILL_DIR}` in every filesystem path replaced by
/// `install`.
pub open spec fn substituted_all(caps: Seq<Capability>, install: Seq<char>, r: Seq<Capability>) -> bool {
    &&& r.len() == caps.len()
    &&& forall|i: int|
        0 <= i < caps.len() ==> fs_paths_mapped(
            #[trigger] caps[i],
            r[i],
            |ps: Seq<String>| substituted_paths(ps, install),
        )
}

/// Replaces `${SKILL_DIR}` in the paths of every filesystem capability
/// with the skill's install directory; other capabilities pass through.
pub fn substitute_skill_dir(caps: &[Capability], install_path: &str) -> (r: Vec<Capability>)
    ensures
        substituted_all(caps@, install_path@, r@),
{
    let mut out: Vec<Capability> = Vec::new();
    let mut i: usize = 0;
    while i < caps.len()
        invariant
            i <= caps@.len(),
            out@.len() == i,
            forall|j: int|
                0 <= j < i ==> fs_paths_mapped(
                    #[trigger] caps@[j],
                    out@[j],
                    |ps: Seq<String>| substituted_paths(ps, install_path@),
                ),
        decreases caps@.len() - i,
    {
        let c = &caps[i];
        let d = match c {
            Capability::Filesystem(FsCapability::Read { paths }) => Capability::Filesystem(
                FsCapability::Read { paths: substitute_paths(paths, install_path) },
            ),
            Capability::Filesystem(FsCapability::Write { paths, max_bytes }) =>
                Capability::Filesystem(
                FsCapability::Write {
                    paths: substitute_paths(paths, install_path),
                    max_bytes: *max_bytes,
                },
            ),
            Capability::Filesystem(FsCapability::Exec { paths }) => Capability::Filesystem(
                FsCapability::Exec { paths: substitute_paths(paths, install_path) },
            ),
            _ => clone_capability(c),
        };
        out.push(d);
        i = i + 1;
    }
    out
}

/// Whether `glob` covers `candidate`: what a globset set holding the one
/// glob built from `glob` with `literal_separator(false)` answers for
/// `candidate`; false when `glob` does not compile or the set does not
/// build.
pub uninterp spec fn glob_covers(glob: Seq<char>, candidate: Seq<char>) -> bool;

/// A glob short enough for globset's literal matchers: fewer than 2^28
/// characters, so its literal part stays far below the 2^31 automaton
/// states at which their construction fails and globset unwraps.
pub open spec fn glob_fits(p: Seq<char>) -> bool {
    p.len() < 0x1000_0000
}

/// Every glob of a list fits (see [`glob_fits`]).
pub open spec fn globs_fit(ps: Seq<String>) -> bool {
    forall|i: int| 0 <= i < ps.len() ==> glob_fits(#[trigger] ps[i]@)
}

/// Every filesystem path of a grant fits as a glob.
pub open spec fn cap_globs_fit(caps: Seq<Capability>) -> bool {
    forall|k: int| 0 <= k < caps.len() ==> globs_fit(fs_paths(#[trigger] caps[k]))
}

/// Tests `candidate` against `glob`: globset `GlobBuilder::new(glob)
/// .literal_separator(false).build()`, the glob added to a
/// `GlobSetBuilder` whose `build` compiles it (reporting, not panicking
/// on, a regex over its size limit), then `GlobSet::is_match`. Stated: the
/// answer is the named relation of the two strings; a glob that does not
/// compile or build covers nothing.
#[verifier::external_body]
fn glob_covers_exec(glob: &str, candidate: &str) -> (r: bool)
    requires
        glob_fits(glob@),
    ensures
        r == glob_covers(glob@, candidate@),
{
    match globset::GlobBuilder::new(glob).literal_separator(false).build() {
        Ok(g) => match globset::GlobSetBuilder::new().add(g).build() {
            Ok(set) => set.is_match(candidate),
            Err(_) => false,
        },
        Err(_) => false,
    }
}

/// Some path of `declared` covers `sp`.
pub open spec fn covered_by_any(declared: Seq<String>, sp: Seq<char>) -> bool {
    exists|i: int| 0 <= i < declared.len() && glob_covers(#[trigger] declared[i]@, sp)
}

/// The paths of a filesystem capability; nothing for any other.
pub open spec fn fs_paths(c: Capability) -> Seq<String> {
    match c {
        Capability::Filesystem(FsCapability::Read { paths }) => paths@,
        Capability::Filesystem(FsCapability::Write { paths, .. }) => paths@,
        Capability::Filesystem(FsCapability::Exec { paths }) => paths@,
        _ => seq![],
    }
}

/// Some declared filesystem path of `caps` covers `sp`.
pub open spec fn covered_by_caps(caps: Seq<Capability>, sp: Seq<char>) -> bool {
    exists|k: int| 0 <= k < caps.len() && covered_by_any(fs_paths(#[trigger] caps[k]), sp)
}

/// The scope paths, in order, that some path of `declared` covers.
pub open spec fn narrowed_paths(declared: Seq<String>, scope: Seq<String>) -> Seq<Seq<char>>
    decreases scope.len(),
{
    if scope.len() == 0 {
        seq![]
    } else {
        let prev = narrowed_paths(declared, scope.drop_last());
        if covered_by_any(declared, scope.last()@) {
            prev.push(scope.last()@)
        } else {
            prev
        }
    }
}

/// A capability survives narrowing: it is not a filesystem one, or some
/// scope path falls within its paths.
pub open spec fn survives(c: Capability, scope: Seq<String>) -> bool {
    c is Filesystem ==> narrowed_paths(fs_paths(c), scope).len() > 0
}

/// The indices of the capabilities that survive narrowing, ascending.
pub open spec fn surviving(caps: Seq<Capability>, scope: Seq<String>) -> Seq<int>
    decreases caps.len(),
{
    if caps.len() == 0 {
        seq![]
    } else {
        let prev = surviving(caps.drop_last(), scope);
        if survives(caps.last(), scope) {
            prev.push(caps.len() - 1)
        } else {
            prev
        }
    }
}

/// The first scope path (by position) that no declared filesystem path
/// covers, if any.
pub open spec fn first_uncovered(caps: Seq<Capability>, scope: Seq<String>) -> Option<int> {
    if exists|i: int| 0 <= i < scope.len() && !covered_by_caps(caps, #[trigger] scope[i]@) {
        Some(
            choose|i: int|
                0 <= i < scope.len() && !covered_by_caps(caps, #[trigger] scope[i]@) && forall|
                    j: int,
                | 0 <= j < i ==> covered_by_caps(caps, #[trigger] scope[j]@),
        )
    } else {
        None
    }
}

fn covered_by_any_exec(declared: &Vec<String>, sp: &str) -> (r: bool)
    requires
        globs_fit(declared@),
    ensures
        r == covered_by_any(declared@, sp@),
{
    let mut i: usize = 0;
    while i < declared.len()
        invariant
            i <= declared@.len(),
            globs_fit(declared@),
            forall|j: int| 0 <= j < i ==> !glob_covers(#[trigger] declared@[j]@, sp@),
        decreases declared@.len() - i,
    {
        if glob_covers_exec(declared[i].as_str(), sp) {
            return true;
        }
        i = i + 1;
    }
    false
}

fn fs_paths_exec(c: &Capability) -> (r: Option<&Vec<String>>)
    ensures
        match r {
            Some(p) => c is Filesystem && p@ == fs_paths(*c),
            None => !(c is Filesystem) && fs_paths(*c) == Seq::<String>::empty(),
        },
{
    match c {
        Capability::Filesystem(FsCapability::Read { paths }) => Some(paths),
        Capability::Filesystem(FsCapability::Write { paths, .. }) => Some(paths),
        Capability::Filesystem(FsCapability::Exec { paths }) => Some(paths),
        _ => None,
    }
}

fn covered_by_caps_exec(caps: &Vec<Capability>, sp: &str) -> (r: bool)
    requires
        cap_globs_fit(caps@),
    ensures
        r == covered_by_caps(caps@, sp@),
{
    let mut k: usize = 0;
    while k < caps.len()
        invariant
            k <= caps@.len(),
            cap_globs_fit(caps@),
            forall|j: int| 0 <= j < k ==> !covered_by_any(fs_paths(#[trigger] caps@[j]), sp@),
        decreases caps@.len() - k,
    {
        match fs_paths_exec(&caps[k]) {
            Some(p) => {
                if covered_by_any_exec(p, sp) {
                    return true;
                }
            },
            None => {
                assert(!covered_by_any(fs_paths(caps@[k as int]), sp@));
            },
        }
        k = k + 1;
    }
    false
}

fn narrow_paths(declared: &Vec<String>, scope: &[String]) -> (r: Vec<String>)
    requires
        globs_fit(declared@),
    ensures
        strs(r@) == narrowed_paths(declared@, scope@),
{
    let mut out: Vec<String> = Vec::new();
    let mut i: usize = 0;
    while i < scope.len()
        invariant
            i <= scope@.len(),
            globs_fit(declared@),
            strs(out@) =~= narrowed_paths(declared@, scope@.take(i as int)),
        decreases scope@.len() - i,
    {
        assert(scope@.take(i + 1).drop_last() =~= scope@.take(i as int));
        if covered_by_any_exec(declared, scope[i].as_str()) {
            out.push(scope[i].clone());
        }
        i = i + 1;
        assert(strs(out@) =~= narrowed_paths(declared@, scope@.take(i as int)));
    }
    assert(scope@.take(scope@.len() as int) =~= scope@);
    out
}

/// `r` is what narrowing `caps` to `scope_paths` gives (see
/// [`apply_scope_paths`]).
pub open spec fn scoped(
    caps: Vec<Capability>,
    scope_paths: Seq<String>,
    r: Result<Vec<Capability>, OrchestrationError>,
) -> bool {
    &&& scope_paths.len() == 0 ==> r == Ok::<Vec<Capability>, OrchestrationError>(caps)
    &&& scope_paths.len() > 0 ==> match first_uncovered(caps@, scope_paths) {
        Some(i) => r matches Err(OrchestrationError::SkillScopePathNotCovered { path }) && path
            == scope_paths[i],
        None => r matches Ok(out) && out@.len() == surviving(caps@, scope_paths).len() && (forall|
            j: int,
        |
            0 <= j < out@.len() ==> fs_paths_mapped(
                caps@[#[trigger] surviving(caps@, scope_paths)[j]],
                out@[j],
                |ps: Seq<String>| narrowed_paths(ps, scope_paths),
            )),
    }
}

/// Narrows the filesystem capabilities of a skill's grant to the
/// caller's `scope_paths`: with no scope paths the grant is returned as
/// it is; a scope path that no declared filesystem path covers is an
/// error (the first such, by position); otherwise each filesystem
/// capability keeps exactly the scope paths its own paths cover and is
/// dropped when none are left, and other capabilities pass through.
pub fn apply_scope_paths(caps: Vec<Capability>, scope_paths: &[String]) -> (r: Result<
    Vec<Capability>,
    OrchestrationError,
>)
    requires
        cap_globs_fit(caps@),
    ensures
        scoped(caps, scope_paths@, r),
{
    if scope_paths.len() == 0 {
        return Ok(caps);
    }
    let mut i: usize = 0;
    while i < scope_paths.len()
        invariant
            i <= scope_paths@.len(),
            cap_globs_fit(caps@),
            forall|j: int| 0 <= j < i ==> covered_by_caps(caps@, #[trigger] scope_paths@[j]@),
        decreases scope_paths@.len() - i,
    {
        if !covered_by_caps_exec(&caps, scope_paths[i].as_str()) {
            proof {
                let w = i as int;
                assert(0 <= w < scope_paths@.len() && !covered_by_caps(caps@, scope_paths@[w]@));
                let c = first_uncovered(caps@, scope_paths@);
                assert(c is Some);
                let k = c->0;
                if k < w {
                    assert(covered_by_caps(caps@, scope_paths@[k]@));
                } else if k > w {
                    assert(covered_by_caps(caps@, scope_paths@[w]@));
                }
                assert(k == w);
            }
            return Err(OrchestrationError::SkillScopePathNotCovered { path: scope_paths[i].clone() });
        }
        i = i + 1;
    }
    assert(first_uncovered(caps@, scope_paths@) is None);
    assert(caps@.take(0) =~= Seq::<Capability>::empty());
    let mut out: Vec<Capability> = Vec::new();
    let mut k: usize = 0;
    while k < caps.len()
        invariant
            k <= caps@.len(),
            cap_globs_fit(caps@),
            scope_paths@.len() > 0,
            out@.len() == surviving(caps@.take(k as int), scope_paths@).len(),
            forall|j: int|
                0 <= j < out@.len() ==> fs_paths_mapped(
                    caps@[#[trigger] surviving(caps@.take(k as int), scope_paths@)[j]],
                    out@[j],
                    |ps: Seq<String>| narrowed_paths(ps, scope_paths@),
                ),
        decreases caps@.len() - k,
    {
        let ghost before = surviving(caps@.take(k as int), scope_paths@);
        assert(caps@.take(k + 1).drop_last() =~= caps@.take(k as int));
        assert(caps@.take(k + 1).last() == caps@[k as int]);
        let c = &caps[k];
        assert(globs_fit(fs_paths(caps@[k as int])));
        match c {
            Capability::Filesystem(FsCapability::Read { paths }) => {
                let n = narrow_paths(paths, scope_paths);
                if n.len() > 0 {
                    out.push(Capability::Filesystem(FsCapability::Read { paths: n }));
                }
            },
            Capability::Filesystem(FsCapability::Write { paths, max_bytes }) => {
                let n = narrow_paths(paths, scope_paths);
                if n.len() > 0 {
                    out.push(
                        Capability::Filesystem(
                            FsCapability::Write { paths: n, max_bytes: *max_bytes },
                        ),
                    );
                }
            },
            Capability::Filesystem(FsCapability::Exec { paths }) => {
                let n = narrow_paths(paths, scope_paths);
                if n.len() > 0 {
                    out.push(Capability::Filesystem(FsCapability::Exec { paths: n }));
                }
            },
            _ => {
                out.push(clone_capability(c));
            },
        }
        proof {
            let after = surviving(caps@.take(k + 1), scope_paths@);
            assert(after == if survives(caps@[k as int], scope_paths@) {
                before.push(k as int)
            } else {
                before
            });
            assert forall|j: int| 0 <= j < out@.len() implies fs_paths_mapped(
                caps@[#[trigger] after[j]],
                out@[j],
                |ps: Seq<String>| narrowed_paths(ps, scope_paths@),
            ) by {
                if j < before.len() {
                    assert(after[j] == before[j]);
                }
            }
        }
        k = k + 1;
    }
    assert(caps@.take(caps@.len() as int) =~= caps@);
    Ok(out)
}

/// A caller's spawn arguments.
#[derive(Debug, Clone, Default)]
pub struct SkillSpawnArgs {
    /// Required initial user message.
    pub message: String,
    /// Optional override of the skill's SKILL.md body.
    pub system_prompt: Option<String>,
    /// Optional path narrowing; each entry must be covered by at least
    /// one declared filesystem path.
    pub scope_paths: Option<Vec<String>>,
}

/// The renderings (as [`capability_debug`] gives them) of the
/// capabilities of `child`, in order, that no capability of `parent`
/// covers.
pub open spec fn grant_extras(parent: Seq<Capability>, child: Seq<Capability>) -> Seq<Seq<char>>
    decreases child.len(),
{
    if child.len() == 0 {
        seq![]
    } else {
        let prev = grant_extras(parent, child.drop_last());
        if covered_by(parent, child.last()) {
            prev
        } else {
            prev.push(capability_debug_text(child.last()))
        }
    }
}

/// No extras are left exactly when the parent covers the whole child
/// grant.
proof fn lemma_no_extras(parent: Seq<Capability>, child: Seq<Capability>)
    ensures
        (grant_extras(parent, child).len() == 0) == all_covered(parent, child),
    decreases child.len(),
{
    if child.len() > 0 {
        let init = child.drop_last();
        lemma_no_extras(parent, init);
        if all_covered(parent, child) {
            assert forall|i: int| 0 <= i < init.len() implies covered_by(parent, #[trigger] init[i]) by {
                assert(init[i] == child[i]);
            }
            assert(covered_by(parent, child[child.len() - 1]));
        } else if grant_extras(parent, child).len() == 0 {
            assert(covered_by(parent, child.last()));
            assert forall|i: int| 0 <= i < child.len() implies covered_by(parent, #[trigger] child[i]) by {
                if i < init.len() {
                    assert(init[i] == child[i]);
                }
            }
        }
    }
}

fn covered_exec(parent: &[Capability], c: &Capability) -> (r: bool)
    ensures
        r == covered_by(parent@, *c),
{
    let mut j: usize = 0;
    while j < parent.len()
        invariant
            j <= parent@.len(),
            forall|m: int| 0 <= m < j ==> !#[trigger] spec_capability_satisfies(parent@[m], *c),
        decreases parent@.len() - j,
    {
        if capability_satisfies(&parent[j], c) {
            return true;
        }
        j = j + 1;
    }
    false
}

/// `r` is what the subset law decides for the child grant `g` under
/// `parent`: `g` itself when the parent covers all of it, else
/// `GrantNotSubset` listing the uncovered capabilities.
pub open spec fn subset_checked(
    parent: Seq<Capability>,
    g: Vec<Capability>,
    r: Result<Vec<Capability>, OrchestrationError>,
) -> bool {
    if all_covered(parent, g@) {
        r == Ok::<Vec<Capability>, OrchestrationError>(g)
    } else {
        r matches Err(OrchestrationError::GrantNotSubset { extras }) && strs(extras@) == grant_extras(
            parent,
            g@,
        )
    }
}

/// The capability subset law at spawn time: every capability of the
/// child's grant must be covered by some capability of the parent's
/// grant; otherwise `GrantNotSubset` lists, in order, each capability the
/// parent lacks.
pub fn check_capability_subset(parent: &[Capability], child: &[Capability]) -> (r: Result<
    (),
    OrchestrationError,
>)
    ensures
        all_covered(parent@, child@) ==> r is Ok,
        !all_covered(parent@, child@) ==> (r matches Err(OrchestrationError::GrantNotSubset { extras })
            && strs(extras@) == grant_extras(parent@, child@)),
{
    let mut extras: Vec<String> = Vec::new();
    let mut i: usize = 0;
    while i < child.len()
        invariant
            i <= child@.len(),
            strs(extras@) == grant_extras(parent@, child@.take(i as int)),
        decreases child@.len() - i,
    {
        assert(child@.take(i + 1).drop_last() =~= child@.take(i as int));
        assert(child@.take(i + 1).last() == child@[i as int]);
        if !covered_exec(parent, &child[i]) {
            extras.push(capability_debug(&child[i]));
        }
        i = i + 1;
        assert(strs(extras@) =~= grant_extras(parent@, child@.take(i as int)));
    }
    assert(child@.take(child@.len() as int) =~= child@);
    proof {
        lemma_no_extras(parent@, child@);
    }
    if extras.len() == 0 {
        Ok(())
    } else {
        Err(OrchestrationError::GrantNotSubset { extras })
    }
}

/// Every declared filesystem path, once `${SKILL_DIR}` is replaced by
/// `install`, fits as a glob.
pub open spec fn substituted_fit(declared: Seq<Capability>, install: Seq<char>) -> bool {
    forall|i: int|
        0 <= i < declared.len() ==> globs_fit_after(fs_paths(#[trigger] declared[i]), install)
}

/// Every path of the list, once `${SKILL_DIR}` is replaced by `install`,
/// fits as a glob.
pub open spec fn globs_fit_after(paths: Seq<String>, install: Seq<char>) -> bool {
    forall|j: int|
        0 <= j < paths.len() ==> glob_fits(replace_all(#[trigger] paths[j]@, skill_dir_var(), install))
}

proof fn lemma_substituted_fit(declared: Seq<Capability>, install: Seq<char>, s: Seq<Capability>)
    requires
        substituted_fit(declared, install),
        substituted_all(declared, install, s),
    ensures
        cap_globs_fit(s),
{
    assert forall|k: int| 0 <= k < s.len() implies globs_fit(fs_paths(#[trigger] s[k])) by {
        let c = declared[k];
        assert(fs_paths_mapped(c, s[k], |ps: Seq<String>| substituted_paths(ps, install)));
        assert(globs_fit_after(fs_paths(c), install));
        let q = fs_paths(s[k]);
        assert forall|j: int| 0 <= j < q.len() implies glob_fits(#[trigger] q[j]@) by {
            match c {
                Capability::Filesystem(FsCapability::Read { paths }) => {
                    assert(strs(q) == substituted_paths(paths@, install));
                    assert(strs(q)[j] == q[j]@);
                    assert(substituted_paths(paths@, install)[j] == replace_all(paths@[j]@, skill_dir_var(), install));
                    assert(glob_fits(replace_all(paths@[j]@, skill_dir_var(), install)));
                },
                Capability::Filesystem(FsCapability::Write { paths, .. }) => {
                    assert(strs(q) == substituted_paths(paths@, install));
                    assert(strs(q)[j] == q[j]@);
                    assert(substituted_paths(paths@, install)[j] == replace_all(paths@[j]@, skill_dir_var(), install));
                    assert(glob_fits(replace_all(paths@[j]@, skill_dir_var(), install)));
                },
                Capability::Filesystem(FsCapability::Exec { paths }) => {
                    assert(strs(q) == substituted_paths(paths@, install));
                    assert(strs(q)[j] == q[j]@);
                    assert(substituted_paths(paths@, install)[j] == replace_all(paths@[j]@, skill_dir_var(), install));
                    assert(glob_fits(replace_all(paths@[j]@, skill_dir_var(), install)));
                },
                _ => {},
            }
        }
    }
}

fn held_to_subset(parent: &[Capability], g: Vec<Capability>) -> (r: Result<Vec<Capability>, OrchestrationError>)
    ensures
        subset_checked(parent@, g, r),
        r matches Ok(out) ==> all_covered(parent@, out@),
{
    match check_capability_subset(parent, g.as_slice()) {
        Ok(()) => Ok(g),
        Err(e) => Err(e),
    }
}

/// The scope paths a caller gave, by their view.
pub open spec fn scope_view(o: Option<Vec<String>>) -> Option<Seq<String>> {
    match o {
        Some(v) => Some(v@),
        None => None,
    }
}

/// `r` is the grant of a skill declaring `declared`, installed at
/// `install`, asked for with `scope` and spawned under `parent`: the
/// substituted grant, narrowed when a scope is given (a narrowing error
/// stands as it is), then held to the subset law.
pub open spec fn skill_grant_result(
    declared: Seq<Capability>,
    install: Seq<char>,
    scope: Option<Seq<String>>,
    parent: Seq<Capability>,
    r: Result<Vec<Capability>, OrchestrationError>,
) -> bool {
    exists|s: Vec<Capability>|
        #[trigger] substituted_all(declared, install, s@) && match scope {
            None => subset_checked(parent, s, r),
            Some(sp) => scoped_then_checked(s, sp, parent, r),
        }
}

/// `r` is what narrowing `s` to `sp` and holding the result to the
/// subset law under `parent` gives (a narrowing error stands as it is).
pub open spec fn scoped_then_checked(
    s: Vec<Capability>,
    sp: Seq<String>,
    parent: Seq<Capability>,
    r: Result<Vec<Capability>, OrchestrationError>,
) -> bool {
    exists|q: Result<Vec<Capability>, OrchestrationError>|
        #[trigger] scoped(s, sp, q) && match q {
            Ok(g) => subset_checked(parent, g, r),
            Err(e) => r == Err::<Vec<Capability>, OrchestrationError>(e),
        }
}

/// The grant of a spawned skill: its declared capabilities with
/// `${SKILL_DIR}` replaced by the install directory, narrowed to the
/// caller's scope paths when the caller gave any (see
/// [`apply_scope_paths`]), then held to the capability subset law against
/// the parent's grant (see [`check_capability_subset`]). A grant handed
/// out never exceeds the parent's.
pub fn skill_grant(
    declared: &[Capability],
    install_path: &str,
    scope_paths: Option<&[String]>,
    parent_grant: &[Capability],
) -> (r: Result<Vec<Capability>, OrchestrationError>)
    requires
        substituted_fit(declared@, install_path@),
    ensures
        skill_grant_result(
            declared@,
            install_path@,
            match scope_paths {
                Some(sp) => Some(sp@),
                None => None,
            },
            parent_grant@,
            r,
        ),
        r matches Ok(out) ==> all_covered(parent_grant@, out@),
{
    let s = substitute_skill_dir(declared, install_path);
    let ghost g = s;
    proof {
        lemma_substituted_fit(declared@, install_path@, s@);
    }
    match scope_paths {
        None => {
            let r = held_to_subset(parent_grant, s);
            assert(substituted_all(declared@, install_path@, g@) && subset_checked(parent_grant@, g, r));
            assert(skill_grant_result(declared@, install_path@, None, parent_grant@, r));
            r
        },
        Some(sp) => {
            let q = apply_scope_paths(s, sp);
            let ghost gq = q;
            let r = match q {
                Ok(n) => held_to_subset(parent_grant, n),
                Err(e) => Err(e),
            };
            assert(scoped(g, sp@, gq) && match gq {
                Ok(h) => subset_checked(parent_grant@, h, r),
                Err(e) => r == Err::<Vec<Capability>, OrchestrationError>(e),
            });
            assert(substituted_all(declared@, install_path@, g@));
            assert(scoped_then_checked(g, sp@, parent_grant@, r));
            assert(skill_grant_result(declared@, install_path@, Some(sp@), parent_grant@, r));
            r
        },
    }
}

/// A skill spawn, resolved: the child's name, install directory, system
/// prompt, grant and first message.
#[derive(Debug)]
pub struct SkillSpawnRequest {
    /// Skill name (as referenced in `skill.<name>.spawn`).
    pub skill_name: String,
    /// The installed skill's directory.
    pub install_path: String,
    /// The SKILL.md body, or the caller's override.
    pub system_prompt: String,
    /// The resolved, narrowed grant of the child.
    pub grant: Vec<Capability>,
    /// The child's first user message.
    pub message: String,
}

/// What looking the skill up found on the host.
#[derive(Debug)]
pub enum SkillLookup {
    /// The skill is installed here with these declared capabilities.
    /// `body` is its SKILL.md body, or the rendered failure to read or
    /// parse it; it is consulted only when the caller gives no system
    /// prompt of its own.
    Installed { install_path: String, capabilities: Vec<Capability>, body: Result<String, String> },
    /// No installed skill has the name.
    NotInstalled,
    /// The skill's recorded install path is missing.
    InstallPathMissing { path: String },
    /// The lookup failed otherwise; its rendered error.
    Invalid { detail: String },
}

/// End-to-end resolution of a skill spawn from what the lookup found:
/// a missing or broken skill is reported; the system prompt is the
/// caller's override or the SKILL.md body; the grant is the declared one
/// with `${SKILL_DIR}` substituted, narrowed to the caller's scope paths
/// and held to the subset law against `parent_grant` (see
/// [`skill_grant`]).
pub fn resolve_skill_for_spawn(
    skill_name: &str,
    args: &SkillSpawnArgs,
    parent_grant: &[Capability],
    found: SkillLookup,
) -> (r: Result<SkillSpawnRequest, OrchestrationError>)
    requires
        found matches SkillLookup::Installed { install_path, capabilities, .. } ==> substituted_fit(
            capabilities@,
            install_path@,
        ),
    ensures
        match found {
            SkillLookup::NotInstalled => r matches Err(OrchestrationError::SkillNotInstalled { name })
                && name@ == skill_name@,
            SkillLookup::InstallPathMissing { path } => r matches Err(
                OrchestrationError::SkillInstallPathMissing { name, expected_path },
            ) && name@ == skill_name@ && expected_path@ == path@,
            SkillLookup::Invalid { detail } => r matches Err(
                OrchestrationError::SkillContentInvalid { name, detail: d },
            ) && name@ == skill_name@ && d@ == detail@,
            SkillLookup::Installed { install_path, capabilities, body } => match (
                args.system_prompt,
                body,
            ) {
                (None, Err(e)) => r matches Err(
                    OrchestrationError::SkillContentInvalid { name, detail },
                ) && name@ == skill_name@ && detail@ == e@,
                _ => {
                    let prompt = match args.system_prompt {
                        Some(sp) => sp@,
                        None => body->Ok_0@,
                    };
                    exists|g: Result<Vec<Capability>, OrchestrationError>|
                        #[trigger] skill_grant_result(
                            capabilities@,
                            install_path@,
                            scope_view(args.scope_paths),
                            parent_grant@,
                            g,
                        ) && match g {
                            Ok(grant) => r matches Ok(req) && req.skill_name@ == skill_name@
                                && req.install_path@ == install_path@ && req.system_prompt@
                                == prompt && req.grant == grant && req.message@ == args.message@,
                            Err(e) => r == Err::<SkillSpawnRequest, OrchestrationError>(e),
                        }
                },
            },
        },
{
    match found {
        SkillLookup::NotInstalled => Err(
            OrchestrationError::SkillNotInstalled { name: String::from_str(skill_name) },
        ),
        SkillLookup::InstallPathMissing { path } => Err(
            OrchestrationError::SkillInstallPathMissing {
                name: String::from_str(skill_name),
                expected_path: path,
            },
        ),
        SkillLookup::Invalid { detail } => Err(
            OrchestrationError::SkillContentInvalid { name: String::from_str(skill_name), detail },
        ),
        SkillLookup::Installed { install_path, capabilities, body } => {
            let system_prompt = match &args.system_prompt {
                Some(sp) => sp.clone(),
                None => match body {
                    Ok(b) => b,
                    Err(e) => {
                        return Err(
                            OrchestrationError::SkillContentInvalid {
                                name: String::from_str(skill_name),
                                detail: e,
                            },
                        );
                    },
                },
            };
            let scope = match &args.scope_paths {
                Some(v) => Some(v.as_slice()),
                None => None,
            };
            let g = skill_grant(capabilities.as_slice(), install_path.as_str(), scope, parent_grant);
            match g {
                Ok(grant) => Ok(
                    SkillSpawnRequest {
                        skill_name: String::from_str(skill_name),
                        install_path,
                        system_prompt,
                        grant,
                        message: args.message.clone(),
                    },
                ),
                Err(e) => Err(e),
            }
        },
    }
}

} // verus!
