//! Capability satisfies-relation: whether an agent's granted capabilities
//! cover the capabilities a tool invocation requires. Pure logic.
//!
//! Conservative defaults at every ambiguous edge: a bounded grant cannot
//! satisfy an unbounded request, an unknown task-list / plan mode denies,
//! and a `Custom` namespace needs exact key + value parity.

use vstd::prelude::*;

use crate::glob::{
    double_star, pattern_matches, glob_matches, segs_match, lemma_split_slash_nonempty,
    lemma_star_upto, segment_match, split_slash,
};
use crate::agent_run::{render_strings_debug, string_views, strings_debug};
use crate::text::{debug_str, decimal, str_debug, str_eq, u64_to_decimal};

verus! {

/// Filesystem capability shapes.
#[derive(Debug)]
pub enum FsCapability {
    /// Read access to paths matching any of `paths`.
    Read { paths: Vec<String> },
    /// Write access, optionally bounded to `max_bytes` per write.
    Write { paths: Vec<String>, max_bytes: Option<u64> },
    /// Execute access.
    Exec { paths: Vec<String> },
}

/// Host set of a `net.http` capability: any host, or a glob list.
#[derive(Debug)]
pub enum NetHosts {
    /// Every host.
    Any,
    /// Hosts matching any of the listed globs.
    List(Vec<String>),
}

/// Network capability shapes.
#[derive(Debug)]
pub enum NetCapability {
    /// HTTP to `hosts` with `methods`.
    Http { hosts: NetHosts, methods: Vec<String> },
}

/// Process capability shapes.
#[derive(Debug)]
pub enum ProcessCapability {
    /// Spawn one of `commands`.
    Spawn { commands: Vec<String> },
}

/// Agent-orchestration capability shapes.
#[derive(Debug)]
pub enum AgentCapability {
    /// Spawn child agents of the listed kinds.
    Spawn { allowed_kinds: Vec<String> },
}

/// Skill capability shapes.
#[derive(Debug)]
pub enum SkillCapability {
    /// Spawn the listed skills.
    Spawn { allowed_skills: Vec<String> },
}

/// One declared or required capability.
#[derive(Debug)]
pub enum Capability {
    /// `fs.*`.
    Filesystem(FsCapability),
    /// `net.*`.
    Network(NetCapability),
    /// `process.*`.
    Process(ProcessCapability),
    /// `agent.*`.
    Agent(AgentCapability),
    /// Orchestration task list with a mode (`read` / `write` / `manage`).
    TaskList { mode: String },
    /// Orchestration plan with a mode (`read` / `write`).
    Plan { mode: String },
    /// `skill.*`.
    Skill(SkillCapability),
    /// Any other namespace: a name plus parameters, each value held as
    /// its canonical JSON text.
    Custom { name: String, params: Vec<(String, String)> },
}

// ---------------------------------------------------------------------------
// Model
// ---------------------------------------------------------------------------

/// `a` and `b` are the same capability: same variant, fields with the
/// same contents.
pub open spec fn cap_eq(a: Capability, b: Capability) -> bool {
    match a {
        Capability::Filesystem(FsCapability::Read { paths }) => b matches Capability::Filesystem(
            FsCapability::Read { paths: q },
        ) && q@ == paths@,
        Capability::Filesystem(FsCapability::Write { paths, max_bytes }) => b matches Capability::Filesystem(
            FsCapability::Write { paths: q, max_bytes: m },
        ) && q@ == paths@ && m == max_bytes,
        Capability::Filesystem(FsCapability::Exec { paths }) => b matches Capability::Filesystem(
            FsCapability::Exec { paths: q },
        ) && q@ == paths@,
        Capability::Network(NetCapability::Http { hosts, methods }) => b matches Capability::Network(
            NetCapability::Http { hosts: h, methods: m },
        ) && m@ == methods@ && match hosts {
            NetHosts::Any => h is Any,
            NetHosts::List(l) => h matches NetHosts::List(l2) && l2@ == l@,
        },
        Capability::Process(ProcessCapability::Spawn { commands }) => b matches Capability::Process(
            ProcessCapability::Spawn { commands: q },
        ) && q@ == commands@,
        Capability::Agent(AgentCapability::Spawn { allowed_kinds }) => b matches Capability::Agent(
            AgentCapability::Spawn { allowed_kinds: q },
        ) && q@ == allowed_kinds@,
        Capability::TaskList { mode } => b matches Capability::TaskList { mode: m } && m == mode,
        Capability::Plan { mode } => b matches Capability::Plan { mode: m } && m == mode,
        Capability::Skill(SkillCapability::Spawn { allowed_skills }) => b matches Capability::Skill(
            SkillCapability::Spawn { allowed_skills: q },
        ) && q@ == allowed_skills@,
        Capability::Custom { name, params } => b matches Capability::Custom { name: n, params: p }
            && n == name && p@ == params@,
    }
}

/// Some grant pattern matches `r` under the glob rules.
pub open spec fn path_covered(granted: Seq<String>, r: String) -> bool {
    exists|j: int| 0 <= j < granted.len() && #[trigger] pattern_matches(granted[j]@, r@)
}

/// Every required string matches at least one grant pattern (glob rules).
pub open spec fn spec_paths_subset(granted: Seq<String>, required: Seq<String>) -> bool {
    forall|i: int| 0 <= i < required.len() ==> #[trigger] path_covered(granted, required[i])
}

/// Some granted string equals `r`.
pub open spec fn string_covered(granted: Seq<String>, r: String) -> bool {
    exists|j: int| 0 <= j < granted.len() && #[trigger] granted[j]@ == r@
}

/// Every required string equals at least one granted string.
pub open spec fn spec_string_subset(granted: Seq<String>, required: Seq<String>) -> bool {
    forall|i: int| 0 <= i < required.len() ==> #[trigger] string_covered(granted, required[i])
}

/// An unbounded grant covers anything; a bounded one covers only a
/// bounded request no larger than itself.
pub open spec fn spec_max_bytes_satisfies(granted: Option<u64>, required: Option<u64>) -> bool {
    match (granted, required) {
        (None, _) => true,
        (Some(_), None) => false,
        (Some(g), Some(r)) => g >= r,
    }
}

/// `Any` covers everything; a list never covers `Any`; lists compare by
/// the glob rules.
pub open spec fn spec_net_hosts_subsume(granted: NetHosts, required: NetHosts) -> bool {
    match (granted, required) {
        (NetHosts::Any, _) => true,
        (NetHosts::List(_), NetHosts::Any) => false,
        (NetHosts::List(g), NetHosts::List(r)) => spec_paths_subset(g@, r@),
    }
}

/// Rank of a task-list mode: `read` < `write` < `manage`.
pub open spec fn task_list_rank(s: Seq<char>) -> Option<int> {
    if s == "read"@ {
        Some(0)
    } else if s == "write"@ {
        Some(1)
    } else if s == "manage"@ {
        Some(2)
    } else {
        None
    }
}

/// Rank of a plan mode: `read` < `write`.
pub open spec fn plan_rank(s: Seq<char>) -> Option<int> {
    if s == "read"@ {
        Some(0)
    } else if s == "write"@ {
        Some(1)
    } else {
        None
    }
}

/// Both modes known and the granted one ranks at least as high.
pub open spec fn rank_covers(g: Option<int>, r: Option<int>) -> bool {
    match (g, r) {
        (Some(a), Some(b)) => a >= b,
        _ => false,
    }
}

/// The value of the first parameter named `k`, if any.
pub open spec fn param_lookup(ps: Seq<(String, String)>, k: Seq<char>) -> Option<Seq<char>>
    decreases ps.len(),
{
    if ps.len() == 0 {
        None
    } else if ps[0].0@ == k {
        Some(ps[0].1@)
    } else {
        param_lookup(ps.drop_first(), k)
    }
}

/// Every required parameter exists in the grant with an equal value. The
/// parameters read as a map: a name's value is that of its first entry.
pub open spec fn spec_custom_params_satisfy(
    granted: Seq<(String, String)>,
    required: Seq<(String, String)>,
) -> bool {
    forall|i: int|
        0 <= i < required.len() ==> param_lookup(granted, #[trigger] required[i].0@) == param_lookup(
            required,
            required[i].0@,
        )
}

/// A name that has an entry has a value.
proof fn lemma_param_lookup_present(ps: Seq<(String, String)>, i: int)
    requires
        0 <= i < ps.len(),
    ensures
        param_lookup(ps, ps[i].0@) is Some,
    decreases ps.len(),
{
    if i > 0 && ps[0].0@ != ps[i].0@ {
        assert(ps.drop_first()[i - 1] == ps[i]);
        lemma_param_lookup_present(ps.drop_first(), i - 1);
    }
}

/// Filesystem subsumption: same shape, paths covered, byte bound covered.
pub open spec fn spec_fs_satisfies(g: FsCapability, r: FsCapability) -> bool {
    match (g, r) {
        (FsCapability::Read { paths: gp }, FsCapability::Read { paths: rp }) => spec_paths_subset(
            gp@,
            rp@,
        ),
        (
            FsCapability::Write { paths: gp, max_bytes: gm },
            FsCapability::Write { paths: rp, max_bytes: rm },
        ) => spec_paths_subset(gp@, rp@) && spec_max_bytes_satisfies(gm, rm),
        (FsCapability::Exec { paths: gp }, FsCapability::Exec { paths: rp }) => spec_paths_subset(
            gp@,
            rp@,
        ),
        _ => false,
    }
}

/// Whether `granted` covers `required`. Different namespaces never
/// satisfy one another.
pub open spec fn spec_capability_satisfies(granted: Capability, required: Capability) -> bool {
    match (granted, required) {
        (Capability::Filesystem(g), Capability::Filesystem(r)) => spec_fs_satisfies(g, r),
        (
            Capability::Network(NetCapability::Http { hosts: gh, methods: gm }),
            Capability::Network(NetCapability::Http { hosts: rh, methods: rm }),
        ) => spec_net_hosts_subsume(gh, rh) && spec_string_subset(gm@, rm@),
        (
            Capability::Process(ProcessCapability::Spawn { commands: gc }),
            Capability::Process(ProcessCapability::Spawn { commands: rc }),
        ) => spec_paths_subset(gc@, rc@),
        (
            Capability::Agent(AgentCapability::Spawn { allowed_kinds: gk }),
            Capability::Agent(AgentCapability::Spawn { allowed_kinds: rk }),
        ) => spec_string_subset(gk@, rk@),
        (Capability::TaskList { mode: g }, Capability::TaskList { mode: r }) => rank_covers(
            task_list_rank(g@),
            task_list_rank(r@),
        ),
        (Capability::Plan { mode: g }, Capability::Plan { mode: r }) => rank_covers(
            plan_rank(g@),
            plan_rank(r@),
        ),
        (
            Capability::Skill(SkillCapability::Spawn { allowed_skills: gs }),
            Capability::Skill(SkillCapability::Spawn { allowed_skills: rs }),
        ) => spec_string_subset(gs@, rs@),
        (Capability::Custom { name: gn, params: gp }, Capability::Custom { name: rn, params: rp }) =>
            gn@ == rn@ && spec_custom_params_satisfy(gp@, rp@),
        _ => false,
    }
}

/// Some grant covers `required`.
pub open spec fn covered_by(granted: Seq<Capability>, required: Capability) -> bool {
    exists|j: int| 0 <= j < granted.len() && #[trigger] spec_capability_satisfies(granted[j], required)
}

/// The top-level namespace of a capability, as a number.
pub open spec fn namespace_of(c: Capability) -> int {
    match c {
        Capability::Filesystem(_) => 0,
        Capability::Network(_) => 1,
        Capability::Process(_) => 2,
        Capability::Agent(_) => 3,
        Capability::TaskList { .. } => 4,
        Capability::Plan { .. } => 5,
        Capability::Skill(_) => 6,
        Capability::Custom { .. } => 7,
    }
}

/// The kind tag reported in capability denials.
pub open spec fn spec_kind_str(c: Capability) -> Seq<char> {
    match c {
        Capability::Filesystem(FsCapability::Read { .. }) => "fs.read"@,
        Capability::Filesystem(FsCapability::Write { .. }) => "fs.write"@,
        Capability::Filesystem(FsCapability::Exec { .. }) => "fs.exec"@,
        Capability::Network(_) => "net.http"@,
        Capability::Process(_) => "process.spawn"@,
        Capability::Agent(_) => "agent.spawn"@,
        Capability::TaskList { .. } => "task_list"@,
        Capability::Plan { .. } => "plan"@,
        Capability::Skill(_) => "skill.spawn"@,
        Capability::Custom { name, .. } => name@,
    }
}

// ---------------------------------------------------------------------------
// Implementation
// ---------------------------------------------------------------------------

/// Every required string matches at least one grant pattern under the
/// path / host glob rules.
pub fn paths_subset(granted: &Vec<String>, required: &Vec<String>) -> (r: bool)
    ensures
        r == spec_paths_subset(granted@, required@),
{
    let mut i: usize = 0;
    while i < required.len()
        invariant
            i <= required@.len(),
            forall|k: int| 0 <= k < i ==> #[trigger] path_covered(granted@, required@[k]),
        decreases required@.len() - i,
    {
        let mut j: usize = 0;
        let mut found = false;
        while j < granted.len() && !found
            invariant
                i < required@.len(),
                j <= granted@.len(),
                found ==> path_covered(granted@, required@[i as int]),
                !found ==> forall|m: int| 0 <= m < j ==> !pattern_matches(#[trigger] granted@[m]@, required@[i as int]@),
            decreases granted@.len() - j,
        {
            if glob_matches(granted[j].as_str(), required[i].as_str()) {
                found = true;
            }
            j = j + 1;
        }
        if !found {
            assert(!path_covered(granted@, required@[i as int]));
            assert(!spec_paths_subset(granted@, required@));
            return false;
        }
        i = i + 1;
    }
    true
}

/// Every required string equals at least one granted string.
pub fn string_subset(granted: &Vec<String>, required: &Vec<String>) -> (r: bool)
    ensures
        r == spec_string_subset(granted@, required@),
{
    let mut i: usize = 0;
    while i < required.len()
        invariant
            i <= required@.len(),
            forall|k: int| 0 <= k < i ==> #[trigger] string_covered(granted@, required@[k]),
        decreases required@.len() - i,
    {
        let mut j: usize = 0;
        let mut found = false;
        while j < granted.len() && !found
            invariant
                i < required@.len(),
                j <= granted@.len(),
                found ==> string_covered(granted@, required@[i as int]),
                !found ==> forall|m: int| 0 <= m < j ==> #[trigger] granted@[m]@ != required@[i as int]@,
            decreases granted@.len() - j,
        {
            if str_eq(granted[j].as_str(), required[i].as_str()) {
                found = true;
            }
            j = j + 1;
        }
        if !found {
            assert(!string_covered(granted@, required@[i as int]));
            assert(!spec_string_subset(granted@, required@));
            return false;
        }
        i = i + 1;
    }
    true
}

/// An unbounded grant covers anything; a bounded one covers only a
/// bounded request no larger than itself.
pub fn max_bytes_satisfies(granted: Option<u64>, required: Option<u64>) -> (r: bool)
    ensures
        r == spec_max_bytes_satisfies(granted, required),
{
    match (granted, required) {
        (None, _) => true,
        (Some(_), None) => false,
        (Some(g), Some(r)) => g >= r,
    }
}

/// Host-set subsumption: `Any` covers everything, a list never covers
/// `Any`, lists compare by the glob rules.
pub fn net_hosts_subsume(granted: &NetHosts, required: &NetHosts) -> (r: bool)
    ensures
        r == spec_net_hosts_subsume(*granted, *required),
{
    match (granted, required) {
        (NetHosts::Any, _) => true,
        (NetHosts::List(_), NetHosts::Any) => false,
        (NetHosts::List(g), NetHosts::List(r)) => paths_subset(g, r),
    }
}

fn task_list_rank_exec(s: &str) -> (r: Option<u8>)
    ensures
        match task_list_rank(s@) {
            Some(k) => r == Some(k as u8),
            None => r is None,
        },
{
    if str_eq(s, "read") {
        Some(0)
    } else if str_eq(s, "write") {
        Some(1)
    } else if str_eq(s, "manage") {
        Some(2)
    } else {
        None
    }
}

fn plan_rank_exec(s: &str) -> (r: Option<u8>)
    ensures
        match plan_rank(s@) {
            Some(k) => r == Some(k as u8),
            None => r is None,
        },
{
    if str_eq(s, "read") {
        Some(0)
    } else if str_eq(s, "write") {
        Some(1)
    } else {
        None
    }
}

/// Task-list mode subsumption: both modes known, `manage` ⊇ `write` ⊇
/// `read`.
pub fn task_list_satisfies(granted: &str, required: &str) -> (r: bool)
    ensures
        r == rank_covers(task_list_rank(granted@), task_list_rank(required@)),
{
    match (task_list_rank_exec(granted), task_list_rank_exec(required)) {
        (Some(g), Some(r)) => g >= r,
        _ => false,
    }
}

/// Plan mode subsumption: both modes known, `write` ⊇ `read`.
pub fn plan_satisfies(granted: &str, required: &str) -> (r: bool)
    ensures
        r == rank_covers(plan_rank(granted@), plan_rank(required@)),
{
    match (plan_rank_exec(granted), plan_rank_exec(required)) {
        (Some(g), Some(r)) => g >= r,
        _ => false,
    }
}

fn param_lookup_exec(ps: &Vec<(String, String)>, k: &String) -> (r: Option<usize>)
    ensures
        match r {
            Some(i) => i < ps@.len() && param_lookup(ps@, k@) == Some(ps@[i as int].1@),
            None => param_lookup(ps@, k@) is None,
        },
{
    let mut i: usize = 0;
    assert(ps@.subrange(0, ps@.len() as int) =~= ps@);
    while i < ps.len()
        invariant
            i <= ps@.len(),
            param_lookup(ps@, k@) == param_lookup(ps@.subrange(i as int, ps@.len() as int), k@),
        decreases ps@.len() - i,
    {
        let ghost rest = ps@.subrange(i as int, ps@.len() as int);
        assert(rest.drop_first() =~= ps@.subrange(i + 1, ps@.len() as int));
        assert(rest[0] == ps@[i as int]);
        if ps[i].0 == *k {
            return Some(i);
        }
        i = i + 1;
    }
    None
}

/// Custom-namespace parameters: every required key must exist in the
/// grant with an equal value; extra granted keys are allowed.
pub fn custom_params_satisfy(granted: &Vec<(String, String)>, required: &Vec<(String, String)>) -> (r: bool)
    ensures
        r == spec_custom_params_satisfy(granted@, required@),
{
    let mut i: usize = 0;
    while i < required.len()
        invariant
            i <= required@.len(),
            forall|k: int|
                0 <= k < i ==> param_lookup(granted@, #[trigger] required@[k].0@) == param_lookup(
                    required@,
                    required@[k].0@,
                ),
        decreases required@.len() - i,
    {
        proof {
            lemma_param_lookup_present(required@, i as int);
        }
        let want = match param_lookup_exec(required, &required[i].0) {
            Some(j) => &required[j].1,
            None => {
                return false;
            },
        };
        match param_lookup_exec(granted, &required[i].0) {
            Some(j) => {
                if granted[j].1 != *want {
                    return false;
                }
            },
            None => {
                return false;
            },
        }
        i = i + 1;
    }
    true
}

/// Filesystem-capability subsumption.
pub fn fs_satisfies(granted: &FsCapability, required: &FsCapability) -> (r: bool)
    ensures
        r == spec_fs_satisfies(*granted, *required),
{
    match (granted, required) {
        (FsCapability::Read { paths: gp }, FsCapability::Read { paths: rp }) => paths_subset(gp, rp),
        (
            FsCapability::Write { paths: gp, max_bytes: gm },
            FsCapability::Write { paths: rp, max_bytes: rm },
        ) => paths_subset(gp, rp) && max_bytes_satisfies(*gm, *rm),
        (FsCapability::Exec { paths: gp }, FsCapability::Exec { paths: rp }) => paths_subset(gp, rp),
        _ => false,
    }
}

/// Network-capability subsumption: hosts covered and methods a subset.
pub fn net_satisfies(granted: &NetCapability, required: &NetCapability) -> (r: bool)
    ensures
        r == spec_capability_satisfies(
            Capability::Network(*granted),
            Capability::Network(*required),
        ),
{
    match (granted, required) {
        (
            NetCapability::Http { hosts: gh, methods: gm },
            NetCapability::Http { hosts: rh, methods: rm },
        ) => net_hosts_subsume(gh, rh) && string_subset(gm, rm),
    }
}

/// Process-capability subsumption: commands covered by the glob rules.
pub fn process_satisfies(granted: &ProcessCapability, required: &ProcessCapability) -> (r: bool)
    ensures
        r == spec_capability_satisfies(
            Capability::Process(*granted),
            Capability::Process(*required),
        ),
{
    match (granted, required) {
        (ProcessCapability::Spawn { commands: gc }, ProcessCapability::Spawn { commands: rc }) =>
            paths_subset(gc, rc),
    }
}

/// Agent-capability subsumption: allowed kinds a subset.
pub fn agent_satisfies(granted: &AgentCapability, required: &AgentCapability) -> (r: bool)
    ensures
        r == spec_capability_satisfies(Capability::Agent(*granted), Capability::Agent(*required)),
{
    match (granted, required) {
        (
            AgentCapability::Spawn { allowed_kinds: gk },
            AgentCapability::Spawn { allowed_kinds: rk },
        ) => string_subset(gk, rk),
    }
}

/// Skill-capability subsumption: allowed skills a subset (an empty
/// required list is covered by any `skill.spawn` grant).
pub fn skill_satisfies(granted: &SkillCapability, required: &SkillCapability) -> (r: bool)
    ensures
        r == spec_capability_satisfies(Capability::Skill(*granted), Capability::Skill(*required)),
{
    match (granted, required) {
        (
            SkillCapability::Spawn { allowed_skills: gs },
            SkillCapability::Spawn { allowed_skills: rs },
        ) => string_subset(gs, rs),
    }
}

/// Whether `granted` covers `required` for one capability pair.
pub fn capability_satisfies(granted: &Capability, required: &Capability) -> (r: bool)
    ensures
        r == spec_capability_satisfies(*granted, *required),
{
    match (granted, required) {
        (Capability::Filesystem(g), Capability::Filesystem(r)) => fs_satisfies(g, r),
        (Capability::Network(g), Capability::Network(r)) => net_satisfies(g, r),
        (Capability::Process(g), Capability::Process(r)) => process_satisfies(g, r),
        (Capability::Agent(g), Capability::Agent(r)) => agent_satisfies(g, r),
        (Capability::TaskList { mode: g }, Capability::TaskList { mode: r }) => task_list_satisfies(
            g.as_str(),
            r.as_str(),
        ),
        (Capability::Plan { mode: g }, Capability::Plan { mode: r }) => plan_satisfies(
            g.as_str(),
            r.as_str(),
        ),
        (Capability::Skill(g), Capability::Skill(r)) => skill_satisfies(g, r),
        (Capability::Custom { name: gn, params: gp }, Capability::Custom { name: rn, params: rp }) =>
            *gn == *rn && custom_params_satisfy(gp, rp),
        _ => false,
    }
}

/// Every required capability must be covered by some grant. Returns the
/// first required capability with no covering grant, or `None` when all
/// are covered.
pub fn check_capabilities<'a>(granted: &[Capability], required: &'a [Capability]) -> (r: Option<
    &'a Capability,
>)
    ensures
        match r {
            None => forall|i: int| 0 <= i < required@.len() ==> covered_by(granted@, #[trigger] required@[i]),
            Some(c) => exists|k: int|
                0 <= k < required@.len() && *c == required@[k] && !covered_by(granted@, required@[k])
                    && forall|i: int| 0 <= i < k ==> covered_by(granted@, #[trigger] required@[i]),
        },
{
    let mut i: usize = 0;
    while i < required.len()
        invariant
            i <= required@.len(),
            forall|k: int| 0 <= k < i ==> covered_by(granted@, #[trigger] required@[k]),
        decreases required@.len() - i,
    {
        let mut found = false;
        let mut j: usize = 0;
        while j < granted.len()
            invariant
                i < required@.len(),
                j <= granted@.len(),
                forall|k: int| 0 <= k < i ==> covered_by(granted@, #[trigger] required@[k]),
                found ==> covered_by(granted@, required@[i as int]),
                !found ==> forall|m: int|
                    0 <= m < j ==> !#[trigger] spec_capability_satisfies(granted@[m], required@[i as int]),
            decreases granted@.len() - j,
        {
            if capability_satisfies(&granted[j], &required[i]) {
                found = true;
            }
            j = j + 1;
        }
        if !found {
            return Some(&required[i]);
        }
        i = i + 1;
    }
    None
}

/// The dispatch-site check for one tool call: the first capability the
/// tool requires that no grant covers, or `None` when the call is
/// allowed.
pub fn check_capabilities_for_tool<'a>(
    tool_name: &str,
    granted: &[Capability],
    required: &'a [Capability],
) -> (r: Option<&'a Capability>)
    ensures
        match r {
            None => forall|i: int| 0 <= i < required@.len() ==> covered_by(granted@, #[trigger] required@[i]),
            Some(c) => exists|k: int|
                0 <= k < required@.len() && *c == required@[k] && !covered_by(granted@, required@[k])
                    && forall|i: int| 0 <= i < k ==> covered_by(granted@, #[trigger] required@[i]),
        },
{
    check_capabilities(granted, required)
}

/// Top-level capability kind string, used in capability denials.
pub fn capability_kind_str(cap: &Capability) -> (r: String)
    ensures
        r@ == spec_kind_str(*cap),
{
    match cap {
        Capability::Filesystem(FsCapability::Read { .. }) => String::from_str("fs.read"),
        Capability::Filesystem(FsCapability::Write { .. }) => String::from_str("fs.write"),
        Capability::Filesystem(FsCapability::Exec { .. }) => String::from_str("fs.exec"),
        Capability::Network(_) => String::from_str("net.http"),
        Capability::Process(_) => String::from_str("process.spawn"),
        Capability::Agent(_) => String::from_str("agent.spawn"),
        Capability::TaskList { .. } => String::from_str("task_list"),
        Capability::Plan { .. } => String::from_str("plan"),
        Capability::Skill(_) => String::from_str("skill.spawn"),
        Capability::Custom { name, .. } => name.clone(),
    }
}

// ---------------------------------------------------------------------------
// Rendering
// ---------------------------------------------------------------------------

/// The rendering of an `Option<u64>` by `{:?}`.
pub open spec fn opt_u64_debug(o: Option<u64>) -> Seq<char> {
    match o {
        None => "None"@,
        Some(n) => "Some("@ + decimal(n as nat) + ")"@,
    }
}

/// The rendering of a key/value pair by `{:?}`: `("k", "v")`.
pub open spec fn pair_debug(p: (String, String)) -> Seq<char> {
    "("@ + str_debug(p.0@) + ", "@ + str_debug(p.1@) + ")"@
}

/// The items of [`pairs_debug`], separated by `, `.
pub open spec fn pairs_debug_items(ps: Seq<(String, String)>) -> Seq<char>
    decreases ps.len(),
{
    if ps.len() == 0 {
        seq![]
    } else if ps.len() == 1 {
        pair_debug(ps[0])
    } else {
        pairs_debug_items(ps.drop_last()) + ", "@ + pair_debug(ps.last())
    }
}

/// The rendering of a list of key/value pairs by `{:?}`.
pub open spec fn pairs_debug(ps: Seq<(String, String)>) -> Seq<char> {
    "["@ + pairs_debug_items(ps) + "]"@
}

/// The rendering of a list of strings by `{:?}`.
pub open spec fn list_debug(v: Seq<String>) -> Seq<char> {
    strings_debug(string_views(v))
}

/// The rendering of a host set by `{:?}`.
pub open spec fn net_hosts_debug(h: NetHosts) -> Seq<char> {
    match h {
        NetHosts::Any => "Any"@,
        NetHosts::List(v) => "List("@ + list_debug(v@) + ")"@,
    }
}

/// The rendering of a capability by `{:?}`, as the derived `Debug`
/// writes it: `Network(Http { hosts: List(["crates.io"]), methods: [] })`.
pub open spec fn capability_debug_text(c: Capability) -> Seq<char> {
    match c {
        Capability::Filesystem(FsCapability::Read { paths }) => "Filesystem(Read { paths: "@
            + list_debug(paths@) + " })"@,
        Capability::Filesystem(FsCapability::Write { paths, max_bytes }) =>
            "Filesystem(Write { paths: "@ + list_debug(paths@) + ", max_bytes: "@ + opt_u64_debug(
            max_bytes,
        ) + " })"@,
        Capability::Filesystem(FsCapability::Exec { paths }) => "Filesystem(Exec { paths: "@
            + list_debug(paths@) + " })"@,
        Capability::Network(NetCapability::Http { hosts, methods }) => "Network(Http { hosts: "@
            + net_hosts_debug(hosts) + ", methods: "@ + list_debug(methods@) + " })"@,
        Capability::Process(ProcessCapability::Spawn { commands }) =>
            "Process(Spawn { commands: "@ + list_debug(commands@) + " })"@,
        Capability::Agent(AgentCapability::Spawn { allowed_kinds }) =>
            "Agent(Spawn { allowed_kinds: "@ + list_debug(allowed_kinds@) + " })"@,
        Capability::TaskList { mode } => "TaskList { mode: "@ + str_debug(mode@) + " }"@,
        Capability::Plan { mode } => "Plan { mode: "@ + str_debug(mode@) + " }"@,
        Capability::Skill(SkillCapability::Spawn { allowed_skills }) =>
            "Skill(Spawn { allowed_skills: "@ + list_debug(allowed_skills@) + " })"@,
        Capability::Custom { name, params } => "Custom { name: "@ + str_debug(name@) + ", params: "@
            + pairs_debug(params@) + " }"@,
    }
}

fn render_opt_u64(o: Option<u64>) -> (s: String)
    ensures
        s@ == opt_u64_debug(o),
{
    match o {
        None => String::from_str("None"),
        Some(n) => {
            let mut s = String::from_str("Some(");
            let d = u64_to_decimal(n);
            s.append(d.as_str());
            s.append(")");
            s
        },
    }
}

fn render_pair(p: &(String, String)) -> (s: String)
    ensures
        s@ == pair_debug(*p),
{
    let mut s = String::from_str("(");
    let a = debug_str(p.0.as_str());
    s.append(a.as_str());
    s.append(", ");
    let b = debug_str(p.1.as_str());
    s.append(b.as_str());
    s.append(")");
    s
}

fn render_pairs(ps: &Vec<(String, String)>) -> (s: String)
    ensures
        s@ == pairs_debug(ps@),
{
    let mut s = String::from_str("[");
    let mut i: usize = 0;
    while i < ps.len()
        invariant
            i <= ps@.len(),
            s@ == "["@ + pairs_debug_items(ps@.take(i as int)),
        decreases ps@.len() - i,
    {
        let ghost w = ps@.take(i + 1);
        assert(w.drop_last() =~= ps@.take(i as int));
        assert(w.last() == ps@[i as int]);
        if i > 0 {
            s.append(", ");
        }
        let d = render_pair(&ps[i]);
        s.append(d.as_str());
        assert(s@ =~= "["@ + pairs_debug_items(w));
        i = i + 1;
    }
    assert(ps@.take(ps@.len() as int) =~= ps@);
    s.append("]");
    s
}

/// Wraps `inner` as `head` + `inner` + ` })`.
fn wrap(head: &str, inner: String) -> (s: String)
    ensures
        s@ == head@ + inner@ + " })"@,
{
    let mut s = String::from_str(head);
    s.append(inner.as_str());
    s.append(" })");
    s
}

/// Renders a capability as `{:?}` does (see [`capability_debug_text`]);
/// capability denials carry it as their detail.
pub fn capability_debug(c: &Capability) -> (s: String)
    ensures
        s@ == capability_debug_text(*c),
{
    match c {
        Capability::Filesystem(FsCapability::Read { paths }) => wrap(
            "Filesystem(Read { paths: ",
            render_strings_debug(paths),
        ),
        Capability::Filesystem(FsCapability::Write { paths, max_bytes }) => {
            let mut s = String::from_str("Filesystem(Write { paths: ");
            let l = render_strings_debug(paths);
            s.append(l.as_str());
            s.append(", max_bytes: ");
            let m = render_opt_u64(*max_bytes);
            s.append(m.as_str());
            s.append(" })");
            s
        },
        Capability::Filesystem(FsCapability::Exec { paths }) => wrap(
            "Filesystem(Exec { paths: ",
            render_strings_debug(paths),
        ),
        Capability::Network(NetCapability::Http { hosts, methods }) => {
            let mut s = String::from_str("Network(Http { hosts: ");
            match hosts {
                NetHosts::Any => s.append("Any"),
                NetHosts::List(v) => {
                    s.append("List(");
                    let l = render_strings_debug(v);
                    s.append(l.as_str());
                    s.append(")");
                },
            }
            s.append(", methods: ");
            let m = render_strings_debug(methods);
            s.append(m.as_str());
            s.append(" })");
            s
        },
        Capability::Process(ProcessCapability::Spawn { commands }) => wrap(
            "Process(Spawn { commands: ",
            render_strings_debug(commands),
        ),
        Capability::Agent(AgentCapability::Spawn { allowed_kinds }) => wrap(
            "Agent(Spawn { allowed_kinds: ",
            render_strings_debug(allowed_kinds),
        ),
        Capability::TaskList { mode } => {
            let mut s = String::from_str("TaskList { mode: ");
            let d = debug_str(mode.as_str());
            s.append(d.as_str());
            s.append(" }");
            s
        },
        Capability::Plan { mode } => {
            let mut s = String::from_str("Plan { mode: ");
            let d = debug_str(mode.as_str());
            s.append(d.as_str());
            s.append(" }");
            s
        },
        Capability::Skill(SkillCapability::Spawn { allowed_skills }) => wrap(
            "Skill(Spawn { allowed_skills: ",
            render_strings_debug(allowed_skills),
        ),
        Capability::Custom { name, params } => {
            let mut s = String::from_str("Custom { name: ");
            let d = debug_str(name.as_str());
            s.append(d.as_str());
            s.append(", params: ");
            let p = render_pairs(params);
            s.append(p.as_str());
            s.append(" }");
            s
        },
    }
}

// ---------------------------------------------------------------------------
// Laws
// ---------------------------------------------------------------------------

/// No segment of `p` is the bare `*.` (which matches nothing, itself
/// included).
pub open spec fn no_bare_star_dot(p: Seq<char>) -> bool {
    forall|k: int| 0 <= k < split_slash(p).len() ==> #[trigger] split_slash(p)[k] != seq!['*', '.']
}

/// Every pattern of a path list is free of bare `*.` segments.
pub open spec fn paths_reflexive_ok(ps: Seq<String>) -> bool {
    forall|i: int| 0 <= i < ps.len() ==> no_bare_star_dot(#[trigger] ps[i]@)
}

/// The inputs on which a capability satisfies itself: no bare `*.`
/// segment in its patterns, and known task-list / plan modes.
pub open spec fn reflexive_ok(c: Capability) -> bool {
    match c {
        Capability::Filesystem(FsCapability::Read { paths }) => paths_reflexive_ok(paths@),
        Capability::Filesystem(FsCapability::Write { paths, .. }) => paths_reflexive_ok(paths@),
        Capability::Filesystem(FsCapability::Exec { paths }) => paths_reflexive_ok(paths@),
        Capability::Network(NetCapability::Http { hosts, .. }) => match hosts {
            NetHosts::Any => true,
            NetHosts::List(h) => paths_reflexive_ok(h@),
        },
        Capability::Process(ProcessCapability::Spawn { commands }) => paths_reflexive_ok(commands@),
        Capability::TaskList { mode } => task_list_rank(mode@) is Some,
        Capability::Plan { mode } => plan_rank(mode@) is Some,
        _ => true,
    }
}

proof fn lemma_segment_reflexive(s: Seq<char>)
    requires
        s != seq!['*', '.'],
    ensures
        segment_match(s, s),
{
    if s != seq!['*'] && s.len() >= 2 && s[0] == '*' && s[1] == '.' {
        if s.len() == 2 {
            assert(s =~= seq!['*', '.']);
        }
        assert(s.subrange(s.len() - (s.len() - 1), s.len() as int) =~= s.subrange(1, s.len() as int));
    }
}

proof fn lemma_glob_segs_reflexive(p: Seq<Seq<char>>)
    requires
        forall|k: int| 0 <= k < p.len() ==> #[trigger] p[k] != seq!['*', '.'],
    ensures
        segs_match(p, p),
    decreases p.len(),
{
    if p.len() > 0 {
        let rest = p.drop_first();
        assert forall|k: int| 0 <= k < rest.len() implies #[trigger] rest[k] != seq!['*', '.'] by {
            assert(rest[k] == p[k + 1]);
        };
        lemma_glob_segs_reflexive(rest);
        if p[0] == double_star() {
            assert(p.subrange(1, p.len() as int) =~= rest);
            lemma_star_upto(p, p, p.len() as int + 1);
            assert(segs_match(p.drop_first(), p.subrange(1, p.len() as int)));
        } else {
            assert(p[0] != seq!['*', '.']);
            lemma_segment_reflexive(p[0]);
        }
    }
}

/// A pattern without bare `*.` segments matches itself.
pub proof fn lemma_glob_reflexive(p: Seq<char>)
    requires
        no_bare_star_dot(p),
    ensures
        pattern_matches(p, p),
{
    lemma_glob_segs_reflexive(split_slash(p));
}

proof fn lemma_paths_reflexive(ps: Seq<String>)
    requires
        paths_reflexive_ok(ps),
    ensures
        spec_paths_subset(ps, ps),
{
    assert forall|i: int| 0 <= i < ps.len() implies #[trigger] path_covered(ps, ps[i]) by {
        assert(no_bare_star_dot(ps[i]@));
        lemma_glob_reflexive(ps[i]@);
        assert(pattern_matches(ps[i]@, ps[i]@));
    };
}

proof fn lemma_strings_reflexive(ps: Seq<String>)
    ensures
        spec_string_subset(ps, ps),
{
    assert forall|i: int| 0 <= i < ps.len() implies #[trigger] string_covered(ps, ps[i]) by {
        assert(ps[i]@ == ps[i]@);
    };
}

/// Reflexivity: every capability satisfies itself, on the inputs named
/// by `reflexive_ok`.
pub proof fn law_capability_reflexive(c: Capability)
    requires
        reflexive_ok(c),
    ensures
        spec_capability_satisfies(c, c),
{
    match c {
        Capability::Filesystem(FsCapability::Read { paths }) => lemma_paths_reflexive(paths@),
        Capability::Filesystem(FsCapability::Write { paths, .. }) => lemma_paths_reflexive(paths@),
        Capability::Filesystem(FsCapability::Exec { paths }) => lemma_paths_reflexive(paths@),
        Capability::Network(NetCapability::Http { hosts, methods }) => {
            lemma_strings_reflexive(methods@);
            match hosts {
                NetHosts::Any => {},
                NetHosts::List(h) => lemma_paths_reflexive(h@),
            }
        },
        Capability::Process(ProcessCapability::Spawn { commands }) => lemma_paths_reflexive(
            commands@,
        ),
        Capability::Agent(AgentCapability::Spawn { allowed_kinds }) => lemma_strings_reflexive(
            allowed_kinds@,
        ),
        Capability::Skill(SkillCapability::Spawn { allowed_skills }) => lemma_strings_reflexive(
            allowed_skills@,
        ),
        _ => {},
    }
}

/// Wrong-namespace rejection: a grant never covers a request of another
/// top-level namespace.
pub proof fn law_wrong_namespace_denies(granted: Capability, required: Capability)
    requires
        namespace_of(granted) != namespace_of(required),
    ensures
        !spec_capability_satisfies(granted, required),
{
}

/// A string with no `/` splits into itself alone.
proof fn lemma_split_no_slash(s: Seq<char>)
    requires
        !s.contains('/'),
    ensures
        split_slash(s) == seq![s],
    decreases s.len(),
{
    if s.len() > 0 {
        let init = s.drop_last();
        assert(!init.contains('/')) by {
            if init.contains('/') {
                let k = choose|k: int| 0 <= k < init.len() && init[k] == '/';
                assert(s[k] == '/');
            }
        };
        lemma_split_no_slash(init);
        assert(s.last() != '/') by {
            assert(s[s.len() - 1] == s.last());
        };
        assert(init.push(s.last()) =~= s);
        assert(split_slash(s) =~= seq![s]);
    } else {
        assert(s =~= Seq::<char>::empty());
    }
}

/// Splitting `a + "/" + b` splits `a` and `b` separately.
proof fn lemma_split_join(a: Seq<char>, b: Seq<char>)
    ensures
        split_slash(a.push('/') + b) == split_slash(a) + split_slash(b),
    decreases b.len(),
{
    lemma_split_slash_nonempty(a);
    if b.len() == 0 {
        assert(a.push('/') + b =~= a.push('/'));
        assert((a.push('/')).drop_last() =~= a);
        assert(split_slash(a) + split_slash(b) =~= split_slash(a).push(Seq::<char>::empty()));
    } else {
        let s = a.push('/') + b;
        assert(s.drop_last() =~= a.push('/') + b.drop_last());
        assert(s.last() == b.last());
        lemma_split_join(a, b.drop_last());
        lemma_split_slash_nonempty(b.drop_last());
        let sa = split_slash(a);
        let sb = split_slash(b.drop_last());
        if b.last() == '/' {
            assert((sa + sb).push(Seq::<char>::empty()) =~= sa + sb.push(Seq::<char>::empty()));
        } else {
            let whole = sa + sb;
            assert(whole.last() == sb.last());
            assert(whole.update(whole.len() - 1, whole.last().push(b.last())) =~= sa + sb.update(
                sb.len() - 1,
                sb.last().push(b.last()),
            ));
        }
    }
}

/// Glob superset: a `/<prefix>/**` grant matches every path under
/// `/<prefix>/`, for a prefix segment with no `/` and no `*`.
pub proof fn law_glob_superset(prefix: Seq<char>, rest: Seq<char>)
    requires
        !prefix.contains('/'),
        !prefix.contains('*'),
    ensures
        pattern_matches(
            seq!['/'] + prefix + seq!['/', '*', '*'],
            seq!['/'] + prefix + seq!['/'] + rest,
        ),
{
    let e = Seq::<char>::empty();
    // pattern = "" / prefix / "**"
    assert(seq!['/'] + prefix + seq!['/', '*', '*'] =~= e.push('/') + (prefix.push('/') + seq![
        '*',
        '*',
    ]));
    lemma_split_join(e, prefix.push('/') + seq!['*', '*']);
    lemma_split_join(prefix, seq!['*', '*']);
    lemma_split_no_slash(prefix);
    lemma_split_no_slash(seq!['*', '*']);
    assert(!seq!['*', '*'].contains('/')) by {
        if seq!['*', '*'].contains('/') {
            let k = choose|k: int| 0 <= k < 2 && seq!['*', '*'][k] == '/';
        }
    };
    lemma_split_no_slash(seq!['*', '*']);
    lemma_split_no_slash(e);
    let ps = split_slash(seq!['/'] + prefix + seq!['/', '*', '*']);
    assert(ps =~= seq![e, prefix, double_star()]);
    // candidate = "" / prefix / rest...
    assert(seq!['/'] + prefix + seq!['/'] + rest =~= e.push('/') + (prefix.push('/') + rest));
    lemma_split_join(e, prefix.push('/') + rest);
    lemma_split_join(prefix, rest);
    let sr = split_slash(rest);
    let cs = split_slash(seq!['/'] + prefix + seq!['/'] + rest);
    assert(cs =~= seq![e, prefix] + sr);
    // segment-wise
    assert(segment_match(e, e));
    assert(prefix.len() == 0 || prefix[0] != '*') by {
        if prefix.len() > 0 && prefix[0] == '*' {
            assert(prefix.contains('*'));
        }
    };
    assert(segment_match(prefix, prefix)) by {
        if prefix == seq!['*'] {
            assert(prefix[0] == '*');
        }
    };
    let p2 = ps.drop_first().drop_first();
    let c2 = cs.drop_first().drop_first();
    assert(p2 =~= seq![double_star()]);
    assert(c2 =~= sr);
    lemma_star_upto(p2, c2, c2.len() as int + 1);
    assert(p2.drop_first() =~= Seq::<Seq<char>>::empty());
    assert(c2.subrange(c2.len() as int, c2.len() as int) =~= Seq::<Seq<char>>::empty());
    assert(segs_match(p2.drop_first(), c2.subrange(c2.len() as int, c2.len() as int)));
    assert(segs_match(p2, c2));
    assert(ps.drop_first() =~= seq![prefix, double_star()]);
    assert(cs.drop_first() =~= seq![prefix] + sr);
    assert(segs_match(ps.drop_first(), cs.drop_first()));
    assert(segs_match(ps, cs));
}


/// Every capability of `required` is covered by some grant.
pub open spec fn all_covered(granted: Seq<Capability>, required: Seq<Capability>) -> bool {
    forall|i: int| 0 <= i < required.len() ==> covered_by(granted, #[trigger] required[i])
}

/// The names of the tools whose required capabilities the grant covers,
/// in registry order.
pub open spec fn offered_names(granted: Seq<Capability>, tools: Seq<(String, Vec<Capability>)>) -> Seq<
    Seq<char>,
>
    decreases tools.len(),
{
    if tools.len() == 0 {
        seq![]
    } else {
        let prev = offered_names(granted, tools.drop_last());
        if all_covered(granted, tools.last().1@) {
            prev.push(tools.last().0@)
        } else {
            prev
        }
    }
}

/// The tools offered to the model: those (by name, with their required
/// capabilities) whose every required capability the grant covers, in
/// registry order; the others are filtered out.
pub fn offered_tool_names(granted: &[Capability], tools: &Vec<(String, Vec<Capability>)>) -> (r: Vec<
    String,
>)
    ensures
        r@.map_values(|s: String| s@) == offered_names(granted@, tools@),
{
    let mut out: Vec<String> = Vec::new();
    let mut i: usize = 0;
    while i < tools.len()
        invariant
            i <= tools@.len(),
            out@.map_values(|s: String| s@) == offered_names(granted@, tools@.take(i as int)),
        decreases tools@.len() - i,
    {
        proof {
            assert(tools@.take(i + 1).drop_last() =~= tools@.take(i as int));
        }
        let missing = check_capabilities(granted, tools[i].1.as_slice());
        if missing.is_none() {
            out.push(tools[i].0.clone());
        }
        proof {
            if missing is Some {
                assert(!all_covered(granted@, tools@[i as int].1@));
            }
            assert(out@.map_values(|s: String| s@) =~= offered_names(granted@, tools@.take(i + 1)));
        }
        i = i + 1;
    }
    assert(tools@.take(tools@.len() as int) =~= tools@);
    out
}

/// A tool is offered to the model exactly when a call to it would pass
/// the dispatch-site capability check: the offered names are those whose
/// required capabilities [`check_capabilities`] finds nothing missing in.
pub proof fn law_offered_iff_dispatch_allows(
    granted: Seq<Capability>,
    tools: Seq<(String, Vec<Capability>)>,
    k: int,
)
    requires
        0 <= k < tools.len(),
        forall|i: int, j: int| 0 <= i < j < tools.len() ==> (#[trigger] tools[i]).0@ != (#[trigger] tools[j]).0@,
    ensures
        offered_names(granted, tools).contains(tools[k].0@) <==> all_covered(granted, tools[k].1@),
    decreases tools.len(),
{
    let prev = tools.drop_last();
    let po = offered_names(granted, prev);
    let n = tools[k].0@;
    let last = tools.last();
    if k == tools.len() - 1 {
        if all_covered(granted, tools[k].1@) {
            assert(offered_names(granted, tools) == po.push(n));
            assert(po.push(n)[po.len() as int] == n);
        } else {
            assert forall|j: int| 0 <= j < prev.len() implies (#[trigger] prev[j]).0@ != n by {
                assert(prev[j] == tools[j]);
            }
            lemma_offered_subset(granted, prev, n);
        }
    } else {
        assert forall|i: int, j: int| 0 <= i < j < prev.len() implies (#[trigger] prev[i]).0@ != (
        #[trigger] prev[j]).0@ by {
            assert(prev[i] == tools[i]);
            assert(prev[j] == tools[j]);
        }
        law_offered_iff_dispatch_allows(granted, prev, k);
        assert(prev[k] == tools[k]);
        assert(last.0@ != n);
        if all_covered(granted, last.1@) {
            assert(offered_names(granted, tools) == po.push(last.0@));
            if po.contains(n) {
                let w = choose|w: int| 0 <= w < po.len() && po[w] == n;
                assert(po.push(last.0@)[w] == n);
            }
            if po.push(last.0@).contains(n) {
                let w = choose|w: int| 0 <= w < po.len() + 1 && po.push(last.0@)[w] == n;
                assert(w < po.len());
                assert(po[w] == n);
            }
        }
    }
}

/// A name not among the tools is not offered.
proof fn lemma_offered_subset(granted: Seq<Capability>, tools: Seq<(String, Vec<Capability>)>, n: Seq<char>)
    requires
        forall|j: int| 0 <= j < tools.len() ==> (#[trigger] tools[j]).0@ != n,
    ensures
        !offered_names(granted, tools).contains(n),
    decreases tools.len(),
{
    if tools.len() > 0 {
        assert forall|j: int| 0 <= j < tools.drop_last().len() implies (
        #[trigger] tools.drop_last()[j]).0@ != n by {
            assert(tools.drop_last()[j] == tools[j]);
        }
        lemma_offered_subset(granted, tools.drop_last(), n);
    }
}

/// Some granted pattern matches the host `h`.
pub open spec fn host_matched(g: Seq<String>, h: Seq<char>) -> bool {
    exists|j: int| 0 <= j < g.len() && #[trigger] pattern_matches(g[j]@, h)
}

/// Every requested host matches some granted host pattern.
pub open spec fn each_host_matched(g: Seq<String>, r: Seq<String>) -> bool {
    forall|i: int| 0 <= i < r.len() ==> host_matched(g, #[trigger] r[i]@)
}

/// The method `m` is among the granted ones.
pub open spec fn method_granted(g: Seq<String>, m: Seq<char>) -> bool {
    exists|j: int| 0 <= j < g.len() && #[trigger] g[j]@ == m
}

/// Every requested method is among the granted ones.
pub open spec fn each_method_granted(g: Seq<String>, r: Seq<String>) -> bool {
    forall|i: int| 0 <= i < r.len() ==> method_granted(g, #[trigger] r[i]@)
}

proof fn lemma_paths_subset_iff(g: Seq<String>, r: Seq<String>)
    ensures
        spec_paths_subset(g, r) <==> each_host_matched(g, r),
{
    if spec_paths_subset(g, r) {
        assert forall|i: int| 0 <= i < r.len() implies host_matched(g, #[trigger] r[i]@) by {
            assert(path_covered(g, r[i]));
        }
    }
    if each_host_matched(g, r) {
        assert forall|i: int| 0 <= i < r.len() implies #[trigger] path_covered(g, r[i]) by {
            assert(host_matched(g, r[i]@));
        }
    }
}

proof fn lemma_string_subset_iff(g: Seq<String>, r: Seq<String>)
    ensures
        spec_string_subset(g, r) <==> each_method_granted(g, r),
{
    if spec_string_subset(g, r) {
        assert forall|i: int| 0 <= i < r.len() implies method_granted(g, #[trigger] r[i]@) by {
            assert(string_covered(g, r[i]));
        }
    }
    if each_method_granted(g, r) {
        assert forall|i: int| 0 <= i < r.len() implies #[trigger] string_covered(g, r[i]) by {
            assert(method_granted(g, r[i]@));
        }
    }
}

/// Network grants fail closed on hosts and methods: an HTTP grant covers
/// an HTTP request exactly when (a) the request's hosts are covered — a
/// request for any host only by a grant for any host, a list of hosts by
/// a grant for any host or by a list in which every requested host
/// matches some granted pattern — and (b) every requested method is
/// granted.
pub proof fn law_network_grant_covers(gh: NetHosts, gm: Vec<String>, rh: NetHosts, rm: Vec<String>)
    ensures
        spec_capability_satisfies(
            Capability::Network(NetCapability::Http { hosts: gh, methods: gm }),
            Capability::Network(NetCapability::Http { hosts: rh, methods: rm }),
        ) <==> ({
            &&& match rh {
                NetHosts::Any => gh is Any,
                NetHosts::List(r) => match gh {
                    NetHosts::Any => true,
                    NetHosts::List(g) => each_host_matched(g@, r@),
                },
            }
            &&& each_method_granted(gm@, rm@)
        }),
{
    lemma_string_subset_iff(gm@, rm@);
    match (gh, rh) {
        (NetHosts::List(g), NetHosts::List(r)) => {
            lemma_paths_subset_iff(g@, r@);
        },
        _ => {},
    }
}
/// The order of task-list modes, written out: `manage` covers all three,
/// `write` covers `write` and `read`, `read` only `read`; an unknown mode
/// covers and is covered by nothing.
pub open spec fn task_mode_covers(g: Seq<char>, r: Seq<char>) -> bool {
    (g == "manage"@ && (r == "manage"@ || r == "write"@ || r == "read"@)) || (g == "write"@ && (r
        == "write"@ || r == "read"@)) || (g == "read"@ && r == "read"@)
}

/// The order of plan modes: `write` covers both, `read` only `read`.
pub open spec fn plan_mode_covers(g: Seq<char>, r: Seq<char>) -> bool {
    (g == "write"@ && (r == "write"@ || r == "read"@)) || (g == "read"@ && r == "read"@)
}

/// When a grant covers a required capability, over all pairs: a file
/// system grant covers a request of the same access kind whose every path
/// matches some granted pattern (and, for writes, whose byte bound the
/// grant's bound covers: no bound covers all, a bound covers only a bound
/// no larger); network as in [`law_network_grant_covers`]; process spawn
/// by pattern on every command; agent and skill spawn when every
/// requested kind or skill is granted; task lists and plans by their mode
/// order; a custom capability of the same name when every requested
/// parameter is granted with the value the request gives it. Nothing
/// else covers anything.
pub proof fn law_grant_covers(g: Capability, r: Capability)
    ensures
        spec_capability_satisfies(g, r) <==> match (g, r) {
            (
                Capability::Filesystem(FsCapability::Read { paths: gp }),
                Capability::Filesystem(FsCapability::Read { paths: rp }),
            ) => each_host_matched(gp@, rp@),
            (
                Capability::Filesystem(FsCapability::Write { paths: gp, max_bytes: gm }),
                Capability::Filesystem(FsCapability::Write { paths: rp, max_bytes: rm }),
            ) => each_host_matched(gp@, rp@) && (gm is None || (rm is Some && gm->0 >= rm->0)),
            (
                Capability::Filesystem(FsCapability::Exec { paths: gp }),
                Capability::Filesystem(FsCapability::Exec { paths: rp }),
            ) => each_host_matched(gp@, rp@),
            (
                Capability::Network(NetCapability::Http { hosts: gh, methods: gm }),
                Capability::Network(NetCapability::Http { hosts: rh, methods: rm }),
            ) => (match rh {
                NetHosts::Any => gh is Any,
                NetHosts::List(rl) => match gh {
                    NetHosts::Any => true,
                    NetHosts::List(gl) => each_host_matched(gl@, rl@),
                },
            }) && each_method_granted(gm@, rm@),
            (
                Capability::Process(ProcessCapability::Spawn { commands: gc }),
                Capability::Process(ProcessCapability::Spawn { commands: rc }),
            ) => each_host_matched(gc@, rc@),
            (
                Capability::Agent(AgentCapability::Spawn { allowed_kinds: gk }),
                Capability::Agent(AgentCapability::Spawn { allowed_kinds: rk }),
            ) => each_method_granted(gk@, rk@),
            (Capability::TaskList { mode: gmode }, Capability::TaskList { mode: rmode }) =>
                task_mode_covers(gmode@, rmode@),
            (Capability::Plan { mode: gmode }, Capability::Plan { mode: rmode }) => plan_mode_covers(
                gmode@,
                rmode@,
            ),
            (
                Capability::Skill(SkillCapability::Spawn { allowed_skills: gs }),
                Capability::Skill(SkillCapability::Spawn { allowed_skills: rs }),
            ) => each_method_granted(gs@, rs@),
            (Capability::Custom { name: gn, params: gp }, Capability::Custom { name: rn, params: rp }) =>
                gn@ == rn@ && forall|i: int|
                0 <= i < rp@.len() ==> param_lookup(gp@, #[trigger] rp@[i].0@) == param_lookup(
                    rp@,
                    rp@[i].0@,
                ),
            _ => false,
        },
{
    match (g, r) {
        (
            Capability::Filesystem(FsCapability::Read { paths: gp }),
            Capability::Filesystem(FsCapability::Read { paths: rp }),
        ) => lemma_paths_subset_iff(gp@, rp@),
        (
            Capability::Filesystem(FsCapability::Write { paths: gp, .. }),
            Capability::Filesystem(FsCapability::Write { paths: rp, .. }),
        ) => lemma_paths_subset_iff(gp@, rp@),
        (
            Capability::Filesystem(FsCapability::Exec { paths: gp }),
            Capability::Filesystem(FsCapability::Exec { paths: rp }),
        ) => lemma_paths_subset_iff(gp@, rp@),
        (
            Capability::Network(NetCapability::Http { hosts: gh, methods: gm }),
            Capability::Network(NetCapability::Http { hosts: rh, methods: rm }),
        ) => law_network_grant_covers(gh, gm, rh, rm),
        (
            Capability::Process(ProcessCapability::Spawn { commands: gc }),
            Capability::Process(ProcessCapability::Spawn { commands: rc }),
        ) => lemma_paths_subset_iff(gc@, rc@),
        (
            Capability::Agent(AgentCapability::Spawn { allowed_kinds: gk }),
            Capability::Agent(AgentCapability::Spawn { allowed_kinds: rk }),
        ) => lemma_string_subset_iff(gk@, rk@),
        (
            Capability::Skill(SkillCapability::Spawn { allowed_skills: gs }),
            Capability::Skill(SkillCapability::Spawn { allowed_skills: rs }),
        ) => lemma_string_subset_iff(gs@, rs@),
        (Capability::TaskList { mode: gmode }, Capability::TaskList { mode: rmode }) => {
            reveal_strlit("read");
            reveal_strlit("write");
            reveal_strlit("manage");
            assert("read"@.len() == 4 && "write"@.len() == 5 && "manage"@.len() == 6);
        },
        (Capability::Plan { mode: gmode }, Capability::Plan { mode: rmode }) => {
            reveal_strlit("read");
            reveal_strlit("write");
            assert("read"@.len() == 4 && "write"@.len() == 5);
        },
        _ => {},
    }
}

} // verus!
