//! Cgroup handling of the minion sandbox: detecting the cgroup version,
//! planning the setup of a jail's cgroups, and joining them.

use crate::text::{decimal, decimal_string, is_numeral_of, lemma_decimal_reads_back};
use vstd::prelude::*;

verus! {

/// A raw file descriptor.
pub type Handle = i32;

/// The cgroup hierarchy that the host mounts at `/sys/fs/cgroup`.
#[derive(Debug, Clone, Copy, PartialEq, Eq, Structural)]
pub enum CgroupVersion {
    V1,
    V2,
}

/// The cached code of cgroups v1.
pub const CGROUP_VERSION_1: u8 = 1;

/// The cached code of cgroups v2.
pub const CGROUP_VERSION_2: u8 = 2;

/// `statfs` filesystem magic of a cgroups v1 hierarchy (`CGROUP_SUPER_MAGIC`).
pub const CGROUP_SUPER_MAGIC: i64 = 0x27e0eb;

/// `statfs` filesystem magic of a cgroups v2 hierarchy (`CGROUP2_SUPER_MAGIC`).
pub const CGROUP2_SUPER_MAGIC: i64 = 0x63677270;

/// The cgroup version of a filesystem magic.
pub open spec fn version_of_magic(magic: i64) -> Option<CgroupVersion> {
    if magic == CGROUP_SUPER_MAGIC {
        Some(CgroupVersion::V1)
    } else if magic == CGROUP2_SUPER_MAGIC {
        Some(CgroupVersion::V2)
    } else {
        None
    }
}

/// The cached code of a cgroup version.
pub open spec fn version_code(v: CgroupVersion) -> u8 {
    match v {
        CgroupVersion::V1 => CGROUP_VERSION_1,
        CgroupVersion::V2 => CGROUP_VERSION_2,
    }
}

/// Whether a filesystem magic is that of a cgroup hierarchy (v1 or v2); the
/// version detection fails on any other.
pub fn is_cgroup_fs_magic(fs_magic: i64) -> (r: bool)
    ensures
        r == version_of_magic(fs_magic) is Some,
{
    fs_magic == CGROUP_SUPER_MAGIC || fs_magic == CGROUP2_SUPER_MAGIC
}

/// The version code of the filesystem at `/sys/fs/cgroup`, from its `statfs`
/// magic (`man 2 statfs`).
pub fn do_detect_cgroup_version(fs_magic: i64) -> (r: u8)
    requires
        version_of_magic(fs_magic) is Some,
    ensures
        r == version_code(version_of_magic(fs_magic)->0),
        r == CGROUP_VERSION_1 || r == CGROUP_VERSION_2,
{
    if fs_magic == CGROUP_SUPER_MAGIC {
        CGROUP_VERSION_1
    } else {
        CGROUP_VERSION_2
    }
}

/// The cgroup version once it has been detected.
pub struct CgroupVersionCache {
    code: u8,
}

impl CgroupVersionCache {
    #[verifier::type_invariant]
    spec fn holds_a_code(self) -> bool {
        self.code == 0 || self.code == CGROUP_VERSION_1 || self.code == CGROUP_VERSION_2
    }

    /// The cached version, if one was detected.
    pub closed spec fn cached(self) -> Option<CgroupVersion> {
        if self.code == CGROUP_VERSION_1 {
            Some(CgroupVersion::V1)
        } else if self.code == CGROUP_VERSION_2 {
            Some(CgroupVersion::V2)
        } else {
            None
        }
    }

    /// A cache that holds no version yet.
    pub fn new() -> (c: CgroupVersionCache)
        ensures
            c.cached() is None,
    {
        CgroupVersionCache { code: 0 }
    }
}

/// The answer of one detection: a cached version as it is, otherwise the
/// version of the probed magic.
pub open spec fn detection(cached: Option<CgroupVersion>, magic: i64) -> CgroupVersion {
    match cached {
        Some(v) => v,
        None => version_of_magic(magic)->0,
    }
}

/// Whether every magic that the probe can return is a cgroup magic.
pub open spec fn probe_finds_cgroups<F: FnOnce() -> i64>(probe: F) -> bool {
    forall|magic: i64| call_ensures(probe, (), magic) ==> #[trigger] version_of_magic(magic) is Some
}

/// The cgroup version of the host. The filesystem magic of
/// `/sys/fs/cgroup` is probed only while no version is cached, and the
/// detected version is cached.
pub fn detect_cgroup_version<F: FnOnce() -> i64>(cache: &mut CgroupVersionCache, probe: F) -> (r:
    CgroupVersion)
    requires
        call_requires(probe, ()),
        old(cache).cached() is None ==> probe_finds_cgroups(probe),
    ensures
        final(cache).cached() == Some(r),
        old(cache).cached() is Some ==> r == old(cache).cached()->0,
        old(cache).cached() is None ==> exists|magic: i64|
            call_ensures(probe, (), magic) && r == #[trigger] detection(None, magic),
{
    proof {
        use_type_invariant(&*cache);
    }
    if cache.code == 0 {
        let magic = probe();
        assert(version_of_magic(magic) is Some);
        cache.code = do_detect_cgroup_version(magic);
        assert(detection(None, magic) == cache.cached()->0);
    }
    if cache.code == CGROUP_VERSION_1 {
        CgroupVersion::V1
    } else {
        CgroupVersion::V2
    }
}

/// Once detection has answered a version, it keeps answering that version,
/// whatever a later probe would see.
pub proof fn lemma_detection_is_sticky(cached: Option<CgroupVersion>, first: i64, later: i64)
    ensures
        detection(Some(detection(cached, first)), later) == detection(cached, first),
{
}

/// The cgroup files through which a process joins a jail's cgroups.
#[derive(Clone, Debug, PartialEq)]
pub enum GroupHandles {
    /// For cgroups v1, the `tasks` file of each hierarchy.
    V1(Vec<Handle>),
    /// For cgroups v2, the `cgroup.procs` file of the cgroup.
    V2(Handle),
}

/// The cgroups of one jail.
#[derive(Clone, Debug, PartialEq)]
pub struct Group {
    handles: GroupHandles,
    id: String,
}

/// What joining a group writes: the pid in decimal, to each handle in order.
#[derive(Debug, PartialEq)]
pub struct JoinPlan {
    pub handles: Vec<Handle>,
    pub payload: String,
}

/// The handles, in the order they were opened.
pub open spec fn handle_list(handles: GroupHandles) -> Seq<Handle> {
    match handles {
        GroupHandles::V1(handles) => handles@,
        GroupHandles::V2(handle) => seq![handle],
    }
}

impl Group {
    /// The handles of the group.
    pub closed spec fn handles(self) -> GroupHandles {
        self.handles
    }

    /// The handles of the group, in the order they were opened.
    pub open spec fn handle_seq(self) -> Seq<Handle> {
        handle_list(self.handles())
    }

    /// The jail the group belongs to.
    pub closed spec fn jail_id(self) -> Seq<char> {
        self.id@
    }

    /// A group over the given handles.
    pub fn new(handles: GroupHandles, id: String) -> (g: Group)
        ensures
            g.handles() == handles,
            g.jail_id() == id@,
    {
        Group { handles, id }
    }

    /// The jail the group belongs to.
    pub fn id(&self) -> (r: &String)
        ensures
            r@ == self.jail_id(),
    {
        &self.id
    }

    /// How the process `pid` joins the group: the decimal pid, written to
    /// every handle of the group in turn.
    pub fn join_self(&self, pid: u32) -> (plan: JoinPlan)
        ensures
            plan.handles@ == self.handle_seq(),
            plan.payload@ == decimal(pid as nat),
    {
        let mut handles: Vec<Handle> = Vec::new();
        match &self.handles {
            GroupHandles::V1(v) => {
                let mut i: usize = 0;
                while i < v.len()
                    invariant
                        0 <= i <= v.len(),
                        handles@ == v@.subrange(0, i as int),
                    decreases v.len() - i,
                {
                    handles.push(v[i]);
                    i = i + 1;
                    assert(handles@ =~= v@.subrange(0, i as int));
                }
                assert(v@.subrange(0, i as int) =~= v@);
            },
            GroupHandles::V2(h) => {
                handles.push(*h);
                assert(handles@ =~= seq![*h]);
            },
        }
        JoinPlan { handles, payload: decimal_string(pid as u64) }
    }
}

/// The limits of a jail that its cgroups enforce.
#[derive(Debug, PartialEq)]
pub struct JailOptions {
    pub jail_id: String,
    pub max_alive_process_count: u32,
    pub memory_limit: u64,
}

/// A cgroups v1 hierarchy that a jail uses.
#[derive(Debug, Clone, Copy, PartialEq, Eq, Structural)]
pub enum LegacySubsystem {
    Cpuacct,
    Pids,
    Memory,
}

impl LegacySubsystem {
    /// The name of the subsystem's hierarchy.
    pub fn name(&self) -> (r: &'static str)
        ensures
            r@ == match *self {
                LegacySubsystem::Cpuacct => "cpuacct"@,
                LegacySubsystem::Pids => "pids"@,
                LegacySubsystem::Memory => "memory"@,
            },
    {
        match self {
            LegacySubsystem::Cpuacct => "cpuacct",
            LegacySubsystem::Pids => "pids",
            LegacySubsystem::Memory => "memory",
        }
    }
}

/// A cgroup directory of a jail.
#[derive(Debug, Clone, Copy, PartialEq, Eq, Structural)]
pub enum CgroupDir {
    /// The jail's cgroup in a cgroups v1 hierarchy.
    Legacy(LegacySubsystem),
    /// The jail's cgroup in the cgroups v2 hierarchy.
    Unified,
    /// The parent of the jail's cgroups v2 cgroup.
    UnifiedParent,
}

/// One step of setting up a jail's cgroups.
#[derive(Debug, PartialEq)]
pub enum CgroupOp {
    /// Create the directory and its missing parents.
    CreateDir(CgroupDir),
    /// Write `contents` to the file `file` of the directory.
    WriteFile { dir: CgroupDir, file: String, contents: String },
    /// Open the file `file` of the directory for writing and keep a
    /// duplicate of its descriptor as a handle of the group.
    OpenHandle { dir: CgroupDir, file: String },
}

/// The value of a setup step.
pub enum CgroupOpView {
    CreateDir(CgroupDir),
    WriteFile { dir: CgroupDir, file: Seq<char>, contents: Seq<char> },
    OpenHandle { dir: CgroupDir, file: Seq<char> },
}

impl View for CgroupOp {
    type V = CgroupOpView;

    open spec fn view(&self) -> CgroupOpView {
        match self {
            CgroupOp::CreateDir(d) => CgroupOpView::CreateDir(*d),
            CgroupOp::WriteFile { dir, file, contents } => CgroupOpView::WriteFile {
                dir: *dir,
                file: file@,
                contents: contents@,
            },
            CgroupOp::OpenHandle { dir, file } => CgroupOpView::OpenHandle {
                dir: *dir,
                file: file@,
            },
        }
    }
}

/// The values of setup steps.
pub open spec fn ops_view(ops: Seq<CgroupOp>) -> Seq<CgroupOpView> {
    ops.map_values(|op: CgroupOp| op@)
}

/// Setting up the cgroups v1 hierarchies of a jail: the `cpuacct`, `pids` and
/// `memory` cgroups with their limits (no swapping), then the `tasks` files
/// of `cpuacct`, `memory` and `pids`, in that order, kept open.
pub open spec fn legacy_setup(max_alive_process_count: u32, memory_limit: u64) -> Seq<
    CgroupOpView,
> {
    let cpuacct = CgroupDir::Legacy(LegacySubsystem::Cpuacct);
    let pids = CgroupDir::Legacy(LegacySubsystem::Pids);
    let memory = CgroupDir::Legacy(LegacySubsystem::Memory);
    seq![
        CgroupOpView::CreateDir(cpuacct),
        CgroupOpView::CreateDir(pids),
        CgroupOpView::WriteFile {
            dir: pids,
            file: "pids.max"@,
            contents: decimal(max_alive_process_count as nat),
        },
        CgroupOpView::CreateDir(memory),
        CgroupOpView::WriteFile { dir: memory, file: "memory.swappiness"@, contents: "0"@ },
        CgroupOpView::WriteFile {
            dir: memory,
            file: "memory.limit_in_bytes"@,
            contents: decimal(memory_limit as nat),
        },
        CgroupOpView::OpenHandle { dir: cpuacct, file: "tasks"@ },
        CgroupOpView::OpenHandle { dir: memory, file: "tasks"@ },
        CgroupOpView::OpenHandle { dir: pids, file: "tasks"@ },
    ]
}

/// Setting up the cgroups v2 cgroup of a jail: the cgroup, the `pids`, `cpu`
/// and `memory` controllers enabled in its parent, its limits, then its
/// `cgroup.procs` file kept open.
pub open spec fn unified_setup(max_alive_process_count: u32, memory_limit: u64) -> Seq<
    CgroupOpView,
> {
    seq![
        CgroupOpView::CreateDir(CgroupDir::Unified),
        CgroupOpView::WriteFile {
            dir: CgroupDir::UnifiedParent,
            file: "cgroup.subtree_control"@,
            contents: "+pids +cpu +memory"@,
        },
        CgroupOpView::WriteFile {
            dir: CgroupDir::Unified,
            file: "pids.max"@,
            contents: decimal(max_alive_process_count as nat),
        },
        CgroupOpView::WriteFile {
            dir: CgroupDir::Unified,
            file: "memory.max"@,
            contents: decimal(memory_limit as nat),
        },
        CgroupOpView::OpenHandle { dir: CgroupDir::Unified, file: "cgroup.procs"@ },
    ]
}

/// Setting up a jail's cgroups under the given cgroup version.
pub open spec fn cgroup_setup(version: CgroupVersion, options: JailOptions) -> Seq<CgroupOpView> {
    match version {
        CgroupVersion::V1 => legacy_setup(options.max_alive_process_count, options.memory_limit),
        CgroupVersion::V2 => unified_setup(options.max_alive_process_count, options.memory_limit),
    }
}

/// Whether a setup step writes `file` in `dir` with a numeral of `n`.
pub open spec fn writes_numeral(op: CgroupOpView, dir: CgroupDir, file: Seq<char>, n: nat) -> bool {
    match op {
        CgroupOpView::WriteFile { dir: d, file: f, contents } => d == dir && f == file
            && is_numeral_of(contents, n),
        _ => false,
    }
}

/// The limits that a setup writes are the jail's own, for every value: the
/// `pids.max` file gets a numeral of the process-count limit, and the memory
/// limit file (`memory.limit_in_bytes` under v1, `memory.max` under v2) a
/// numeral of the memory limit.
pub proof fn lemma_setup_writes_limits(version: CgroupVersion, options: JailOptions)
    ensures
        match version {
            CgroupVersion::V1 => {
                &&& writes_numeral(
                    cgroup_setup(version, options)[2],
                    CgroupDir::Legacy(LegacySubsystem::Pids),
                    "pids.max"@,
                    options.max_alive_process_count as nat,
                )
                &&& writes_numeral(
                    cgroup_setup(version, options)[5],
                    CgroupDir::Legacy(LegacySubsystem::Memory),
                    "memory.limit_in_bytes"@,
                    options.memory_limit as nat,
                )
            },
            CgroupVersion::V2 => {
                &&& writes_numeral(
                    cgroup_setup(version, options)[2],
                    CgroupDir::Unified,
                    "pids.max"@,
                    options.max_alive_process_count as nat,
                )
                &&& writes_numeral(
                    cgroup_setup(version, options)[3],
                    CgroupDir::Unified,
                    "memory.max"@,
                    options.memory_limit as nat,
                )
            },
        },
{
    lemma_decimal_reads_back(options.max_alive_process_count as nat);
    lemma_decimal_reads_back(options.memory_limit as nat);
}

/// The cgroup directory that a write or an open goes into.
pub open spec fn used_dir(op: CgroupOpView) -> Option<CgroupDir> {
    match op {
        CgroupOpView::WriteFile { dir, .. } => Some(dir),
        CgroupOpView::OpenHandle { dir, .. } => Some(dir),
        CgroupOpView::CreateDir(_) => None,
    }
}

/// Whether every write or open into a jail's own cgroup directory comes after
/// a step that creates that directory.
pub open spec fn creates_before_use(ops: Seq<CgroupOpView>) -> bool {
    forall|i: int|
        #![trigger ops[i]]
        0 <= i < ops.len() ==> match used_dir(ops[i]) {
            Some(CgroupDir::UnifiedParent) | None => true,
            Some(d) => exists|j: int| 0 <= j < i && ops[j] == CgroupOpView::CreateDir(d),
        }
}

/// A setup never writes or opens a file in a cgroup of the jail before it
/// has created that cgroup, under either version.
pub proof fn lemma_setup_creates_before_use(version: CgroupVersion, options: JailOptions)
    ensures
        creates_before_use(cgroup_setup(version, options)),
{
    let ops = cgroup_setup(version, options);
    assert forall|i: int|
        #![trigger ops[i]]
        0 <= i < ops.len() implies match used_dir(ops[i]) {
            Some(CgroupDir::UnifiedParent) | None => true,
            Some(d) => exists|j: int| 0 <= j < i && ops[j] == CgroupOpView::CreateDir(d),
        } by {
        assert(ops[0] is CreateDir);
        match version {
            CgroupVersion::V1 => {
                assert(ops[1] is CreateDir);
                assert(ops[3] is CreateDir);
            },
            CgroupVersion::V2 => {},
        }
    }
}

/// How many handles a setup opens.
pub open spec fn opened_handles(ops: Seq<CgroupOpView>) -> nat
    decreases ops.len(),
{
    if ops.len() == 0 {
        0
    } else {
        opened_handles(ops.drop_last()) + if ops.last() is OpenHandle {
            1nat
        } else {
            0nat
        }
    }
}

/// How many handles a group of the given version holds.
pub open spec fn group_size(version: CgroupVersion) -> nat {
    match version {
        CgroupVersion::V1 => 3,
        CgroupVersion::V2 => 1,
    }
}

/// A write step.
fn write_op(dir: CgroupDir, file: &str, contents: String) -> (op: CgroupOp)
    ensures
        op@ == (CgroupOpView::WriteFile { dir, file: file@, contents: contents@ }),
{
    CgroupOp::WriteFile { dir, file: String::from_str(file), contents }
}

/// An open step.
fn open_op(dir: CgroupDir, file: &str) -> (op: CgroupOp)
    ensures
        op@ == (CgroupOpView::OpenHandle { dir, file: file@ }),
{
    CgroupOp::OpenHandle { dir, file: String::from_str(file) }
}

/// The steps that set up the cgroups v1 hierarchies of a jail.
pub fn setup_chroups_legacy(jail_options: &JailOptions) -> (ops: Vec<CgroupOp>)
    ensures
        ops_view(ops@) == legacy_setup(
            jail_options.max_alive_process_count,
            jail_options.memory_limit,
        ),
{
    let cpuacct = CgroupDir::Legacy(LegacySubsystem::Cpuacct);
    let pids = CgroupDir::Legacy(LegacySubsystem::Pids);
    let memory = CgroupDir::Legacy(LegacySubsystem::Memory);
    let mut ops: Vec<CgroupOp> = Vec::new();
    ops.push(CgroupOp::CreateDir(cpuacct));
    ops.push(CgroupOp::CreateDir(pids));
    ops.push(
        write_op(
            pids,
            "pids.max",
            decimal_string(jail_options.max_alive_process_count as u64),
        ),
    );
    ops.push(CgroupOp::CreateDir(memory));
    ops.push(write_op(memory, "memory.swappiness", String::from_str("0")));
    ops.push(
        write_op(memory, "memory.limit_in_bytes", decimal_string(jail_options.memory_limit)),
    );
    ops.push(open_op(cpuacct, "tasks"));
    ops.push(open_op(memory, "tasks"));
    ops.push(open_op(pids, "tasks"));
    assert(ops_view(ops@) =~= legacy_setup(
        jail_options.max_alive_process_count,
        jail_options.memory_limit,
    ));
    ops
}

/// The steps that set up the cgroups v2 cgroup of a jail.
pub fn setup_cgroups_v2(jail_options: &JailOptions) -> (ops: Vec<CgroupOp>)
    ensures
        ops_view(ops@) == unified_setup(
            jail_options.max_alive_process_count,
            jail_options.memory_limit,
        ),
{
    let mut ops: Vec<CgroupOp> = Vec::new();
    ops.push(CgroupOp::CreateDir(CgroupDir::Unified));
    ops.push(
        write_op(
            CgroupDir::UnifiedParent,
            "cgroup.subtree_control",
            String::from_str("+pids +cpu +memory"),
        ),
    );
    ops.push(
        write_op(
            CgroupDir::Unified,
            "pids.max",
            decimal_string(jail_options.max_alive_process_count as u64),
        ),
    );
    ops.push(write_op(CgroupDir::Unified, "memory.max", decimal_string(jail_options.memory_limit)));
    ops.push(open_op(CgroupDir::Unified, "cgroup.procs"));
    assert(ops_view(ops@) =~= unified_setup(
        jail_options.max_alive_process_count,
        jail_options.memory_limit,
    ));
    ops
}

/// The steps that set up a jail's cgroups under the detected version.
pub fn setup_cgroups(version: CgroupVersion, jail_options: &JailOptions) -> (ops: Vec<CgroupOp>)
    ensures
        ops_view(ops@) == cgroup_setup(version, *jail_options),
{
    match version {
        CgroupVersion::V1 => setup_chroups_legacy(jail_options),
        CgroupVersion::V2 => setup_cgroups_v2(jail_options),
    }
}

/// The group of a jail, over the handles that its setup opened, in order.
pub fn group_from_handles(version: CgroupVersion, handles: Vec<Handle>, jail_options: &JailOptions) -> (g: Group)
    requires
        handles@.len() == group_size(version),
    ensures
        version == CgroupVersion::V1 ==> g.handles() == GroupHandles::V1(handles),
        version == CgroupVersion::V2 ==> g.handles() == GroupHandles::V2(handles@[0]),
        g.handle_seq() == handles@,
        g.jail_id() == jail_options.jail_id@,
{
    let id = jail_options.jail_id.clone();
    match version {
        CgroupVersion::V1 => Group::new(GroupHandles::V1(handles), id),
        CgroupVersion::V2 => {
            let h = handles[0];
            assert(handles@ =~= seq![h]);
            Group::new(GroupHandles::V2(h), id)
        },
    }
}

/// The setup of a jail opens exactly as many handles as its group holds, so
/// the group built from them takes every one, and joining it writes to every
/// one.
pub proof fn lemma_setup_opens_group(version: CgroupVersion, options: JailOptions)
    ensures
        opened_handles(cgroup_setup(version, options)) == group_size(version),
{
    let ops = cgroup_setup(version, options);
    reveal_with_fuel(opened_handles, 10);
}

} // verus!
