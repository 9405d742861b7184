//! The cpuset resource controller: typed setters, defaulted state snapshot,
//! and path resolution inside the control-group hierarchy.

use vstd::prelude::*;
use crate::codec::bool_decode;
use crate::codec::bool_encoding;
use crate::codec::decode_bool;
use crate::codec::decode_u64;
use crate::codec::encode_bool;
use crate::codec::encode_i64;
use crate::codec::i64_encoding;
use crate::codec::lemma_bool_round_trip;
use crate::codec::trim_end_str;
use crate::codec::trim_trailing;
use crate::codec::u64_decode;

verus! {

/// Error taxonomy of the control layer: a read-class I/O failure, a
/// write-class I/O failure, or a local parse failure when decoding a numeric
/// pseudo-file outside the defaulted snapshot path.
#[derive(Clone, Copy, Debug, PartialEq, Eq, Structural)]
pub enum CgroupError {
    ReadError,
    WriteError,
    ParseError,
}

/// One pending pseudo-file write: the absolute path of the control file and
/// the exact bytes to write (no trailing newline).  The embedding program
/// performs the write and maps any failure to [`CgroupError::WriteError`].
pub struct WriteRequest {
    pub path: String,
    pub data: String,
}

/// CPU-affinity resource request applied as a bulk operation: when
/// `update_values` is set, the controller writes `cpus` and `mems`.
pub struct CpuResources {
    pub update_values: bool,
    pub cpus: String,
    pub mems: String,
}

/// Raw contents of this group's pseudo-files, one field per property;
/// `None` where the file could not be opened or read.
pub struct RawState {
    pub cpu_exclusive: Option<String>,
    pub cpus: Option<String>,
    pub effective_cpus: Option<String>,
    pub effective_mems: Option<String>,
    pub mem_exclusive: Option<String>,
    pub mem_hardwall: Option<String>,
    pub memory_migrate: Option<String>,
    pub memory_pressure: Option<String>,
    pub memory_pressure_enabled: Option<String>,
    pub memory_spread_page: Option<String>,
    pub memory_spread_slab: Option<String>,
    pub mems: Option<String>,
    pub sched_load_balance: Option<String>,
    pub sched_relax_domain_level: Option<String>,
}

/// The current state of the `cpuset` controller for one control group: a
/// point-in-time snapshot, one field per pseudo-file.
pub struct CpuSet {
    /// If true, no other control group may share the CPUs listed in `cpus`.
    pub cpu_exclusive: bool,
    /// The CPUs the tasks of the group may run on, as comma-separated ranges.
    pub cpus: String,
    /// The CPUs the tasks can effectively run on, after the ancestors'
    /// restrictions are applied.
    pub effective_cpus: String,
    /// The memory nodes the tasks can effectively use, after the ancestors'
    /// restrictions are applied.
    pub effective_mems: String,
    /// If true, no other control group may share the nodes listed in `mems`.
    pub mem_exclusive: bool,
    /// If true, kernel memory allocations are restricted to the nodes in
    /// `mems`, with few exceptions.
    pub mem_hardwall: bool,
    /// If true, changing `mems` migrates the tasks' memory to the new nodes.
    pub memory_migrate: bool,
    /// Running average of the memory pressure faced by the group's tasks.
    pub memory_pressure: u64,
    /// Whether the kernel computes memory pressure for control groups.  The
    /// file exists only at the hierarchy root; elsewhere the field is absent.
    pub memory_pressure_enabled: Option<bool>,
    /// If true, filesystem buffers are spread evenly across the nodes in
    /// `mems`.
    pub memory_spread_page: bool,
    /// If true, kernel slab caches for file I/O are spread evenly across the
    /// nodes in `mems`.
    pub memory_spread_slab: bool,
    /// The memory nodes the tasks of the group may use, as comma-separated
    /// ranges.
    pub mems: String,
    /// If true, the kernel rebalances load between the CPUs in `cpus`.
    pub sched_load_balance: bool,
    /// How much work the kernel does to rebalance this cpuset.
    pub sched_relax_domain_level: u64,
}

/// The filesystem path `dir / name`.
pub open spec fn path_join(dir: Seq<char>, name: Seq<char>) -> Seq<char> {
    dir + seq!['/'] + name
}

/// `path` addresses `base` itself or a descendant of it.
pub open spec fn is_within(base: Seq<char>, path: Seq<char>) -> bool {
    path == base || (path.len() > base.len() && path.subrange(0, base.len() as int) == base
        && path[base.len() as int] == '/')
}

/// Mathematical model of a controller: the subsystem's mount path and the
/// bound group's path.
pub struct ControllerModel {
    pub base: Seq<char>,
    pub path: Seq<char>,
}

/// A controller for the `cpuset` subsystem of one control group: it holds
/// the subsystem's hierarchy root and the path of the group it addresses,
/// and turns typed operations into pseudo-file reads and writes.
#[derive(Debug, Clone)]
pub struct CpuSetController {
    base: String,
    path: String,
}

impl View for CpuSetController {
    type V = ControllerModel;

    closed spec fn view(&self) -> ControllerModel {
        ControllerModel { base: self.base@, path: self.path@ }
    }
}

/// The directory name under which the `cpuset` hierarchy is mounted.
pub fn subsystem_mount_name() -> (r: &'static str)
    ensures
        r@ == "cpuset"@,
{
    "cpuset"
}

impl CpuSetController {
    /// The group addressed never leaves the subsystem's own hierarchy.
    pub open spec fn wf(&self) -> bool {
        is_within(self@.base, self@.path)
    }

    /// Constructs a controller with `oroot` as the root of the control-group
    /// mount; the subsystem's mount directory is appended to it, and the
    /// controller is bound to the hierarchy root group.
    pub fn new(oroot: String) -> (r: Self)
        ensures
            r@.base == path_join(oroot@, "cpuset"@),
            r@.path == r@.base,
            r.wf(),
    {
        let ghost oroot_chars = oroot@;
        let mut root = oroot;
        root.append("/");
        let name = subsystem_mount_name();
        root.append(name);
        proof {
            reveal_strlit("/");
            assert(root@ =~= path_join(oroot_chars, "cpuset"@));
        }
        let base = root.clone();
        CpuSetController { base, path: root }
    }

    /// The path of this control group.
    pub fn get_path(&self) -> (r: &String)
        ensures
            r@ == self@.path,
    {
        &self.path
    }

    /// The mount point of this subsystem's hierarchy.
    pub fn get_base(&self) -> (r: &String)
        ensures
            r@ == self@.base,
    {
        &self.base
    }

    /// The absolute path of the named control file under this group's
    /// directory.  The name is not validated here: an invalid name surfaces
    /// as an I/O error from the open primitive.
    pub fn property_path(&self, name: &str) -> (r: String)
        ensures
            r@ == path_join(self@.path, name@),
    {
        let mut p = self.path.clone();
        p.append("/");
        p.append(name);
        proof {
            reveal_strlit("/");
            assert(p@ =~= path_join(self@.path, name@));
        }
        p
    }

    fn bool_request(&self, name: &str, b: bool) -> (r: WriteRequest)
        ensures
            r.path@ == path_join(self@.path, name@),
            r.data@ == bool_encoding(b),
    {
        WriteRequest { path: self.property_path(name), data: encode_bool(b) }
    }

    /// Control whether the CPUs selected via `set_cpus` are exclusive to
    /// this control group.
    pub fn set_cpu_exclusive(&self, b: bool) -> (r: WriteRequest)
        ensures
            r.path@ == path_join(self@.path, "cpuset.cpu_exclusive"@),
            r.data@ == bool_encoding(b),
    {
        self.bool_request("cpuset.cpu_exclusive", b)
    }

    /// Control whether the memory nodes selected via `set_mems` are
    /// exclusive to this control group.
    pub fn set_mem_exclusive(&self, b: bool) -> (r: WriteRequest)
        ensures
            r.path@ == path_join(self@.path, "cpuset.mem_exclusive"@),
            r.data@ == bool_encoding(b),
    {
        self.bool_request("cpuset.mem_exclusive", b)
    }

    /// Set the CPUs the tasks in this group may run on.  The range string
    /// (comma-separated values, dashes for ranges) is written verbatim: no
    /// reformatting, reordering, or validation — the kernel is the sole
    /// validator, and its rejection surfaces as a write error.
    pub fn set_cpus(&self, cpus: &String) -> (r: WriteRequest)
        ensures
            r.path@ == path_join(self@.path, "cpuset.cpus"@),
            r.data@ == cpus@,
    {
        WriteRequest { path: self.property_path("cpuset.cpus"), data: cpus.clone() }
    }

    /// Set the memory nodes the tasks in this group may use; the range
    /// string is written verbatim, as with `set_cpus`.
    pub fn set_mems(&self, mems: &String) -> (r: WriteRequest)
        ensures
            r.path@ == path_join(self@.path, "cpuset.mems"@),
            r.data@ == mems@,
    {
        WriteRequest { path: self.property_path("cpuset.mems"), data: mems.clone() }
    }

    /// Control whether the group is "hardwalled": kernel allocations
    /// restricted to the nodes set via `set_mems`.
    pub fn set_hardwall(&self, b: bool) -> (r: WriteRequest)
        ensures
            r.path@ == path_join(self@.path, "cpuset.mem_hardwall"@),
            r.data@ == bool_encoding(b),
    {
        self.bool_request("cpuset.mem_hardwall", b)
    }

    /// Control whether the kernel rebalances load between the CPUs of this
    /// group.
    pub fn set_load_balancing(&self, b: bool) -> (r: WriteRequest)
        ensures
            r.path@ == path_join(self@.path, "cpuset.sched_load_balance"@),
            r.data@ == bool_encoding(b),
    {
        self.bool_request("cpuset.sched_load_balance", b)
    }

    /// Control how much effort the kernel invests in rebalancing this
    /// cpuset.  By convention the accepted values are `-1` (system default)
    /// through `6` (increasing aggressiveness), but the enumeration is not
    /// enforced here: the value is forwarded as decimal text and any
    /// rejection comes from the kernel.
    pub fn set_rebalance_relax_domain_level(&self, i: i64) -> (r: WriteRequest)
        ensures
            r.path@ == path_join(self@.path, "cpuset.sched_relax_domain_level"@),
            r.data@ == i64_encoding(i as int),
    {
        WriteRequest {
            path: self.property_path("cpuset.sched_relax_domain_level"),
            data: encode_i64(i),
        }
    }

    /// Control whether changing `mems` migrates the tasks' existing memory
    /// to the newly selected nodes.
    pub fn set_memory_migration(&self, b: bool) -> (r: WriteRequest)
        ensures
            r.path@ == path_join(self@.path, "cpuset.memory_migrate"@),
            r.data@ == bool_encoding(b),
    {
        self.bool_request("cpuset.memory_migrate", b)
    }

    /// Control whether filesystem buffers are spread evenly across the nodes
    /// selected via `set_mems`.
    pub fn set_memory_spread_page(&self, b: bool) -> (r: WriteRequest)
        ensures
            r.path@ == path_join(self@.path, "cpuset.memory_spread_page"@),
            r.data@ == bool_encoding(b),
    {
        self.bool_request("cpuset.memory_spread_page", b)
    }

    /// Control whether the kernel's slab caches for file I/O are spread
    /// evenly across the nodes selected via `set_mems`.
    pub fn set_memory_spread_slab(&self, b: bool) -> (r: WriteRequest)
        ensures
            r.path@ == path_join(self@.path, "cpuset.memory_spread_slab"@),
            r.data@ == bool_encoding(b),
    {
        self.bool_request("cpuset.memory_spread_slab", b)
    }

    /// Control whether the kernel collects the information needed to compute
    /// memory pressure.  The file exists only at the hierarchy root; on any
    /// other group the write fails and surfaces as a write error.
    pub fn set_enable_memory_pressure(&self, b: bool) -> (r: WriteRequest)
        ensures
            r.path@ == path_join(self@.path, "cpuset.memory_pressure_enabled"@),
            r.data@ == bool_encoding(b),
    {
        self.bool_request("cpuset.memory_pressure_enabled", b)
    }

    /// Apply a bulk resource request: when `update_values` is set, the
    /// `cpus` write and the `mems` write are both produced, each
    /// unconditionally — a failure of one write never prevents the other
    /// from being attempted.
    pub fn apply(&self, res: &CpuResources) -> (r: (Option<WriteRequest>, Option<WriteRequest>))
        ensures
            res.update_values ==> (r.0 matches Some(q) && q.path@ == path_join(
                self@.path,
                "cpuset.cpus"@,
            ) && q.data@ == res.cpus@),
            res.update_values ==> (r.1 matches Some(q) && q.path@ == path_join(
                self@.path,
                "cpuset.mems"@,
            ) && q.data@ == res.mems@),
            !res.update_values ==> r.0 is None && r.1 is None,
    {
        if res.update_values {
            (Some(self.set_cpus(&res.cpus)), Some(self.set_mems(&res.mems)))
        } else {
            (None, None)
        }
    }
}

/// Direct read of a string property: a read failure surfaces as
/// `ReadError`; on success the content has its trailing whitespace removed
/// and is otherwise passed through as opaque text.
pub fn read_string_from(content: Option<String>) -> (r: Result<String, CgroupError>)
    ensures
        content matches Some(s) ==> (r matches Ok(t) && t@ == trim_trailing(s@)),
        content is None ==> r == Err::<String, CgroupError>(CgroupError::ReadError),
{
    match content {
        Some(s) => Ok(trim_end_str(s.as_str())),
        None => Err(CgroupError::ReadError),
    }
}

/// Direct read of an unsigned integer property: a read failure surfaces as
/// `ReadError`, a content that does not parse as a `u64` as `ParseError`.
pub fn read_u64_from(content: Option<String>) -> (r: Result<u64, CgroupError>)
    ensures
        r == (match content {
            Some(s) => (match u64_decode(s@) {
                Some(v) => Ok::<u64, CgroupError>(v),
                None => Err::<u64, CgroupError>(CgroupError::ParseError),
            }),
            None => Err::<u64, CgroupError>(CgroupError::ReadError),
        }),
{
    match content {
        Some(s) => match decode_u64(s.as_str()) {
            Some(v) => Ok(v),
            None => Err(CgroupError::ParseError),
        },
        None => Err(CgroupError::ReadError),
    }
}

/// Snapshot rule for a boolean field: decode, defaulting to `false` when
/// the file was unreadable.
pub open spec fn snap_bool(o: Option<String>) -> bool {
    match o {
        Some(s) => bool_decode(s@),
        None => false,
    }
}

/// Snapshot rule for a range-string field: trailing whitespace removed,
/// defaulting to the empty string when the file was unreadable.
pub open spec fn snap_string(o: Option<String>) -> Seq<char> {
    match o {
        Some(s) => trim_trailing(s@),
        None => Seq::<char>::empty(),
    }
}

/// Snapshot rule for an unsigned counter: decode, defaulting to `0` on a
/// read or parse failure.
pub open spec fn snap_u64(o: Option<String>) -> u64 {
    match o {
        Some(s) => match u64_decode(s@) {
            Some(v) => v,
            None => 0,
        },
        None => 0,
    }
}

/// Snapshot rule for the root-only optional boolean: absent — not `false` —
/// when the file was unreadable or its content did not parse.
pub open spec fn snap_opt_bool(o: Option<String>) -> Option<bool> {
    match o {
        Some(s) => match u64_decode(s@) {
            Some(v) => Some(v == 1),
            None => None,
        },
        None => None,
    }
}

fn snap_bool_exec(o: &Option<String>) -> (r: bool)
    ensures
        r == snap_bool(*o),
{
    match o {
        Some(s) => decode_bool(s.as_str()),
        None => false,
    }
}

fn snap_string_exec(o: &Option<String>) -> (r: String)
    ensures
        r@ == snap_string(*o),
{
    match o {
        Some(s) => trim_end_str(s.as_str()),
        None => String::new(),
    }
}

fn snap_u64_exec(o: &Option<String>) -> (r: u64)
    ensures
        r == snap_u64(*o),
{
    match o {
        Some(s) => match decode_u64(s.as_str()) {
            Some(v) => v,
            None => 0,
        },
        None => 0,
    }
}

fn snap_opt_bool_exec(o: &Option<String>) -> (r: Option<bool>)
    ensures
        r == snap_opt_bool(*o),
{
    match o {
        Some(s) => match decode_u64(s.as_str()) {
            Some(v) => Some(v == 1),
            None => None,
        },
        None => None,
    }
}

impl CpuSetController {
    /// The statistics gathered by the kernel for this control group, decoded
    /// from the raw pseudo-file contents in `raw`.  Every field is defaulted
    /// independently on failure — `false` for booleans, `0` for counters,
    /// the empty string for range strings, and absence for the root-only
    /// pressure toggle — so the aggregate read itself never fails, and an
    /// unreadable field only loses its own value.  This defaulting is a
    /// deliberate tradeoff kept for compatibility: a caller that must tell
    /// "absent or unreadable" from "false"/"zero" uses `read_string_from`
    /// and `read_u64_from` on a single property instead.
    pub fn cpuset(&self, raw: &RawState) -> (r: CpuSet)
        ensures
            r.cpu_exclusive == snap_bool(raw.cpu_exclusive),
            r.cpus@ == snap_string(raw.cpus),
            r.effective_cpus@ == snap_string(raw.effective_cpus),
            r.effective_mems@ == snap_string(raw.effective_mems),
            r.mem_exclusive == snap_bool(raw.mem_exclusive),
            r.mem_hardwall == snap_bool(raw.mem_hardwall),
            r.memory_migrate == snap_bool(raw.memory_migrate),
            r.memory_pressure == snap_u64(raw.memory_pressure),
            r.memory_pressure_enabled == snap_opt_bool(raw.memory_pressure_enabled),
            r.memory_spread_page == snap_bool(raw.memory_spread_page),
            r.memory_spread_slab == snap_bool(raw.memory_spread_slab),
            r.mems@ == snap_string(raw.mems),
            r.sched_load_balance == snap_bool(raw.sched_load_balance),
            r.sched_relax_domain_level == snap_u64(raw.sched_relax_domain_level),
    {
        CpuSet {
            cpu_exclusive: snap_bool_exec(&raw.cpu_exclusive),
            cpus: snap_string_exec(&raw.cpus),
            effective_cpus: snap_string_exec(&raw.effective_cpus),
            effective_mems: snap_string_exec(&raw.effective_mems),
            mem_exclusive: snap_bool_exec(&raw.mem_exclusive),
            mem_hardwall: snap_bool_exec(&raw.mem_hardwall),
            memory_migrate: snap_bool_exec(&raw.memory_migrate),
            memory_pressure: snap_u64_exec(&raw.memory_pressure),
            memory_pressure_enabled: snap_opt_bool_exec(&raw.memory_pressure_enabled),
            memory_spread_page: snap_bool_exec(&raw.memory_spread_page),
            memory_spread_slab: snap_bool_exec(&raw.memory_spread_slab),
            mems: snap_string_exec(&raw.mems),
            sched_load_balance: snap_bool_exec(&raw.sched_load_balance),
            sched_relax_domain_level: snap_u64_exec(&raw.sched_relax_domain_level),
        }
    }
}

/// Law: a boolean setter writes exactly the byte `"1"` for `true` and
/// exactly the byte `"0"` for `false`.
pub proof fn lemma_bool_write_exact()
    ensures
        bool_encoding(true) == seq!['1'],
        bool_encoding(false) == seq!['0'],
{
}

/// Law: when the root-only pressure toggle's file is absent or its content
/// does not parse — as on any group below the hierarchy root — the snapshot
/// reports the field as absent, never as `false`.
pub proof fn lemma_snapshot_optional_absent(o: Option<String>)
    requires
        o is None || (o matches Some(s) && u64_decode(s@) is None),
    ensures
        snap_opt_bool(o) is None,
{
}

/// Law: an unreadable boolean pseudo-file defaults to `false` in the
/// snapshot.  Each snapshot field is decoded from its own raw entry alone,
/// so the other fields keep their values and the aggregate read still
/// succeeds.
pub proof fn lemma_snapshot_bool_default()
    ensures
        snap_bool(None::<String>) == false,
{
}

/// Law: a boolean written by a setter and read back through the typed
/// snapshot decoder yields the same boolean — for the plain fields and for
/// the root-only optional one alike.
pub proof fn lemma_setter_snapshot_round_trip(b: bool, s: String)
    requires
        s@ == bool_encoding(b),
    ensures
        snap_bool(Some(s)) == b,
        snap_opt_bool(Some(s)) == Some(b),
{
    lemma_bool_round_trip(b);
    crate::codec::lemma_u64_round_trip(if b {
        1
    } else {
        0
    });
    if b {
        assert(bool_encoding(true) =~= crate::codec::dec_repr(1));
    } else {
        assert(bool_encoding(false) =~= crate::codec::dec_repr(0));
    }
}

/// A generic subsystem handle, as the surrounding control-group library
/// hands it out: only the cpuset variant is modelled here; every other
/// subsystem is an external collaborator and appears as `Other`.
pub enum Subsystem {
    CpuSet(CpuSetController),
    Other,
}

impl Subsystem {
    /// Safe recovery of the cpuset controller from a generic handle:
    /// `None` on a mismatched variant, never an abort.
    pub fn to_cpuset(&self) -> (r: Option<&CpuSetController>)
        ensures
            self matches Subsystem::CpuSet(c) ==> (r matches Some(p) && *p == c),
            self is Other ==> r is None,
    {
        match self {
            Subsystem::CpuSet(c) => Some(c),
            Subsystem::Other => None,
        }
    }
}

} // verus!

