use cpuset::controller::read_string_from;
use cpuset::controller::read_u64_from;
use cpuset::controller::subsystem_mount_name;
use cpuset::CgroupError;
use cpuset::CpuResources;
use cpuset::CpuSetController;
use cpuset::RawState;
use cpuset::Subsystem;
use cpuset::WriteRequest;

fn controller() -> CpuSetController {
    CpuSetController::new(String::from("/sys/fs/cgroup"))
}

fn empty_raw() -> RawState {
    RawState {
        cpu_exclusive: None,
        cpus: None,
        effective_cpus: None,
        effective_mems: None,
        mem_exclusive: None,
        mem_hardwall: None,
        memory_migrate: None,
        memory_pressure: None,
        memory_pressure_enabled: None,
        memory_spread_page: None,
        memory_spread_slab: None,
        mems: None,
        sched_load_balance: None,
        sched_relax_domain_level: None,
    }
}

/// A fake pseudo-file tree: written files by path, plus paths that reject
/// every write, standing in for the kernel's validation.
struct FakeTree {
    files: Vec<(String, String)>,
    rejected: Vec<String>,
}

impl FakeTree {
    fn new() -> Self {
        FakeTree { files: Vec::new(), rejected: Vec::new() }
    }

    fn perform(&mut self, req: WriteRequest) -> Result<(), CgroupError> {
        if self.rejected.iter().any(|p| *p == req.path) {
            return Err(CgroupError::WriteError);
        }
        self.files.retain(|(p, _)| *p != req.path);
        self.files.push((req.path, req.data));
        Ok(())
    }

    fn content(&self, path: &str) -> Option<String> {
        self.files.iter().find(|(p, _)| p == path).map(|(_, d)| d.clone())
    }
}

#[test]
fn new_binds_to_subsystem_root() {
    let c = controller();
    assert_eq!(c.get_base().as_str(), "/sys/fs/cgroup/cpuset");
    assert_eq!(c.get_path().as_str(), "/sys/fs/cgroup/cpuset");
    assert_eq!(subsystem_mount_name(), "cpuset");
    assert_eq!(
        c.property_path("cpuset.cpus"),
        "/sys/fs/cgroup/cpuset/cpuset.cpus"
    );
}

#[test]
fn bool_setters_write_exact_bytes() {
    let c = controller();
    let cases: Vec<(WriteRequest, WriteRequest, &str)> = vec![
        (c.set_cpu_exclusive(true), c.set_cpu_exclusive(false), "cpuset.cpu_exclusive"),
        (c.set_mem_exclusive(true), c.set_mem_exclusive(false), "cpuset.mem_exclusive"),
        (c.set_hardwall(true), c.set_hardwall(false), "cpuset.mem_hardwall"),
        (c.set_load_balancing(true), c.set_load_balancing(false), "cpuset.sched_load_balance"),
        (c.set_memory_migration(true), c.set_memory_migration(false), "cpuset.memory_migrate"),
        (c.set_memory_spread_page(true), c.set_memory_spread_page(false), "cpuset.memory_spread_page"),
        (c.set_memory_spread_slab(true), c.set_memory_spread_slab(false), "cpuset.memory_spread_slab"),
        (
            c.set_enable_memory_pressure(true),
            c.set_enable_memory_pressure(false),
            "cpuset.memory_pressure_enabled",
        ),
    ];
    for (on, off, file) in cases {
        let expected = format!("/sys/fs/cgroup/cpuset/{}", file);
        assert_eq!(on.path, expected);
        assert_eq!(off.path, expected);
        assert_eq!(on.data, "1");
        assert_eq!(off.data, "0");
    }
}

#[test]
fn range_strings_pass_through_unchanged() {
    let c = controller();
    let req = c.set_cpus(&String::from("0-3,7"));
    assert_eq!(req.path, "/sys/fs/cgroup/cpuset/cpuset.cpus");
    assert_eq!(req.data, "0-3,7");
    let req = c.set_mems(&String::from("1,3-5"));
    assert_eq!(req.path, "/sys/fs/cgroup/cpuset/cpuset.mems");
    assert_eq!(req.data, "1,3-5");
}

#[test]
fn relax_domain_level_writes_decimal_literals() {
    let c = controller();
    let req = c.set_rebalance_relax_domain_level(-1);
    assert_eq!(req.path, "/sys/fs/cgroup/cpuset/cpuset.sched_relax_domain_level");
    assert_eq!(req.data, "-1");
    assert_eq!(c.set_rebalance_relax_domain_level(6).data, "6");
    assert_eq!(c.set_rebalance_relax_domain_level(0).data, "0");
}

#[test]
fn bool_round_trip_through_fake_tree() {
    let c = controller();
    let mut tree = FakeTree::new();
    tree.perform(c.set_hardwall(true)).unwrap();
    let path = c.property_path("cpuset.mem_hardwall");
    let mut raw = empty_raw();
    raw.mem_hardwall = tree.content(&path);
    assert_eq!(c.cpuset(&raw).mem_hardwall, true);
    tree.perform(c.set_hardwall(false)).unwrap();
    raw.mem_hardwall = tree.content(&path);
    assert_eq!(c.cpuset(&raw).mem_hardwall, false);
}

#[test]
fn snapshot_optional_field_absent_not_false() {
    let c = controller();
    let mut raw = empty_raw();
    raw.cpus = Some(String::from("0-1\n"));
    raw.memory_pressure_enabled = None;
    let snap = c.cpuset(&raw);
    assert_eq!(snap.memory_pressure_enabled, None);
    assert_eq!(snap.cpus, "0-1");

    raw.memory_pressure_enabled = Some(String::from("1\n"));
    assert_eq!(c.cpuset(&raw).memory_pressure_enabled, Some(true));
    raw.memory_pressure_enabled = Some(String::from("0\n"));
    assert_eq!(c.cpuset(&raw).memory_pressure_enabled, Some(false));
    raw.memory_pressure_enabled = Some(String::from("nonsense"));
    assert_eq!(c.cpuset(&raw).memory_pressure_enabled, None);
}

#[test]
fn snapshot_unreadable_bool_defaults_to_false() {
    let c = controller();
    let mut raw = empty_raw();
    raw.cpu_exclusive = None;
    raw.mem_exclusive = Some(String::from("1\n"));
    raw.cpus = Some(String::from("0-3\n"));
    raw.memory_pressure = Some(String::from("25\n"));
    let snap = c.cpuset(&raw);
    assert_eq!(snap.cpu_exclusive, false);
    assert_eq!(snap.mem_exclusive, true);
    assert_eq!(snap.cpus, "0-3");
    assert_eq!(snap.memory_pressure, 25);
}

#[test]
fn snapshot_defaults_when_everything_unreadable() {
    let c = controller();
    let snap = c.cpuset(&empty_raw());
    assert_eq!(snap.cpu_exclusive, false);
    assert_eq!(snap.cpus, "");
    assert_eq!(snap.effective_cpus, "");
    assert_eq!(snap.effective_mems, "");
    assert_eq!(snap.mem_exclusive, false);
    assert_eq!(snap.mem_hardwall, false);
    assert_eq!(snap.memory_migrate, false);
    assert_eq!(snap.memory_pressure, 0);
    assert_eq!(snap.memory_pressure_enabled, None);
    assert_eq!(snap.memory_spread_page, false);
    assert_eq!(snap.memory_spread_slab, false);
    assert_eq!(snap.mems, "");
    assert_eq!(snap.sched_load_balance, false);
    assert_eq!(snap.sched_relax_domain_level, 0);
}

#[test]
fn snapshot_unparsable_counter_defaults_to_zero() {
    let c = controller();
    let mut raw = empty_raw();
    raw.memory_pressure = Some(String::from("not a number"));
    raw.sched_relax_domain_level = Some(String::from("4\n"));
    let snap = c.cpuset(&raw);
    assert_eq!(snap.memory_pressure, 0);
    assert_eq!(snap.sched_relax_domain_level, 4);
}

#[test]
fn snapshot_reads_cpus_from_fake_group() {
    let c = controller();
    let mut raw = empty_raw();
    raw.cpus = Some(String::from("0-1"));
    assert_eq!(c.cpuset(&raw).cpus, "0-1");
}

#[test]
fn apply_attempts_both_writes_even_when_one_fails() {
    let c = controller();
    let mut tree = FakeTree::new();
    tree.rejected.push(c.property_path("cpuset.cpus"));
    let res = CpuResources {
        update_values: true,
        cpus: String::from("0-2"),
        mems: String::from("0"),
    };
    let (cpus_req, mems_req) = c.apply(&res);
    let cpus_outcome = tree.perform(cpus_req.expect("cpus write must be attempted"));
    let mems_outcome = tree.perform(mems_req.expect("mems write must be attempted"));
    assert_eq!(cpus_outcome, Err(CgroupError::WriteError));
    assert_eq!(mems_outcome, Ok(()));
    assert_eq!(
        tree.content(&c.property_path("cpuset.mems")),
        Some(String::from("0"))
    );
    assert_eq!(tree.content(&c.property_path("cpuset.cpus")), None);
}

#[test]
fn apply_writes_nothing_without_update_flag() {
    let c = controller();
    let res = CpuResources {
        update_values: false,
        cpus: String::from("0-2"),
        mems: String::from("0"),
    };
    let (cpus_req, mems_req) = c.apply(&res);
    assert!(cpus_req.is_none());
    assert!(mems_req.is_none());
}

#[test]
fn subsystem_recovery_is_safe() {
    let sub = Subsystem::CpuSet(controller());
    let recovered = sub.to_cpuset().expect("cpuset variant must be recovered");
    assert_eq!(recovered.get_path().as_str(), "/sys/fs/cgroup/cpuset");
    assert!(Subsystem::Other.to_cpuset().is_none());
}

#[test]
fn direct_readers_surface_errors() {
    assert_eq!(read_string_from(None), Err(CgroupError::ReadError));
    assert_eq!(read_u64_from(None), Err(CgroupError::ReadError));
    assert_eq!(read_u64_from(Some(String::from("junk"))), Err(CgroupError::ParseError));
    assert_eq!(read_u64_from(Some(String::from(" 7\n"))), Ok(7));
    assert_eq!(read_string_from(Some(String::from("0-1\n"))), Ok(String::from("0-1")));
    assert_eq!(read_string_from(Some(String::from("  x \n"))), Ok(String::from("  x")));
}
