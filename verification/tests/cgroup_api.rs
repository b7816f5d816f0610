use jjs::api::{bool_string, ApiRequest, DefaultApiClient, Method};
use jjs::cgroup::{
    detect_cgroup_version, do_detect_cgroup_version, group_from_handles, is_cgroup_fs_magic,
    setup_cgroups, setup_cgroups_v2, setup_chroups_legacy, CgroupDir, CgroupOp, CgroupVersion,
    CgroupVersionCache, Group, GroupHandles, JailOptions, LegacySubsystem, CGROUP2_SUPER_MAGIC,
    CGROUP_SUPER_MAGIC,
};
use std::cell::Cell;
use std::rc::Rc;

#[test]
fn fs_magic_classification() {
    assert_eq!(do_detect_cgroup_version(0x27e0eb), 1);
    assert_eq!(do_detect_cgroup_version(0x63677270), 2);
    assert!(is_cgroup_fs_magic(0x27e0eb));
    assert!(is_cgroup_fs_magic(0x63677270));
    assert!(!is_cgroup_fs_magic(0xEF53));
    assert!(!is_cgroup_fs_magic(0));
}

#[test]
fn detection_is_cached() {
    let calls = Cell::new(0);
    let mut cache = CgroupVersionCache::new();
    let probe = || {
        calls.set(calls.get() + 1);
        CGROUP2_SUPER_MAGIC
    };
    assert_eq!(detect_cgroup_version(&mut cache, probe), CgroupVersion::V2);
    assert_eq!(detect_cgroup_version(&mut cache, || CGROUP_SUPER_MAGIC), CgroupVersion::V2);
    assert_eq!(calls.get(), 1);
}

#[test]
fn detection_of_legacy_hierarchy_sticks() {
    let mut cache = CgroupVersionCache::new();
    assert_eq!(detect_cgroup_version(&mut cache, || CGROUP_SUPER_MAGIC), CgroupVersion::V1);
    assert_eq!(detect_cgroup_version(&mut cache, || CGROUP2_SUPER_MAGIC), CgroupVersion::V1);
}

fn options() -> JailOptions {
    JailOptions { jail_id: "j1".to_string(), max_alive_process_count: 16, memory_limit: 268435456 }
}

fn write(dir: CgroupDir, file: &str, contents: &str) -> CgroupOp {
    CgroupOp::WriteFile { dir, file: file.to_string(), contents: contents.to_string() }
}

#[test]
fn legacy_setup_steps() {
    let cpuacct = CgroupDir::Legacy(LegacySubsystem::Cpuacct);
    let pids = CgroupDir::Legacy(LegacySubsystem::Pids);
    let memory = CgroupDir::Legacy(LegacySubsystem::Memory);
    assert_eq!(
        setup_chroups_legacy(&options()),
        vec![
            CgroupOp::CreateDir(cpuacct),
            CgroupOp::CreateDir(pids),
            write(pids, "pids.max", "16"),
            CgroupOp::CreateDir(memory),
            write(memory, "memory.swappiness", "0"),
            write(memory, "memory.limit_in_bytes", "268435456"),
            CgroupOp::OpenHandle { dir: cpuacct, file: "tasks".to_string() },
            CgroupOp::OpenHandle { dir: memory, file: "tasks".to_string() },
            CgroupOp::OpenHandle { dir: pids, file: "tasks".to_string() },
        ]
    );
    assert_eq!(LegacySubsystem::Cpuacct.name(), "cpuacct");
    assert_eq!(LegacySubsystem::Pids.name(), "pids");
    assert_eq!(LegacySubsystem::Memory.name(), "memory");
}

#[test]
fn unified_setup_steps() {
    assert_eq!(
        setup_cgroups_v2(&options()),
        vec![
            CgroupOp::CreateDir(CgroupDir::Unified),
            write(CgroupDir::UnifiedParent, "cgroup.subtree_control", "+pids +cpu +memory"),
            write(CgroupDir::Unified, "pids.max", "16"),
            write(CgroupDir::Unified, "memory.max", "268435456"),
            CgroupOp::OpenHandle { dir: CgroupDir::Unified, file: "cgroup.procs".to_string() },
        ]
    );
    assert_eq!(setup_cgroups(CgroupVersion::V2, &options()), setup_cgroups_v2(&options()));
    assert_eq!(setup_cgroups(CgroupVersion::V1, &options()), setup_chroups_legacy(&options()));
}

#[test]
fn setup_opens_as_many_handles_as_the_group_holds() {
    for (version, size) in [(CgroupVersion::V1, 3), (CgroupVersion::V2, 1)] {
        let opened = setup_cgroups(version, &options())
            .iter()
            .filter(|op| matches!(op, CgroupOp::OpenHandle { .. }))
            .count();
        assert_eq!(opened, size);
    }
}

#[test]
fn joining_writes_pid_to_every_handle() {
    let group = group_from_handles(CgroupVersion::V1, vec![5, 6, 7], &options());
    assert_eq!(group, Group::new(GroupHandles::V1(vec![5, 6, 7]), "j1".to_string()));
    let plan = group.join_self(4242);
    assert_eq!(plan.handles, vec![5, 6, 7]);
    assert_eq!(plan.payload, "4242");
    assert_eq!(group.id(), "j1");
    let single = group_from_handles(CgroupVersion::V2, vec![9], &options());
    assert_eq!(single, Group::new(GroupHandles::V2(9), "j1".to_string()));
    let plan = single.join_self(1);
    assert_eq!(plan.handles, vec![9]);
    assert_eq!(plan.payload, "1");
    let direct = Group::new(GroupHandles::V2(3), "x".to_string());
    assert_eq!(direct.join_self(0).handles, vec![3]);
    assert_eq!(direct.join_self(0).payload, "0");
}

fn params(pairs: &[(&str, &str)]) -> Vec<(String, String)> {
    pairs.iter().map(|(a, b)| (a.to_string(), b.to_string())).collect()
}

#[test]
fn protocol_request_query_follows_flags() {
    let client = DefaultApiClient::new(Rc::new(()));
    let r = client.get_run_protocol(12, Some(true), None, Some(false), None);
    assert_eq!(r.method, Method::Get);
    assert_eq!(r.path, "/runs/<id>/protocol");
    assert_eq!(r.query_params, params(&[("compile_log", "true"), ("output", "false")]));
    assert_eq!(r.path_params, params(&[("id", "12")]));
    let none = client.get_run_protocol(-3, None, None, None, None);
    assert!(none.query_params.is_empty());
    assert_eq!(none.path_params, params(&[("id", "-3")]));
    let all = client.get_run_protocol(1, Some(false), Some(true), Some(true), Some(false));
    assert_eq!(
        all.query_params,
        params(&[("compile_log", "false"), ("test_data", "true"), ("output", "true"), ("answer", "false")])
    );
}

#[test]
fn endpoint_requests() {
    let client = DefaultApiClient::new(Rc::new(5u8));
    assert_eq!(**client.config(), 5);
    let expect = |r: ApiRequest<()>, method: Method, path: &str, pp: &[(&str, &str)]| {
        assert_eq!(r.method, method);
        assert_eq!(r.path, path);
        assert_eq!(r.path_params, params(pp));
        assert!(r.query_params.is_empty());
        assert_eq!(r.body, None);
    };
    expect(client.api_version(), Method::Get, "/system/api-version", &[]);
    expect(client.get_contest("c1"), Method::Get, "/contests/{name}", &[("name", "c1")]);
    expect(client.get_contest_standings("c1"), Method::Get, "/contests/{name}/standings", &[("name", "c1")]);
    expect(client.get_run(7), Method::Get, "/runs/{id}", &[("id", "7")]);
    expect(client.get_run_binary(7), Method::Get, "/runs/<id>/binary", &[("id", "7")]);
    expect(client.get_run_live_status(7), Method::Get, "/runs/<id>/live", &[("id", "7")]);
    expect(client.get_run_source(7), Method::Get, "/runs/<id>/source", &[("id", "7")]);
    expect(client.is_dev(), Method::Get, "/system/is-dev", &[]);
    expect(client.list_contest_problems("c"), Method::Get, "/contests/{name}/problems", &[("name", "c")]);
    expect(client.list_contests(), Method::Get, "/contests", &[]);
    expect(client.list_runs(), Method::Get, "/runs", &[]);
    expect(client.list_toolchains(), Method::Get, "/toolchains", &[]);
    let delete = client.delete_run(2);
    assert!(delete.returns_nothing);
    assert_eq!(delete.method, Method::Delete);
    assert_eq!(delete.path_params, params(&[("id", "2")]));
    assert!(!client.get_run(2).returns_nothing);
}

#[test]
fn requests_with_bodies() {
    let client = DefaultApiClient::new(Rc::new(()));
    let r = client.create_user("user");
    assert_eq!((r.method, r.path.as_str(), r.body), (Method::Post, "/users", Some("user")));
    let r = client.log_in(3);
    assert_eq!((r.method, r.path.as_str(), r.body), (Method::Post, "/auth/simple", Some(3)));
    let r = client.submit_run('s');
    assert_eq!((r.method, r.path.as_str(), r.body), (Method::Post, "/runs", Some('s')));
    let r = client.patch_run::<u8>(9, None);
    assert_eq!((r.method, r.path.as_str()), (Method::Patch, "/runs/{id}"));
    assert_eq!(r.body, Some(None));
    assert_eq!(r.path_params, params(&[("id", "9")]));
    assert_eq!(bool_string(true), "true");
    assert_eq!(bool_string(false), "false");
}
