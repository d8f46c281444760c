use rsagent::backends::host::{
    disk_mount, disk_report, format_memory, nixos_revision_answer, nixos_revision_report, DiskInfo,
    NixosInfo,
};
use rsagent::backends::DiskInput;
use rsagent::error::RsagentError;
use rsagent::params::{ParamMap, ParamValue};

const GIB: u64 = 1024 * 1024 * 1024;

#[test]
fn memory_is_shown_in_whole_mib() {
    assert_eq!(
        format_memory(3 * 1024 * 1024 + 5, 8 * 1024 * 1024, 1024 * 1024 - 1),
        "Memory: used 3 MiB / total 8 MiB (available 0 MiB)"
    );
    assert_eq!(format_memory(0, 0, 0), "Memory: used 0 MiB / total 0 MiB (available 0 MiB)");
    assert_eq!(
        format_memory(u64::MAX, u64::MAX, u64::MAX),
        "Memory: used 17592186044415 MiB / total 17592186044415 MiB (available 17592186044415 MiB)"
    );
}

#[test]
fn disk_mount_prefers_the_call_then_the_config() {
    let mut p = ParamMap::new();
    assert_eq!(disk_mount(&p, &DiskInput { mount: None }), "/");
    p.insert("mount", ParamValue::Str("/data".into()));
    assert_eq!(disk_mount(&p, &DiskInput { mount: None }), "/data");
    assert_eq!(disk_mount(&p, &DiskInput { mount: Some("/home".into()) }), "/home");
    let mut q = ParamMap::new();
    q.insert("mount", ParamValue::Integer(1));
    assert_eq!(disk_mount(&q, &DiskInput { mount: None }), "/");
}

fn disk(mount: &str, total: u64, available: u64) -> DiskInfo {
    DiskInfo { mount_point: mount.into(), total_space: total, available_space: available }
}

#[test]
fn disk_report_shows_the_first_matching_disk() {
    let disks = vec![disk("/boot", GIB, GIB), disk("/", 100 * GIB, 40 * GIB + 5), disk("/", 1, 1)];
    assert_eq!(
        disk_report("/", &disks),
        Ok("Disk /: used 59 GiB / total 100 GiB (available 40 GiB)".to_string())
    );
    assert_eq!(
        disk_report("/boot", &disks),
        Ok("Disk /boot: used 0 GiB / total 1 GiB (available 1 GiB)".to_string())
    );
}

#[test]
fn disk_used_space_saturates() {
    let disks = vec![disk("/x", GIB, 3 * GIB)];
    assert_eq!(
        disk_report("/x", &disks),
        Ok("Disk /x: used 0 GiB / total 1 GiB (available 3 GiB)".to_string())
    );
}

#[test]
fn disk_report_without_a_match_is_an_error() {
    assert_eq!(
        disk_report("/mnt", &vec![disk("/", GIB, GIB)]),
        Err(RsagentError::Tool { name: "host.disk".into(), message: "no disk mounted at `/mnt`".into() })
    );
    assert!(disk_report("/", &vec![]).is_err());
}

#[test]
fn nixos_report_from_json() {
    let info = NixosInfo {
        version: Some("24.05.1".into()),
        revision: Some("abc123".into()),
        dirty: Some(true),
    };
    assert_eq!(
        nixos_revision_report(true, "{}", &Some(info), None),
        Ok("NixOS 24.05.1 (revision abc123, dirty)".to_string())
    );
    let bare = NixosInfo { version: None, revision: None, dirty: Some(false) };
    assert_eq!(
        nixos_revision_report(true, "{}", &Some(bare), Some("/etc/nixos/flake.nix")),
        Ok("NixOS unknown (revision unknown)".to_string())
    );
}

#[test]
fn nixos_report_from_plain_output() {
    assert_eq!(
        nixos_revision_report(true, "  24.05 (Uakari)\n", &None, None),
        Ok("24.05 (Uakari)".to_string())
    );
}

#[test]
fn nixos_report_falls_back_to_config_files() {
    assert_eq!(
        nixos_revision_report(false, "", &None, Some("/etc/nixos/configuration.nix")),
        Ok("NixOS config present at /etc/nixos/configuration.nix (nixos-version unavailable)"
            .to_string())
    );
    assert_eq!(
        nixos_revision_report(false, "", &None, None),
        Err(RsagentError::Tool {
            name: "host.nixos_revision".into(),
            message: "could not determine NixOS revision".into()
        })
    );
}

#[test]
fn nixos_answer_parses_the_json_output() {
    assert_eq!(
        nixos_revision_answer(
            true,
            "{\"version\":\"24.11.1\",\"revision\":\"deadbeef\",\"dirty\":true}\n",
            None
        ),
        Ok("NixOS 24.11.1 (revision deadbeef, dirty)".to_string())
    );
    assert_eq!(
        nixos_revision_answer(true, "{\"version\":3,\"dirty\":\"yes\"}", None),
        Ok("NixOS unknown (revision unknown)".to_string())
    );
    assert_eq!(
        nixos_revision_answer(true, " 24.05pre-git (Uakari)\n", None),
        Ok("24.05pre-git (Uakari)".to_string())
    );
    assert_eq!(
        nixos_revision_answer(false, "{\"version\":\"1\"}", Some("/etc/nixos/flake.nix")),
        Ok("NixOS config present at /etc/nixos/flake.nix (nixos-version unavailable)".to_string())
    );
}
