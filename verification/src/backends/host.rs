//! `host.memory` and `host.disk`: which mount point is inspected and how
//! the sizes are shown.
use vstd::prelude::*;
use vstd::string::*;

use crate::backends::{param_string_opt, spec_param_string_opt, DiskInput};
use crate::error::{text_result, ErrorView, RsagentError};
use crate::params::{opt_str_view, ParamMap, ParamView};
use crate::text::{decimal, decimal_string, str_eq, trim, trim_str};

verus! {

/// Bytes shown as whole MiB.
pub open spec fn mib(x: u64) -> nat {
    (x / 1024 / 1024) as nat
}

/// Bytes shown as whole GiB.
pub open spec fn gib(x: u64) -> nat {
    (x / 1024 / 1024 / 1024) as nat
}

/// How the memory figures are shown.
pub open spec fn memory_text(used: u64, total: u64, available: u64) -> Seq<char> {
    "Memory: used "@ + decimal(mib(used)) + " MiB / total "@ + decimal(mib(total))
        + " MiB (available "@ + decimal(mib(available)) + " MiB)"@
}

/// Shows the memory figures, in bytes, as whole MiB.
pub fn format_memory(used: u64, total: u64, available: u64) -> (r: String)
    ensures
        r@ == memory_text(used, total, available),
{
    let mut r = String::from_str("Memory: used ");
    r.append(decimal_string((used / 1024 / 1024) as u128).as_str());
    r.append(" MiB / total ");
    r.append(decimal_string((total / 1024 / 1024) as u128).as_str());
    r.append(" MiB (available ");
    r.append(decimal_string((available / 1024 / 1024) as u128).as_str());
    r.append(" MiB)");
    r
}

/// The mount point a `host.disk` call inspects: the call's own, else the
/// configured `mount`, else `/`.
pub open spec fn disk_mount_of(params: Map<Seq<char>, ParamView>, input_mount: Option<Seq<char>>) -> Seq<char> {
    match input_mount {
        Some(m) => m,
        None => match spec_param_string_opt(params, "mount"@) {
            Some(m) => m,
            None => "/"@,
        },
    }
}

/// Resolves the mount point of a `host.disk` call.
pub fn disk_mount(params: &ParamMap, input: &DiskInput) -> (r: String)
    ensures
        r@ == disk_mount_of(params@, opt_str_view(input.mount)),
{
    match &input.mount {
        Some(m) => m.clone(),
        None => match param_string_opt(params, "mount") {
            Some(m) => m,
            None => String::from_str("/"),
        },
    }
}

/// A mounted disk as listed by the host.
#[derive(Debug, Clone, PartialEq)]
pub struct DiskInfo {
    pub mount_point: String,
    pub total_space: u64,
    pub available_space: u64,
}

/// The position of the first disk mounted at `mount`.
pub open spec fn disk_index(disks: Seq<DiskInfo>, mount: Seq<char>) -> Option<int>
    decreases disks.len(),
{
    if disks.len() == 0 {
        None
    } else if disks[0].mount_point@ == mount {
        Some(0)
    } else {
        match disk_index(disks.drop_first(), mount) {
            Some(i) => Some(i + 1),
            None => None,
        }
    }
}

/// How one disk's figures are shown.
pub open spec fn disk_text(mount: Seq<char>, d: DiskInfo) -> Seq<char> {
    let used: u64 = if d.available_space >= d.total_space {
        0
    } else {
        (d.total_space - d.available_space) as u64
    };
    "Disk "@ + mount + ": used "@ + decimal(gib(used)) + " GiB / total "@ + decimal(
        gib(d.total_space),
    ) + " GiB (available "@ + decimal(gib(d.available_space)) + " GiB)"@
}

/// What a `host.disk` call answers: the first disk mounted at `mount`, or
/// an error when none is.
pub open spec fn disk_outcome(mount: Seq<char>, disks: Seq<DiskInfo>) -> Result<Seq<char>, ErrorView> {
    match disk_index(disks, mount) {
        Some(i) => Ok(disk_text(mount, disks[i])),
        None => Err(ErrorView::Tool("host.disk"@, "no disk mounted at `"@ + mount + "`"@)),
    }
}

/// Shows the disk mounted at `mount`.
pub fn disk_report(mount: &str, disks: &Vec<DiskInfo>) -> (r: Result<String, RsagentError>)
    ensures
        text_result(r) == disk_outcome(mount@, disks@),
{
    let mut i: usize = 0;
    assert(disks@.subrange(0, disks@.len() as int) =~= disks@);
    while i < disks.len()
        invariant
            i <= disks@.len(),
            disk_index(disks@, mount@) == (match disk_index(
                disks@.subrange(i as int, disks@.len() as int),
                mount@,
            ) {
                Some(k) => Some(k + i),
                None => None::<int>,
            }),
        decreases disks.len() - i,
    {
        let d = &disks[i];
        let ghost tail = disks@.subrange(i as int, disks@.len() as int);
        assert(tail[0] == *d);
        if str_eq(d.mount_point.as_str(), mount) {
            let used = d.total_space.saturating_sub(d.available_space);
            let mut r = String::from_str("Disk ");
            r.append(mount);
            r.append(": used ");
            r.append(decimal_string((used / 1024 / 1024 / 1024) as u128).as_str());
            r.append(" GiB / total ");
            r.append(decimal_string((d.total_space / 1024 / 1024 / 1024) as u128).as_str());
            r.append(" GiB (available ");
            r.append(decimal_string((d.available_space / 1024 / 1024 / 1024) as u128).as_str());
            r.append(" GiB)");
            return Ok(r);
        }
        assert(tail.drop_first() =~= disks@.subrange(i + 1, disks@.len() as int));
        i += 1;
    }
    let mut m = String::from_str("no disk mounted at `");
    m.append(mount);
    m.append("`");
    Err(RsagentError::Tool { name: String::from_str("host.disk"), message: m })
}

/// What `nixos-version --json` printed, as the report reads it: the
/// `version` and `revision` strings and the `dirty` flag, each when present
/// with that type.
#[derive(Debug, Clone, PartialEq)]
pub struct NixosInfo {
    pub version: Option<String>,
    pub revision: Option<String>,
    pub dirty: Option<bool>,
}

/// The abstract value of a [`NixosInfo`].
pub struct NixosInfoView {
    pub version: Option<Seq<char>>,
    pub revision: Option<Seq<char>>,
    pub dirty: Option<bool>,
}

impl View for NixosInfo {
    type V = NixosInfoView;

    open spec fn view(&self) -> NixosInfoView {
        NixosInfoView {
            version: opt_str_view(self.version),
            revision: opt_str_view(self.revision),
            dirty: self.dirty,
        }
    }
}

/// An optional report by its view.
pub open spec fn nixos_info_view(o: Option<NixosInfo>) -> Option<NixosInfoView> {
    match o {
        Some(i) => Some(i@),
        None => None,
    }
}

/// What `serde_json::from_str` into a JSON value, read as a [`NixosInfo`],
/// gives for the output of `nixos-version --json`; none when it is not JSON.
pub uninterp spec fn nixos_json(stdout: Seq<char>) -> Option<NixosInfoView>;

/// Parses the output of `nixos-version --json` with `serde_json::from_str`
/// into a `serde_json::Value` and reads `version` and `revision`
/// (`Value::as_str`) and `dirty` (`Value::as_bool`); none when the parse
/// fails. The contract names the result: JSON parsing is `serde_json`'s,
/// and the result depends on the text alone.
#[verifier::external_body]
fn parse_nixos(stdout: &str) -> (r: Option<NixosInfo>)
    ensures
        nixos_info_view(r) == nixos_json(stdout@),
{
    serde_json::from_str::<serde_json::Value>(stdout).ok().map(|j| NixosInfo {
        version: j["version"].as_str().map(|s| s.to_string()),
        revision: j["revision"].as_str().map(|s| s.to_string()),
        dirty: j["dirty"].as_bool(),
    })
}

/// A text field, or `unknown`.
pub open spec fn known_or_unknown(o: Option<Seq<char>>) -> Seq<char> {
    match o {
        Some(s) => s,
        None => "unknown"@,
    }
}

/// What a `host.nixos_revision` call answers: from a successful
/// `nixos-version` run its JSON report (or its trimmed output when that is
/// not JSON); otherwise the first NixOS config file found; otherwise an error.
pub open spec fn nixos_outcome(
    success: bool,
    stdout: Seq<char>,
    parsed: Option<NixosInfoView>,
    present_config: Option<Seq<char>>,
) -> Result<Seq<char>, ErrorView> {
    if success {
        match parsed {
            Some(info) => Ok("NixOS "@ + known_or_unknown(info.version) + " (revision "@
                + known_or_unknown(info.revision) + (if info.dirty == Some(true) {
                ", dirty"@
            } else {
                ""@
            }) + ")"@),
            None => Ok(trim(stdout)),
        }
    } else {
        match present_config {
            Some(path) => Ok("NixOS config present at "@ + path + " (nixos-version unavailable)"@),
            None => Err(ErrorView::Tool("host.nixos_revision"@, "could not determine NixOS revision"@)),
        }
    }
}

/// A text field, or `unknown`.
fn known_or_unknown_exec(o: &Option<String>) -> (r: String)
    ensures
        r@ == known_or_unknown(opt_str_view(*o)),
{
    match o {
        Some(s) => s.clone(),
        None => String::from_str("unknown"),
    }
}

/// The optional path by its view.
pub open spec fn opt_path_view(p: Option<&str>) -> Option<Seq<char>> {
    match p {
        Some(p) => Some(p@),
        None => None,
    }
}

/// Reports the NixOS revision from what `nixos-version --json` gave, once
/// parsed.
pub fn nixos_revision_report(
    success: bool,
    stdout: &str,
    parsed: &Option<NixosInfo>,
    present_config: Option<&str>,
) -> (r: Result<String, RsagentError>)
    ensures
        text_result(r) == nixos_outcome(
            success,
            stdout@,
            nixos_info_view(*parsed),
            opt_path_view(present_config),
        ),
{
    if success {
        match parsed {
            Some(info) => {
                let mut out = String::from_str("NixOS ");
                out.append(known_or_unknown_exec(&info.version).as_str());
                out.append(" (revision ");
                out.append(known_or_unknown_exec(&info.revision).as_str());
                let dirty = match info.dirty {
                    Some(d) => d,
                    None => false,
                };
                if dirty {
                    out.append(", dirty");
                } else {
                    out.append("");
                }
                out.append(")");
                return Ok(out);
            },
            None => return Ok(trim_str(stdout)),
        }
    }
    match present_config {
        Some(path) => {
            let mut out = String::from_str("NixOS config present at ");
            out.append(path);
            out.append(" (nixos-version unavailable)");
            Ok(out)
        },
        None => Err(RsagentError::tool("host.nixos_revision", "could not determine NixOS revision")),
    }
}

/// Reports the NixOS revision from a `nixos-version --json` run (whether it
/// succeeded, and what it printed) and the first NixOS config file found:
/// the output of a successful run is parsed as JSON.
pub fn nixos_revision_answer(success: bool, stdout: &str, present_config: Option<&str>) -> (r:
    Result<String, RsagentError>)
    ensures
        text_result(r) == nixos_outcome(
            success,
            stdout@,
            nixos_json(stdout@),
            opt_path_view(present_config),
        ),
{
    let parsed = if success {
        parse_nixos(stdout)
    } else {
        None
    };
    nixos_revision_report(success, stdout, &parsed, present_config)
}

} // verus!
