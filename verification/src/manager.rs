//! The command text and parsing behind the UTM manager.

use vstd::prelude::*;
use crate::config::{
    architecture_name, mode_applescript_name, DriveConfig, NetworkMode, PortForward, VmConfig,
};
use crate::error::Error;
use crate::text::{
    brace_low, lemma_brace_low_concat, lemma_brace_low_prefixes, brace_balance, brace_free, chars_of, count_char, decimal, escape_quotes,
    lemma_brace_balance_char, lemma_brace_balance_concat, lemma_brace_free_balance,
    lemma_decimal_brace_free, lemma_escape_brace_free, lines, lines_of, push_decimal,
    digits_value, is_digits, join, law_decimal_reads_back, push_escaped, split, split_of, splitn3, splitn3_of, str_eq, string_of, trim, trim_vec, words,
    words_of,
};
use crate::vm::{lowercase, status_of_text, to_lowercase, VmInfo, VmInfoView, VmStatus};

verus! {

/// The VM that one row of `utmctl list` describes, if it is well formed: split at the
/// first two tabs, or, with fewer than two tabs, at white space.
pub open spec fn list_row(l: Seq<char>) -> Option<VmInfoView> {
    let parts = splitn3(l, '\t');
    if parts.len() < 3 {
        let cols = words(l);
        if cols.len() >= 3 {
            Some(VmInfoView { name: cols[0], uuid: cols[1], status: status_of_text(cols[2]) })
        } else {
            None
        }
    } else {
        Some(
            VmInfoView {
                name: trim(parts[0]),
                uuid: trim(parts[1]),
                status: status_of_text(parts[2]),
            },
        )
    }
}

/// The VMs described by the rows `ls`, blank rows and malformed rows left out.
pub open spec fn list_rows(ls: Seq<Seq<char>>) -> Seq<VmInfoView>
    decreases ls.len(),
{
    if ls.len() == 0 {
        seq![]
    } else {
        let rest = list_rows(ls.drop_last());
        let l = ls.last();
        if trim(l).len() == 0 {
            rest
        } else {
            match list_row(l) {
                Some(e) => rest.push(e),
                None => rest,
            }
        }
    }
}

/// The VMs in the output `raw` of `utmctl list`: every line after the header row.
pub open spec fn list_output(raw: Seq<char>) -> Seq<VmInfoView> {
    let ls = lines(raw);
    if ls.len() == 0 {
        seq![]
    } else {
        list_rows(ls.drop_first())
    }
}

/// The VM described by one row of `utmctl list` output, if the row is well formed.
pub fn parse_list_row(l: &Vec<char>) -> (r: Option<VmInfo>)
    ensures
        match r {
            Some(v) => list_row(l@) == Some(v@),
            None => list_row(l@).is_none(),
        },
{
    let parts = splitn3_of(l, '\t');
    if parts.len() < 3 {
        let cols = words_of(l);
        if cols.len() >= 3 {
            let ghost dv = cols.deep_view();
            assert(dv[0] == cols@[0]@ && dv[1] == cols@[1]@ && dv[2] == cols@[2]@);
            let name = string_of(cols[0].as_slice());
            let uuid = string_of(cols[1].as_slice());
            let st = string_of(cols[2].as_slice());
            let status = VmStatus::from_str(st.as_str());
            Some(VmInfo { name, uuid, status })
        } else {
            None
        }
    } else {
        let ghost dv = parts.deep_view();
        assert(dv[0] == parts@[0]@ && dv[1] == parts@[1]@ && dv[2] == parts@[2]@);
        let name = string_of(trim_vec(&parts[0]).as_slice());
        let uuid = string_of(trim_vec(&parts[1]).as_slice());
        let st = string_of(parts[2].as_slice());
        let status = VmStatus::from_str(st.as_str());
        Some(VmInfo { name, uuid, status })
    }
}

/// Parses the tabular output of `utmctl list`.
///
/// The first line is the header; blank lines and rows that are not well formed are skipped.
pub fn parse_list_output(raw: &str) -> (r: Vec<VmInfo>)
    ensures
        r@.map_values(|v: VmInfo| v@) == list_output(raw@),
{
    let chars = chars_of(raw);
    let ls = lines_of(&chars);
    let mut out: Vec<VmInfo> = Vec::new();
    if ls.len() == 0 {
        assert(out@.map_values(|v: VmInfo| v@) =~= Seq::<VmInfoView>::empty());
        return out;
    }
    let ghost body = ls.deep_view().drop_first();
    let mut i: usize = 1;
    assert(body.take(0) =~= Seq::<Seq<char>>::empty());
    while i < ls.len()
        invariant
            1 <= i <= ls@.len(),
            ls@.len() == lines(raw@).len(),
            body == ls.deep_view().drop_first(),
            ls.deep_view() == lines(chars@),
            chars@ == raw@,
            out@.map_values(|v: VmInfo| v@) =~= list_rows(body.take(i - 1)),
        decreases ls@.len() - i,
    {
        let line = &ls[i];
        assert(ls.deep_view()[i as int] == line@);
        assert(body.take(i as int).drop_last() =~= body.take(i - 1));
        assert(body.take(i as int).last() == line@);
        let t = trim_vec(line);
        if t.len() != 0 {
            match parse_list_row(line) {
                Some(v) => {
                    let ghost before = out@.map_values(|v: VmInfo| v@);
                    out.push(v);
                    assert(out@.map_values(|v: VmInfo| v@) =~= before.push(v@));
                },
                None => {},
            }
        }
        i = i + 1;
    }
    assert(body.take(body.len() as int) =~= body);
    out
}


/// The AppleScript variable that holds the file of drive number `i` (counting from 0).
pub open spec fn drive_var(i: nat) -> Seq<char> {
    "drive"@ + decimal(i + 1)
}

/// The size in MB given to a new blank disk: its size in GB (20 when unset) times 1024.
pub open spec fn drive_size_mb(d: DriveConfig) -> nat {
    (match d.size_gb {
        Some(g) => g as nat,
        None => 20nat,
    }) * 1024
}

/// The line that binds the file of drive `i`, when it has one (an ISO, else an image).
pub open spec fn drive_decl(i: nat, d: DriveConfig) -> Seq<char> {
    match d.iso_path {
        Some(p) => "    set "@ + drive_var(i) + " to POSIX file \""@ + escape_quotes(p@) + "\"\n"@,
        None => match d.image_path {
            Some(p) => "    set "@ + drive_var(i) + " to POSIX file \""@ + escape_quotes(p@)
                + "\"\n"@,
            None => Seq::empty(),
        },
    }
}

/// The AppleScript record for drive `i`: removable media for an ISO, a fixed drive for
/// an image, otherwise a blank disk of the requested size.
pub open spec fn drive_record(i: nat, d: DriveConfig) -> Seq<char> {
    if d.iso_path.is_some() {
        "{removable:true, source:"@ + drive_var(i) + "}"@
    } else if d.image_path.is_some() {
        "{source:"@ + drive_var(i) + "}"@
    } else {
        "{guest size:"@ + decimal(drive_size_mb(d)) + "}"@
    }
}

/// The variable lines for all drives, in order.
pub open spec fn drives_decls(ds: Seq<DriveConfig>) -> Seq<char>
    decreases ds.len(),
{
    if ds.len() == 0 {
        Seq::empty()
    } else {
        drives_decls(ds.drop_last()) + drive_decl((ds.len() - 1) as nat, ds.last())
    }
}

/// The records of all drives, separated by `", "`.
pub open spec fn drives_records(ds: Seq<DriveConfig>) -> Seq<char>
    decreases ds.len(),
{
    if ds.len() == 0 {
        Seq::empty()
    } else if ds.len() == 1 {
        drive_record(0, ds[0])
    } else {
        drives_records(ds.drop_last()) + ", "@ + drive_record((ds.len() - 1) as nat, ds.last())
    }
}

/// Appends the variable name of drive number `i` (counting from 0).
fn push_drive_var(out: &mut String, i: usize)
    requires
        i < usize::MAX,
    ensures
        final(out)@ == old(out)@ + drive_var(i as nat),
{
    out.append("drive");
    push_decimal(out, (i + 1) as u64);
}

/// Build the AppleScript drives fragment for a list of drive configs.
///
/// Returns the variable declarations (e.g. `    set drive1 to POSIX file "…"\n`) and the
/// drives expression for the `make` command record.
pub fn build_drives_applescript(drives: &[DriveConfig]) -> (r: (String, String))
    ensures
        r.0@ == drives_decls(drives@),
        r.1@ == drives_records(drives@),
{
    let mut vars = String::new();
    let mut exprs = String::new();
    let mut i: usize = 0;
    assert(drives@.take(0) =~= Seq::<DriveConfig>::empty());
    while i < drives.len()
        invariant
            i <= drives@.len(),
            vars@ == drives_decls(drives@.take(i as int)),
            exprs@ == drives_records(drives@.take(i as int)),
        decreases drives@.len() - i,
    {
        let d = &drives[i];
        let ghost t = drives@.take(i + 1);
        assert(t.drop_last() =~= drives@.take(i as int));
        assert(t.last() == *d);
        if i != 0 {
            exprs.append(", ");
        } else {
            assert(t =~= seq![*d]);
        }
        let ghost vars0 = vars@;
        let ghost exprs0 = exprs@;
        match &d.iso_path {
            Some(iso) => {
                vars.append("    set ");
                push_drive_var(&mut vars, i);
                vars.append(" to POSIX file \"");
                push_escaped(&mut vars, iso.as_str());
                vars.append("\"\n");
                exprs.append("{removable:true, source:");
                push_drive_var(&mut exprs, i);
                exprs.append("}");
            },
            None => match &d.image_path {
                Some(img) => {
                    vars.append("    set ");
                    push_drive_var(&mut vars, i);
                    vars.append(" to POSIX file \"");
                    push_escaped(&mut vars, img.as_str());
                    vars.append("\"\n");
                    exprs.append("{source:");
                    push_drive_var(&mut exprs, i);
                    exprs.append("}");
                },
                None => {
                    let gb: u32 = match d.size_gb {
                        Some(g) => g,
                        None => 20,
                    };
                    let size_mb: u64 = gb as u64 * 1024;
                    exprs.append("{guest size:");
                    push_decimal(&mut exprs, size_mb);
                    exprs.append("}");
                },
            },
        }
        assert(vars@ =~= vars0 + drive_decl(i as nat, *d));
        assert(exprs@ =~= exprs0 + drive_record(i as nat, *d));
        i = i + 1;
    }
    assert(drives@.take(drives@.len() as int) =~= drives@);
    (vars, exprs)
}


/// The `notes:` field of the configuration record, when there are notes.
pub open spec fn notes_field(c: VmConfig) -> Seq<char> {
    match c.notes {
        Some(n) => "notes:\""@ + n@ + "\", "@,
        None => Seq::empty(),
    }
}

/// Whether the AppleScript record carries the first port forward: only in emulated mode.
pub open spec fn script_has_port_forward(c: VmConfig) -> bool {
    c.network_mode == NetworkMode::Emulated && c.port_forwards@.len() > 0
}

/// The inside of the network interface record; the first port forward is written only
/// when `forwards` is asked for and the configuration has one in emulated mode.
pub open spec fn interface_fields(c: VmConfig, forwards: bool) -> Seq<char> {
    if forwards && script_has_port_forward(c) {
        let pf = c.port_forwards@[0];
        "mode:"@ + mode_applescript_name(c.network_mode) + ", port forwards:{{protocol:"@
            + pf.protocol@ + ", host port:"@ + decimal(pf.host_port as nat) + ", guest port:"@
            + decimal(pf.guest_port as nat) + "}}}}"@
    } else {
        "mode:"@ + mode_applescript_name(c.network_mode) + "}}"@
    }
}

/// The AppleScript program that creates the VM described by `c` in UTM.
pub open spec fn create_script(c: VmConfig) -> Seq<char> {
    script_text(c, true)
}

/// The AppleScript program for `c`, with or without its first port forward.
pub open spec fn script_text(c: VmConfig, forwards: bool) -> Seq<char> {
    "tell application \"UTM\"\n"@ + drives_decls(c.drives@)
        + "    make new virtual machine with properties {backend:qemu, configuration:{"@
        + "name:\""@ + c.name@ + "\", "@ + notes_field(c) + "architecture:\""@
        + architecture_name(c.architecture) + "\", "@ + "memory:"@ + decimal(c.memory_mb as nat)
        + ", "@ + "cpu cores:"@ + decimal(c.cpu_count as nat) + ", "@ + (if c.hypervisor {
        "hypervisor:true, "@
    } else {
        Seq::empty()
    }) + "drives:{"@ + drives_records(c.drives@) + "}, "@ + "network interfaces:{{"@
        + interface_fields(c, forwards) + "}}\n"@ + "end tell\n"@
}

/// Build the AppleScript source that creates the VM `config` describes.
pub fn build_create_script(config: &VmConfig) -> (r: String)
    ensures
        r@ == create_script(*config),
{
    build_script(config, true)
}

/// The AppleScript source that `create` sends to `osascript`: the configuration without
/// its port forwards, which `create` writes into `config.plist` afterwards (a port forward
/// in the creation record fails with a coercion error in emulated mode).
pub fn creation_script(config: &VmConfig) -> (r: String)
    ensures
        r@ == script_text(*config, false),
{
    build_script(config, false)
}

/// The AppleScript source for `config`, with or without its first port forward.
#[verifier::rlimit(60)]
fn build_script(config: &VmConfig, forwards: bool) -> (r: String)
    ensures
        r@ == script_text(*config, forwards),
{
    let (drive_vars, drives_expr) = build_drives_applescript(config.drives.as_slice());

    let mut script = String::new();
    script.append("tell application \"UTM\"\n");
    if !drive_vars.as_str().is_empty() {
        script.append(drive_vars.as_str());
    } else {
        assert(drive_vars@ =~= Seq::<char>::empty());
    }
    let ghost part1 = script@;
    assert(part1 =~= "tell application \"UTM\"\n"@ + drives_decls(config.drives@));

    script.append("    make new virtual machine with properties {backend:qemu, configuration:{");
    script.append("name:\"");
    script.append(config.name.as_str());
    script.append("\", ");
    match &config.notes {
        Some(n) => {
            script.append("notes:\"");
            script.append(n.as_str());
            script.append("\", ");
        },
        None => {},
    }
    script.append("architecture:\"");
    script.append(config.architecture.as_str());
    script.append("\", ");
    script.append("memory:");
    push_decimal(&mut script, config.memory_mb as u64);
    script.append(", ");
    script.append("cpu cores:");
    push_decimal(&mut script, config.cpu_count as u64);
    script.append(", ");
    if config.hypervisor {
        script.append("hypervisor:true, ");
    }
    let ghost part2 = script@;
    assert(part2 =~= part1
        + "    make new virtual machine with properties {backend:qemu, configuration:{"@
        + "name:\""@ + config.name@ + "\", "@ + notes_field(*config) + "architecture:\""@
        + architecture_name(config.architecture) + "\", "@ + "memory:"@ + decimal(
        config.memory_mb as nat,
    ) + ", "@ + "cpu cores:"@ + decimal(config.cpu_count as nat) + ", "@ + (if config.hypervisor {
        "hypervisor:true, "@
    } else {
        Seq::empty()
    }));

    script.append("drives:{");
    script.append(drives_expr.as_str());
    script.append("}, ");
    script.append("network interfaces:{{");
    let ghost part3 = script@;
    if forwards && matches!(config.network_mode, NetworkMode::Emulated)
        && config.port_forwards.len() != 0 {
        let pf = &config.port_forwards[0];
        script.append("mode:");
        script.append(config.network_mode.as_applescript_str());
        script.append(", port forwards:{{protocol:");
        script.append(pf.protocol.as_str());
        script.append(", host port:");
        push_decimal(&mut script, pf.host_port as u64);
        script.append(", guest port:");
        push_decimal(&mut script, pf.guest_port as u64);
        script.append("}}}}");
    } else {
        script.append("mode:");
        script.append(config.network_mode.as_applescript_str());
        script.append("}}");
    }
    assert(script@ =~= part3 + interface_fields(*config, forwards));
    script.append("}}\n");
    script.append("end tell\n");
    assert(script@ =~= script_text(*config, forwards));
    script
}


/// The brace balance of the fixed texts of the creation script.
proof fn lemma_script_literals()
    ensures
        brace_balance("tell application \"UTM\"\n"@) == 0,
        brace_balance("    make new virtual machine with properties {backend:qemu, configuration:{"@)
            == 2,
        brace_balance("name:\""@) == 0,
        brace_balance("\", "@) == 0,
        brace_balance("notes:\""@) == 0,
        brace_balance("architecture:\""@) == 0,
        brace_balance("memory:"@) == 0,
        brace_balance(", "@) == 0,
        brace_balance("cpu cores:"@) == 0,
        brace_balance("hypervisor:true, "@) == 0,
        brace_balance("drives:{"@) == 1,
        brace_balance("}, "@) == -1,
        brace_balance("network interfaces:{{"@) == 2,
        brace_balance("mode:"@) == 0,
        brace_balance(", port forwards:{{protocol:"@) == 2,
        brace_balance(", host port:"@) == 0,
        brace_balance(", guest port:"@) == 0,
        brace_balance("}}}}"@) == -4,
        brace_balance("}}"@) == -2,
        brace_balance("}}\n"@) == -2,
        brace_balance("end tell\n"@) == 0,
        brace_balance("drive"@) == 0,
        brace_balance("    set "@) == 0,
        brace_balance(" to POSIX file \""@) == 0,
        brace_balance("\"\n"@) == 0,
        brace_balance("{removable:true, source:"@) == 1,
        brace_balance("{source:"@) == 1,
        brace_balance("{guest size:"@) == 1,
        brace_balance("}"@) == -1,
        brace_low("tell application \"UTM\"\n"@) == 0,
        brace_low("    make new virtual machine with properties {backend:qemu, configuration:{"@) == 0,
        brace_low("name:\""@) == 0,
        brace_low("\", "@) == 0,
        brace_low("notes:\""@) == 0,
        brace_low("architecture:\""@) == 0,
        brace_low("memory:"@) == 0,
        brace_low(", "@) == 0,
        brace_low("cpu cores:"@) == 0,
        brace_low("hypervisor:true, "@) == 0,
        brace_low("drives:{"@) == 0,
        brace_low("}, "@) == -1,
        brace_low("network interfaces:{{"@) == 0,
        brace_low("mode:"@) == 0,
        brace_low(", port forwards:{{protocol:"@) == 0,
        brace_low(", host port:"@) == 0,
        brace_low(", guest port:"@) == 0,
        brace_low("}}}}"@) == -4,
        brace_low("}}"@) == -2,
        brace_low("}}\n"@) == -2,
        brace_low("end tell\n"@) == 0,
        brace_low("drive"@) == 0,
        brace_low("    set "@) == 0,
        brace_low(" to POSIX file \""@) == 0,
        brace_low("\"\n"@) == 0,
        brace_low("{removable:true, source:"@) == 0,
        brace_low("{source:"@) == 0,
        brace_low("{guest size:"@) == 0,
        brace_low("}"@) == -1,
{
    broadcast use lemma_brace_balance_concat, lemma_brace_low_concat;

    let o = seq!['{'];
    let c = seq!['}'];
    lemma_brace_balance_char('{');
    lemma_brace_balance_char('}');
    lemma_brace_balance_char('\n');
    lemma_brace_balance_char(' ');
    reveal_strlit("tell application \"UTM\"\n");
    lemma_brace_free_balance("tell application \"UTM\"\n"@);
    reveal_strlit("    make new virtual machine with properties {backend:qemu, configuration:{");
    reveal_strlit("    make new virtual machine with properties ");
    reveal_strlit("backend:qemu, configuration:");
    lemma_brace_free_balance("    make new virtual machine with properties "@);
    lemma_brace_free_balance("backend:qemu, configuration:"@);
    assert("    make new virtual machine with properties {backend:qemu, configuration:{"@
        =~= "    make new virtual machine with properties "@ + o + "backend:qemu, configuration:"@
        + o);
    reveal_strlit("name:\"");
    lemma_brace_free_balance("name:\""@);
    reveal_strlit("\", ");
    lemma_brace_free_balance("\", "@);
    reveal_strlit("notes:\"");
    lemma_brace_free_balance("notes:\""@);
    reveal_strlit("architecture:\"");
    lemma_brace_free_balance("architecture:\""@);
    reveal_strlit("memory:");
    lemma_brace_free_balance("memory:"@);
    reveal_strlit(", ");
    lemma_brace_free_balance(", "@);
    reveal_strlit("cpu cores:");
    lemma_brace_free_balance("cpu cores:"@);
    reveal_strlit("hypervisor:true, ");
    lemma_brace_free_balance("hypervisor:true, "@);
    reveal_strlit("drives:{");
    reveal_strlit("drives:");
    lemma_brace_free_balance("drives:"@);
    assert("drives:{"@ =~= "drives:"@ + o);
    reveal_strlit("}, ");
    assert("}, "@ =~= c + ", "@);
    reveal_strlit("network interfaces:{{");
    reveal_strlit("network interfaces:");
    lemma_brace_free_balance("network interfaces:"@);
    assert("network interfaces:{{"@ =~= "network interfaces:"@ + o + o);
    reveal_strlit("mode:");
    lemma_brace_free_balance("mode:"@);
    reveal_strlit(", port forwards:{{protocol:");
    reveal_strlit(", port forwards:");
    reveal_strlit("protocol:");
    lemma_brace_free_balance(", port forwards:"@);
    lemma_brace_free_balance("protocol:"@);
    assert(", port forwards:{{protocol:"@ =~= ", port forwards:"@ + o + o + "protocol:"@);
    reveal_strlit(", host port:");
    lemma_brace_free_balance(", host port:"@);
    reveal_strlit(", guest port:");
    lemma_brace_free_balance(", guest port:"@);
    reveal_strlit("}}}}");
    assert("}}}}"@ =~= c + c + c + c);
    reveal_strlit("}}");
    assert("}}"@ =~= c + c);
    reveal_strlit("}}\n");
    assert("}}\n"@ =~= c + c + seq!['\n']);
    reveal_strlit("end tell\n");
    lemma_brace_free_balance("end tell\n"@);
    reveal_strlit("drive");
    lemma_brace_free_balance("drive"@);
    reveal_strlit("    set ");
    lemma_brace_free_balance("    set "@);
    reveal_strlit(" to POSIX file \"");
    lemma_brace_free_balance(" to POSIX file \""@);
    reveal_strlit("\"\n");
    lemma_brace_free_balance("\"\n"@);
    reveal_strlit("{removable:true, source:");
    reveal_strlit("removable:true, source:");
    lemma_brace_free_balance("removable:true, source:"@);
    assert("{removable:true, source:"@ =~= o + "removable:true, source:"@);
    reveal_strlit("{source:");
    reveal_strlit("source:");
    lemma_brace_free_balance("source:"@);
    assert("{source:"@ =~= o + "source:"@);
    reveal_strlit("{guest size:");
    reveal_strlit("guest size:");
    lemma_brace_free_balance("guest size:"@);
    assert("{guest size:"@ =~= o + "guest size:"@);
    reveal_strlit("}");
    assert("}"@ =~= c);
}

/// Whether the file paths of a drive hold no brace.
pub open spec fn drive_paths_brace_free(d: DriveConfig) -> bool {
    &&& d.iso_path matches Some(p) ==> brace_free(p@)
    &&& d.image_path matches Some(p) ==> brace_free(p@)
}

/// Each drive's line and record are balanced.
proof fn lemma_drive_balanced(i: nat, d: DriveConfig)
    requires
        drive_paths_brace_free(d),
    ensures
        brace_balance(drive_decl(i, d)) == 0,
        brace_balance(drive_record(i, d)) == 0,
        brace_low(drive_decl(i, d)) == 0,
        brace_low(drive_record(i, d)) == 0,
{
    broadcast use lemma_brace_balance_concat, lemma_brace_low_concat;

    lemma_script_literals();
    lemma_decimal_brace_free(i + 1);
    lemma_brace_free_balance(decimal(i + 1));
    lemma_decimal_brace_free(drive_size_mb(d));
    lemma_brace_free_balance(decimal(drive_size_mb(d)));
    match d.iso_path {
        Some(p) => {
            lemma_escape_brace_free(p@);
            lemma_brace_free_balance(escape_quotes(p@));
        },
        None => {},
    }
    match d.image_path {
        Some(p) => {
            lemma_escape_brace_free(p@);
            lemma_brace_free_balance(escape_quotes(p@));
        },
        None => {},
    }
    assert(Seq::<char>::empty().len() == 0);
    lemma_brace_free_balance(Seq::<char>::empty());
}

/// The drive lines and records together are balanced.
proof fn lemma_drives_balanced(ds: Seq<DriveConfig>)
    requires
        forall|k: int| 0 <= k < ds.len() ==> drive_paths_brace_free(#[trigger] ds[k]),
    ensures
        brace_balance(drives_decls(ds)) == 0,
        brace_balance(drives_records(ds)) == 0,
        brace_low(drives_decls(ds)) == 0,
        brace_low(drives_records(ds)) == 0,
    decreases ds.len(),
{
    broadcast use lemma_brace_balance_concat, lemma_brace_low_concat;

    lemma_script_literals();
    if ds.len() == 0 {
        lemma_brace_free_balance(Seq::<char>::empty());
    } else {
        let k = ds.len() - 1;
        assert(drive_paths_brace_free(ds[k]));
        assert forall|j: int| 0 <= j < ds.drop_last().len() implies drive_paths_brace_free(
            #[trigger] ds.drop_last()[j],
        ) by {
            assert(ds.drop_last()[j] == ds[j]);
        }
        lemma_drives_balanced(ds.drop_last());
        lemma_drive_balanced(k as nat, ds.last());
        lemma_drive_balanced(0, ds[0]);
    }
}

/// Law: the creation script opens as many braces as it closes, and no prefix of it closes
/// more than it has opened (the braces are properly nested), whenever the texts taken
/// from the configuration (name, notes, drive paths and the forwarded protocol) hold
/// no brace of their own.
pub proof fn law_create_script_balanced(c: VmConfig)
    requires
        brace_free(c.name@),
        c.notes matches Some(n) ==> brace_free(n@),
        forall|k: int| 0 <= k < c.drives@.len() ==> drive_paths_brace_free(#[trigger] c.drives@[k]),
        script_has_port_forward(c) ==> brace_free(c.port_forwards@[0].protocol@),
    ensures
        count_char(create_script(c), '{') == count_char(create_script(c), '}'),
        forall|k: int|
            0 <= k <= create_script(c).len() ==> count_char(#[trigger] create_script(c).take(k), '}')
                <= count_char(create_script(c).take(k), '{'),
{
    broadcast use lemma_brace_balance_concat, lemma_brace_low_concat;

    lemma_script_literals();
    lemma_drives_balanced(c.drives@);
    lemma_brace_free_balance(c.name@);
    lemma_brace_free_balance(Seq::<char>::empty());
    match c.notes {
        Some(n) => lemma_brace_free_balance(n@),
        None => {},
    }
    lemma_decimal_brace_free(c.memory_mb as nat);
    lemma_brace_free_balance(decimal(c.memory_mb as nat));
    lemma_decimal_brace_free(c.cpu_count as nat);
    lemma_brace_free_balance(decimal(c.cpu_count as nat));
    reveal_strlit("aarch64");
    reveal_strlit("x86_64");
    lemma_brace_free_balance(architecture_name(c.architecture));
    reveal_strlit("bridged");
    reveal_strlit("shared");
    reveal_strlit("host only");
    reveal_strlit("emulated");
    lemma_brace_free_balance(mode_applescript_name(c.network_mode));
    if script_has_port_forward(c) {
        let pf = c.port_forwards@[0];
        lemma_brace_free_balance(pf.protocol@);
        lemma_decimal_brace_free(pf.host_port as nat);
        lemma_brace_free_balance(decimal(pf.host_port as nat));
        lemma_decimal_brace_free(pf.guest_port as nat);
        lemma_brace_free_balance(decimal(pf.guest_port as nat));
    }
    assert(brace_balance(interface_fields(c, true)) == -2);
    assert(brace_low(interface_fields(c, true)) == -2);
    assert(brace_balance(notes_field(c)) == 0);
    assert(brace_low(notes_field(c)) == 0);
    assert(brace_balance(create_script(c)) == 0);
    assert(brace_low(create_script(c)) >= 0);
    lemma_brace_low_prefixes(create_script(c));
}


/// `base` joined with `p` as a Unix `PathBuf::join` does: an absolute `p` replaces `base`;
/// otherwise a `/` is put between them unless `base` is empty or already ends in one.
pub open spec fn path_join(base: Seq<char>, p: Seq<char>) -> Seq<char> {
    if p.len() > 0 && p[0] == '/' {
        p
    } else if base.len() == 0 || base.last() == '/' {
        base + p
    } else {
        base.push('/') + p
    }
}

/// Joins two paths as a Unix `PathBuf::join` does.
pub fn join_path(base: &str, p: &str) -> (r: String)
    ensures
        r@ == path_join(base@, p@),
{
    let bv = chars_of(base);
    let pv = chars_of(p);
    if pv.len() > 0 && pv[0] == '/' {
        return string_of(pv.as_slice());
    }
    let mut r = string_of(bv.as_slice());
    if bv.len() != 0 && bv[bv.len() - 1] != '/' {
        crate::text::push_char(&mut r, '/');
    }
    r.append(p);
    r
}

/// Where UTM keeps its VM bundles, below the home directory `home` (the value of `HOME`,
/// `/Users/unknown` when it is not set).
pub open spec fn utm_docs_dir(home: Option<Seq<char>>) -> Seq<char> {
    path_join(
        match home {
            Some(h) => h,
            None => "/Users/unknown"@,
        },
        "Library/Containers/com.utmapp.UTM/Data/Documents"@,
    )
}

/// The main interface to UTM: where its VM bundles live.
///
/// # Notes on UTM configuration caching
///
/// UTM loads `config.plist` **once** at startup. Edits of plist files take effect only
/// after UTM is quit and restarted.
pub struct UtmManager {
    /// The documents directory that holds the `.utm` bundles.
    docs_dir: String,
}

impl View for UtmManager {
    type V = Seq<char>;

    /// The documents directory.
    closed spec fn view(&self) -> Seq<char> {
        self.docs_dir@
    }
}

/// The bundle directory of the VM `name` in the documents directory `docs`.
pub open spec fn bundle_path_of(docs: Seq<char>, name: Seq<char>) -> Seq<char> {
    path_join(docs, name + ".utm"@)
}

/// The `config.plist` of the VM `name` in the documents directory `docs`.
pub open spec fn config_path_of(docs: Seq<char>, name: Seq<char>) -> Seq<char> {
    path_join(bundle_path_of(docs, name), "config.plist"@)
}

impl UtmManager {
    /// Create a manager using the default UTM documents directory below `home`, the value
    /// of the `HOME` environment variable (`None` when it is unset or not Unicode).
    pub fn new(home: Option<&str>) -> (r: Self)
        ensures
            r@ == utm_docs_dir(
                match home {
                    Some(h) => Some(h@),
                    None => None,
                },
            ),
    {
        let base = match home {
            Some(h) => h,
            None => "/Users/unknown",
        };
        UtmManager { docs_dir: join_path(base, "Library/Containers/com.utmapp.UTM/Data/Documents") }
    }

    /// Create a manager pointing at a custom documents directory (e.g. for testing).
    pub fn with_docs_dir(dir: &str) -> (r: Self)
        ensures
            r@ == dir@,
    {
        UtmManager { docs_dir: dir.to_owned() }
    }

    /// Return the path to a VM's `.utm` bundle.
    pub fn bundle_path(&self, name: &str) -> (r: String)
        ensures
            r@ == bundle_path_of(self@, name@),
    {
        let mut file = name.to_owned();
        file.append(".utm");
        join_path(self.docs_dir.as_str(), file.as_str())
    }

    /// Return the path to a VM's `config.plist`.
    pub fn config_path(&self, name: &str) -> (r: String)
        ensures
            r@ == config_path_of(self@, name@),
    {
        let bundle = self.bundle_path(name);
        join_path(bundle.as_str(), "config.plist")
    }

    /// The path to a VM's bundle, or [`Error::ConfigNotFound`] with the VM's name and that
    /// path when the bundle does not exist (`exists` tells whether it does).
    pub fn bundle_path_checked(&self, name: &str, exists: bool) -> (r: Result<String, Error>)
        ensures
            exists ==> (r matches Ok(p) && p@ == bundle_path_of(self@, name@)),
            !exists ==> (r matches Err(Error::ConfigNotFound(n, p)) && n@ == name@ && p@
                == bundle_path_of(self@, name@)),
    {
        let p = self.bundle_path(name);
        if exists {
            Ok(p)
        } else {
            Err(Error::ConfigNotFound(name.to_owned(), p))
        }
    }

    /// The path to a VM's `config.plist`, or [`Error::ConfigNotFound`] with the VM's name
    /// and that path when the file does not exist (`exists` tells whether it does).
    pub fn config_path_checked(&self, name: &str, exists: bool) -> (r: Result<String, Error>)
        ensures
            exists ==> (r matches Ok(p) && p@ == config_path_of(self@, name@)),
            !exists ==> (r matches Err(Error::ConfigNotFound(n, p)) && n@ == name@ && p@
                == config_path_of(self@, name@)),
    {
        let p = self.config_path(name);
        if exists {
            Ok(p)
        } else {
            Err(Error::ConfigNotFound(name.to_owned(), p))
        }
    }
}

/// Law: a relative VM name keeps the VM's bundle inside the documents directory.
pub proof fn law_bundle_in_docs_dir(docs: Seq<char>, name: Seq<char>)
    requires
        name.len() == 0 || name[0] != '/',
    ensures
        bundle_path_of(docs, name).len() >= docs.len(),
        bundle_path_of(docs, name).subrange(0, docs.len() as int) == docs,
{
    let p = name + ".utm"@;
    reveal_strlit(".utm");
    assert(p.len() > 0 && p[0] != '/') by {
        if name.len() > 0 {
            assert(p[0] == name[0]);
        }
    }
    if docs.len() == 0 || docs.last() == '/' {
        assert((docs + p).subrange(0, docs.len() as int) =~= docs);
    } else {
        assert((docs.push('/') + p).subrange(0, docs.len() as int) =~= docs);
    }
}

/// The last named component of a path, as `Path::file_name` reads it: empty and `.`
/// components are skipped from the end, and a final `..` (or nothing at all) has no name.
pub open spec fn last_named(parts: Seq<Seq<char>>) -> Option<Seq<char>>
    decreases parts.len(),
{
    if parts.len() == 0 {
        None
    } else {
        let l = parts.last();
        if l.len() == 0 || l == "."@ {
            last_named(parts.drop_last())
        } else if l == ".."@ {
            None
        } else {
            Some(l)
        }
    }
}

/// The file name of a path (`Path::file_name`).
pub open spec fn file_name(path: Seq<char>) -> Option<Seq<char>> {
    last_named(split(path, '/'))
}

/// The file name of `path`, if it has one.
pub fn file_name_of(path: &str) -> (r: Option<String>)
    ensures
        match r {
            Some(n) => file_name(path@) == Some(n@),
            None => file_name(path@) is None,
        },
{
    let v = chars_of(path);
    let parts = split_of(&v, '/');
    let ghost dv = parts.deep_view();
    let mut k: usize = parts.len();
    assert(dv.take(k as int) =~= dv);
    while k > 0
        invariant
            k <= parts@.len(),
            dv == parts.deep_view(),
            dv == split(path@, '/'),
            last_named(dv) == last_named(dv.take(k as int)),
        decreases k,
    {
        let piece = &parts[k - 1];
        assert(dv[k - 1] == piece@);
        assert(dv.take(k as int).last() == piece@);
        assert(dv.take(k as int).drop_last() =~= dv.take(k - 1));
        let text = string_of(piece.as_slice());
        if piece.len() == 0 || str_eq(text.as_str(), ".") {
            k = k - 1;
        } else if str_eq(text.as_str(), "..") {
            return None;
        } else {
            return Some(text);
        }
    }
    assert(dv.take(0) =~= Seq::<Seq<char>>::empty());
    None
}

/// The name under which the ISO `iso` of VM `vm_name` is copied into the bundle: its file
/// name, or an error for a path without one.
pub fn iso_image_name(vm_name: &str, iso: &str) -> (r: Result<String, Error>)
    ensures
        match file_name(iso@) {
            Some(n) => r matches Ok(t) && t@ == n,
            None => r matches Err(Error::Other(m)) && m@ == "invalid ISO path for VM '"@
                + vm_name@ + "': "@ + iso@,
        },
{
    match file_name_of(iso) {
        Some(n) => Ok(n),
        None => {
            let mut m = String::new();
            m.append("invalid ISO path for VM '");
            m.append(vm_name);
            m.append("': ");
            m.append(iso);
            Err(Error::Other(m))
        },
    }
}

/// Whether a VM named `name` is among `vms`.
pub fn list_contains(vms: &[VmInfo], name: &str) -> (r: bool)
    ensures
        r == exists|i: int| 0 <= i < vms@.len() && (#[trigger] vms@[i]).name@ == name@,
{
    let mut i: usize = 0;
    while i < vms.len()
        invariant
            i <= vms@.len(),
            forall|j: int| 0 <= j < i ==> (#[trigger] vms@[j]).name@ != name@,
        decreases vms@.len() - i,
    {
        if str_eq(vms[i].name.as_str(), name) {
            return true;
        }
        i = i + 1;
    }
    false
}

/// The first VM named `name` among `vms`, or [`Error::VmNotFound`].
pub fn find_vm(vms: Vec<VmInfo>, name: &str) -> (r: Result<VmInfo, Error>)
    ensures
        match r {
            Ok(v) => exists|i: int|
                0 <= i < vms@.len() && vms@[i] == v && v.name@ == name@ && forall|j: int|
                    0 <= j < i ==> (#[trigger] vms@[j]).name@ != name@,
            Err(e) => (e matches Error::VmNotFound(n) && n@ == name@) && forall|j: int|
                0 <= j < vms@.len() ==> (#[trigger] vms@[j]).name@ != name@,
        },
{
    let ghost all = vms@;
    let mut list = vms;
    let mut i: usize = 0;
    while i < list.len()
        invariant
            i <= list@.len(),
            list@ == all,
            all == vms@,
            forall|j: int| 0 <= j < i ==> (#[trigger] all[j]).name@ != name@,
        decreases list@.len() - i,
    {
        if str_eq(list[i].name.as_str(), name) {
            let v = list.remove(i);
            assert(all[i as int] == v);
            return Ok(v);
        }
        i = i + 1;
    }
    Err(Error::VmNotFound(name.to_owned()))
}

/// Refuses to create a VM whose name is taken (`exists`).
pub fn create_precheck(name: &str, exists: bool) -> (r: Result<(), Error>)
    ensures
        exists <==> r is Err,
        exists ==> (r matches Err(Error::VmAlreadyExists(n)) && n@ == name@),
{
    if exists {
        Err(Error::VmAlreadyExists(name.to_owned()))
    } else {
        Ok(())
    }
}

/// Refuses to clone a VM that does not exist, or onto a name that is taken.
pub fn clone_precheck(source: &str, source_exists: bool, new_name: &str, new_exists: bool) -> (r:
    Result<(), Error>)
    ensures
        !source_exists ==> (r matches Err(Error::VmNotFound(n)) && n@ == source@),
        source_exists && new_exists ==> (r matches Err(Error::VmAlreadyExists(n)) && n@
            == new_name@),
        source_exists && !new_exists ==> r is Ok,
{
    if !source_exists {
        Err(Error::VmNotFound(source.to_owned()))
    } else if new_exists {
        Err(Error::VmAlreadyExists(new_name.to_owned()))
    } else {
        Ok(())
    }
}

/// Whether `sub` occurs in `s`.
pub open spec fn contains_text(s: Seq<char>, sub: Seq<char>) -> bool {
    exists|i: int| 0 <= i && i + sub.len() <= s.len() && #[trigger] s.subrange(i, i + sub.len()) == sub
}

/// Whether `sub` occurs in `s`.
pub fn contains_str(s: &str, sub: &str) -> (r: bool)
    ensures
        r == contains_text(s@, sub@),
{
    let sv = chars_of(s);
    let uv = chars_of(sub);
    let n = sv.len();
    let m = uv.len();
    if m > n {
        return false;
    }
    if m == 0 {
        assert(s@.subrange(0int, 0int + sub@.len()) =~= sub@);
        return true;
    }
    let mut i: usize = 0;
    while i <= n - m
        invariant
            n == sv@.len(),
            m == uv@.len(),
            1 <= m <= n,
            i <= n - m + 1,
            sv@ == s@,
            uv@ == sub@,
            forall|k: int| 0 <= k < i ==> #[trigger] s@.subrange(k, k + m) != sub@,
        decreases n - i,
    {
        let piece = crate::text::sub_vec(&sv, i, i + m);
        if crate::text::same_chars(&piece, &uv) {
            return true;
        }
        i = i + 1;
    }
    assert forall|k: int| 0 <= k && k + m <= n implies #[trigger] s@.subrange(k, k + m) != sub@ by {
        assert(k < i);
    }
    false
}

/// The first line of `out`, trimmed (empty when there is none).
pub open spec fn first_line(out: Seq<char>) -> Seq<char> {
    let ls = lines(out);
    if ls.len() == 0 {
        Seq::empty()
    } else {
        trim(ls[0])
    }
}

/// The address text that `utmctl ip-address <name>` reported, from its trimmed output
/// `stdout` and `stderr` and whether it succeeded: the first line of the output; without
/// output, or when the error speaks of the guest agent, [`Error::GuestAgentUnavailable`];
/// otherwise an [`Error::Utmctl`].
pub fn ip_address_text(name: &str, stdout: &str, stderr: &str, success: bool) -> (r: Result<
    String,
    Error,
>)
    ensures
        success && stdout@.len() > 0 ==> (r matches Ok(t) && t@ == first_line(stdout@)),
        !(success && stdout@.len() > 0) && (contains_text(lowercase(stderr@), "guest agent"@)
            || stdout@.len() == 0) ==> (r matches Err(Error::GuestAgentUnavailable(n)) && n@
            == name@),
        !(success && stdout@.len() > 0) && !(contains_text(lowercase(stderr@), "guest agent"@)
            || stdout@.len() == 0) ==> (r matches Err(Error::Utmctl(m)) && m@
            == "ip-address failed: "@ + (if stderr@.len() == 0 {
            stdout@
        } else {
            stderr@
        })),
{
    if !success || stdout.is_empty() {
        let lower = to_lowercase(stderr);
        if contains_str(lower.as_str(), "guest agent") || stdout.is_empty() {
            return Err(Error::GuestAgentUnavailable(name.to_owned()));
        }
        let mut m = String::new();
        m.append("ip-address failed: ");
        if stderr.is_empty() {
            m.append(stdout);
        } else {
            m.append(stderr);
        }
        return Err(Error::Utmctl(m));
    }
    let v = chars_of(stdout);
    let ls = lines_of(&v);
    if ls.len() == 0 {
        assert(first_line(stdout@) =~= Seq::<char>::empty());
        return Ok(String::new());
    }
    assert(ls.deep_view()[0] == ls@[0]@);
    let t = trim_vec(&ls[0]);
    Ok(string_of(t.as_slice()))
}

/// The error for address text `raw` that is not an IP address.
pub fn ip_parse_error(raw: &str) -> (r: Error)
    ensures
        r matches Error::Other(m) && m@ == "could not parse IP '"@ + raw@ + "'"@,
{
    let mut m = String::new();
    m.append("could not parse IP '");
    m.append(raw);
    m.append("'");
    Error::Other(m)
}

/// The next move of a polling loop.
#[derive(Clone, Copy, Debug, PartialEq, Eq, Structural)]
pub enum Poll {
    /// The awaited state is reached.
    Done,
    /// Not yet: wait one interval and poll again.
    Retry,
    /// The deadline has passed.
    TimedOut,
}

/// One round of waiting for a status: reached when `current` is `target`, else timed out
/// once the deadline has passed, else poll again.
pub fn status_poll(current: &VmStatus, target: &VmStatus, deadline_passed: bool) -> (r: Poll)
    ensures
        current@ == target@ ==> r == Poll::Done,
        current@ != target@ && deadline_passed ==> r == Poll::TimedOut,
        current@ != target@ && !deadline_passed ==> r == Poll::Retry,
{
    if current.same_as(target) {
        Poll::Done
    } else if deadline_passed {
        Poll::TimedOut
    } else {
        Poll::Retry
    }
}

/// One round of waiting for an address: done when one was read, else poll again while
/// the deadline is ahead, else timed out.
pub fn ip_poll(got_address: bool, before_deadline: bool) -> (r: Poll)
    ensures
        got_address ==> r == Poll::Done,
        !got_address && before_deadline ==> r == Poll::Retry,
        !got_address && !before_deadline ==> r == Poll::TimedOut,
{
    if got_address {
        Poll::Done
    } else if before_deadline {
        Poll::Retry
    } else {
        Poll::TimedOut
    }
}

/// The error when no address of VM `name` appeared in time.
pub fn ip_timeout_error(name: &str) -> (r: Error)
    ensures
        r matches Error::Timeout(m) && m@ == "timed out waiting for IP address of '"@ + name@
            + "'"@,
{
    let mut m = String::new();
    m.append("timed out waiting for IP address of '");
    m.append(name);
    m.append("'");
    Error::Timeout(m)
}


/// Law: the script that `create` sends is the script of the same configuration with no
/// port forwards, so it never carries a port-forward record.
pub proof fn law_creation_script_without_forwards(c: VmConfig, cleared: VmConfig)
    requires
        cleared == (VmConfig { port_forwards: cleared.port_forwards, ..c }),
        cleared.port_forwards@.len() == 0,
    ensures
        script_text(c, false) == create_script(cleared),
        !script_has_port_forward(cleared),
{
}


/// The port forward that `create` writes into `config.plist` after creating the VM: the
/// first one, if any.
pub fn follow_up_port_forward(config: &VmConfig) -> (r: Option<&PortForward>)
    ensures
        config.port_forwards@.len() == 0 ==> r is None,
        config.port_forwards@.len() > 0 ==> r == Some(&config.port_forwards@[0]),
{
    if config.port_forwards.len() == 0 {
        None
    } else {
        Some(&config.port_forwards[0])
    }
}

/// The result of an edit made while UTM was quit: a failure to relaunch UTM wins,
/// otherwise the edit's own result.
pub fn restart_result(edited: Result<(), Error>, relaunched: Result<(), Error>) -> (r: Result<
    (),
    Error,
>)
    ensures
        relaunched is Err ==> r == relaunched,
        relaunched is Ok ==> r == edited,
{
    match relaunched {
        Err(e) => Err(e),
        Ok(()) => edited,
    }
}

/// The ISO images among `ds`, in order.
pub open spec fn iso_images(ds: Seq<DriveConfig>) -> Seq<Seq<char>>
    decreases ds.len(),
{
    if ds.len() == 0 {
        Seq::empty()
    } else {
        match ds.last().iso_path {
            Some(p) => iso_images(ds.drop_last()).push(p@),
            None => iso_images(ds.drop_last()),
        }
    }
}

/// The ISO images of `drives`, in order: what the fix-up after creation copies into the
/// bundle.
pub fn cdrom_images(drives: &[DriveConfig]) -> (r: Vec<&str>)
    ensures
        r@.map_values(|p: &str| p@) == iso_images(drives@),
{
    let mut r: Vec<&str> = Vec::new();
    let mut i: usize = 0;
    assert(drives@.take(0) =~= Seq::<DriveConfig>::empty());
    while i < drives.len()
        invariant
            i <= drives@.len(),
            r@.map_values(|p: &str| p@) =~= iso_images(drives@.take(i as int)),
        decreases drives@.len() - i,
    {
        let ghost t = drives@.take(i + 1);
        assert(t.drop_last() =~= drives@.take(i as int));
        assert(t.last() == drives@[i as int]);
        match &drives[i].iso_path {
            Some(p) => {
                let ghost before = r@.map_values(|p: &str| p@);
                r.push(p.as_str());
                assert(r@.map_values(|p: &str| p@) =~= before.push(p@));
            },
            None => {},
        }
        i = i + 1;
    }
    assert(drives@.take(drives@.len() as int) =~= drives@);
    r
}


/// A text occurs in any text built around it.
pub proof fn lemma_contains_middle(a: Seq<char>, x: Seq<char>, b: Seq<char>)
    ensures
        contains_text(a + x + b, x),
{
    let i = a.len() as int;
    assert((a + x + b).subrange(i, i + x.len()) =~= x);
}

/// The opening of the creation script, up to the configuration record's first field.
#[verifier::opaque]
spec fn script_head(c: VmConfig) -> Seq<char> {
    "tell application \"UTM\"\n"@ + drives_decls(c.drives@)
        + "    make new virtual machine with properties {backend:qemu, configuration:{"@
}

/// The name field of the configuration record.
#[verifier::opaque]
spec fn name_field(c: VmConfig) -> Seq<char> {
    "name:\""@ + c.name@ + "\", "@
}

/// The architecture, memory and CPU fields of the configuration record.
#[verifier::opaque]
spec fn machine_fields(c: VmConfig) -> Seq<char> {
    "architecture:\""@ + architecture_name(c.architecture) + "\", "@ + "memory:"@ + decimal(
        c.memory_mb as nat,
    ) + ", "@ + "cpu cores:"@ + decimal(c.cpu_count as nat) + ", "@
}

/// The hypervisor field, when asked for.
#[verifier::opaque]
spec fn hypervisor_field(c: VmConfig) -> Seq<char> {
    if c.hypervisor {
        "hypervisor:true, "@
    } else {
        Seq::empty()
    }
}

/// The drives field of the configuration record.
#[verifier::opaque]
spec fn drives_field(c: VmConfig) -> Seq<char> {
    "drives:{"@ + drives_records(c.drives@) + "}, "@
}

/// The network field, the end of the records and the end of the script.
#[verifier::opaque]
spec fn network_field(c: VmConfig) -> Seq<char> {
    "network interfaces:{{"@ + interface_fields(c, true) + "}}\n"@
}

/// The creation script, cut into its fields.
proof fn lemma_script_parts(c: VmConfig)
    ensures
        create_script(c) == script_head(c) + name_field(c) + notes_field(c) + machine_fields(c)
            + hypervisor_field(c) + drives_field(c) + network_field(c) + "end tell\n"@,
{
    broadcast use lemma_concat_assoc;

    reveal(script_head);
    reveal(name_field);
    reveal(machine_fields);
    reveal(hypervisor_field);
    reveal(drives_field);
    reveal(network_field);
}

/// Concatenation is associative.
pub broadcast proof fn lemma_concat_assoc(a: Seq<char>, b: Seq<char>, c: Seq<char>)
    ensures
        #[trigger] (a + (b + c)) == (a + b) + c,
{
    assert(a + (b + c) =~= (a + b) + c);
}

/// Law: the creation script carries the VM's name; its architecture, memory and CPU
/// count; the hypervisor flag when asked for; the notes when there are some; and either
/// the first port forward (emulated mode with forwards) or the bare network mode.
pub proof fn law_create_script_fields(c: VmConfig)
    ensures
        contains_text(create_script(c), "name:\""@ + c.name@ + "\", "@),
        contains_text(
            create_script(c),
            "architecture:\""@ + architecture_name(c.architecture) + "\", "@ + "memory:"@
                + decimal(c.memory_mb as nat) + ", "@ + "cpu cores:"@ + decimal(
                c.cpu_count as nat,
            ) + ", "@,
        ),
        c.hypervisor ==> contains_text(create_script(c), "hypervisor:true, "@),
        c.notes matches Some(n) ==> contains_text(create_script(c), "notes:\""@ + n@ + "\", "@),
        script_has_port_forward(c) ==> contains_text(
            create_script(c),
            "mode:"@ + mode_applescript_name(c.network_mode) + ", port forwards:{{protocol:"@
                + c.port_forwards@[0].protocol@ + ", host port:"@ + decimal(
                c.port_forwards@[0].host_port as nat,
            ) + ", guest port:"@ + decimal(c.port_forwards@[0].guest_port as nat) + "}}}}"@
                + "}}\n"@,
        ),
        !script_has_port_forward(c) ==> contains_text(
            create_script(c),
            "network interfaces:{{"@ + "mode:"@ + mode_applescript_name(c.network_mode) + "}}"@
                + "}}\n"@,
        ),
{
    lemma_script_parts(c);
    let h = script_head(c);
    let n = name_field(c);
    let o = notes_field(c);
    let m = machine_fields(c);
    let y = hypervisor_field(c);
    let d = drives_field(c);
    let w = network_field(c);
    let t = "end tell\n"@;
    let script = create_script(c);
    assert(script == h + n + o + m + y + d + w + t);
    assert(n == "name:\""@ + c.name@ + "\", "@) by {
        reveal(name_field);
    }
    assert(m == "architecture:\""@ + architecture_name(c.architecture) + "\", "@ + "memory:"@
        + decimal(c.memory_mb as nat) + ", "@ + "cpu cores:"@ + decimal(c.cpu_count as nat)
        + ", "@) by {
        reveal(machine_fields);
    }
    assert(c.hypervisor ==> y == "hypervisor:true, "@) by {
        reveal(hypervisor_field);
    }
    assert(h + n + o + m + y + d + w + t =~= h + n + (o + m + y + d + w + t));
    lemma_contains_middle(h, n, o + m + y + d + w + t);
    assert(h + n + o + m + y + d + w + t =~= (h + n + o) + m + (y + d + w + t));
    lemma_contains_middle(h + n + o, m, y + d + w + t);
    if c.hypervisor {
        assert(h + n + o + m + y + d + w + t =~= (h + n + o + m) + y + (d + w + t));
        lemma_contains_middle(h + n + o + m, y, d + w + t);
    }
    if c.notes is Some {
        assert(h + n + o + m + y + d + w + t =~= (h + n) + o + (m + y + d + w + t));
        lemma_contains_middle(h + n, o, m + y + d + w + t);
    }
    let before = h + n + o + m + y + d;
    if script_has_port_forward(c) {
        let x = interface_fields(c, true) + "}}\n"@;
        assert(w =~= "network interfaces:{{"@ + x) by {
            reveal(network_field);
        }
        assert(h + n + o + m + y + d + w + t =~= (before + "network interfaces:{{"@) + x + t);
        lemma_contains_middle(before + "network interfaces:{{"@, x, t);
    } else {
        assert(w =~= "network interfaces:{{"@ + "mode:"@ + mode_applescript_name(c.network_mode)
            + "}}"@ + "}}\n"@) by {
            reveal(network_field);
        }
        assert(h + n + o + m + y + d + w + t =~= before + w + t);
        lemma_contains_middle(before, w, t);
    }
}


/// At most one VM per row.
proof fn lemma_list_rows_len(ls: Seq<Seq<char>>)
    ensures
        list_rows(ls).len() <= ls.len(),
    decreases ls.len(),
{
    if ls.len() > 0 {
        lemma_list_rows_len(ls.drop_last());
    }
}

/// Law: the VMs listed come from the lines after the header, at most one per line, so
/// there are fewer VMs than lines (and none without lines).
pub proof fn law_list_output_len(raw: Seq<char>)
    ensures
        list_output(raw).len() == 0 || list_output(raw).len() < lines(raw).len(),
{
    let ls = lines(raw);
    if ls.len() > 0 {
        lemma_list_rows_len(ls.drop_first());
    }
}

/// The records of the drives, one per drive, by position.
pub open spec fn drive_records_each(ds: Seq<DriveConfig>) -> Seq<Seq<char>> {
    Seq::new(ds.len(), |i: int| drive_record(i as nat, ds[i]))
}

/// Law: the drives expression is the drives' records, in order, joined by `", "`.
pub proof fn law_drive_records_joined(ds: Seq<DriveConfig>)
    ensures
        drives_records(ds) == join(drive_records_each(ds), ", "@),
    decreases ds.len(),
{
    if ds.len() > 0 {
        law_drive_records_joined(ds.drop_last());
        let e = drive_records_each(ds);
        assert(e.drop_last() =~= drive_records_each(ds.drop_last()));
        if ds.len() == 1 {
            assert(e[0] == drive_record(0, ds[0]));
        }
    }
}

/// Whether a row of `utmctl list` output describes a VM: it is not blank and is well formed.
pub open spec fn is_vm_row(l: Seq<char>) -> bool {
    trim(l).len() > 0 && list_row(l) is Some
}

/// The VMs of the rows `ls` are their VM rows, each read, in order.
proof fn lemma_list_rows_filter(ls: Seq<Seq<char>>)
    ensures
        list_rows(ls) == ls.filter(|l: Seq<char>| is_vm_row(l)).map_values(
            |l: Seq<char>| list_row(l).unwrap(),
        ),
    decreases ls.len(),
{
    reveal(Seq::filter);
    let f = |l: Seq<char>| is_vm_row(l);
    let g = |l: Seq<char>| list_row(l).unwrap();
    if ls.len() == 0 {
        assert(ls.filter(f) =~= Seq::<Seq<char>>::empty());
        assert(ls.filter(f).map_values(g) =~= Seq::<VmInfoView>::empty());
    } else {
        lemma_list_rows_filter(ls.drop_last());
        let sub = ls.drop_last().filter(f);
        if f(ls.last()) {
            assert(ls.filter(f) == sub.push(ls.last()));
            assert(sub.push(ls.last()).map_values(g) =~= sub.map_values(g).push(g(ls.last())));
        } else {
            assert(ls.filter(f) == sub);
        }
    }
}

/// Law: the VMs listed are read from the rows after the header that describe a VM (not
/// blank and well formed), one per such row and in the order of the rows.
pub proof fn law_list_output_rows(raw: Seq<char>)
    ensures
        lines(raw).len() > 0 ==> list_output(raw) == lines(raw).drop_first().filter(
            |l: Seq<char>| is_vm_row(l),
        ).map_values(|l: Seq<char>| list_row(l).unwrap()),
        lines(raw).len() == 0 ==> list_output(raw).len() == 0,
{
    if lines(raw).len() > 0 {
        lemma_list_rows_filter(lines(raw).drop_first());
    }
}

/// Law: the record of a blank disk asks UTM for its size in megabytes: a run of digits
/// that reads back as the size in gigabytes times 1024 (20 GB when no size is given), for
/// every size, whatever drive number it has.
pub proof fn law_blank_disk_size(i: nat, d: DriveConfig)
    requires
        d.iso_path is None,
        d.image_path is None,
    ensures
        exists|t: Seq<char>|
            #![trigger is_digits(t)]
            is_digits(t) && digits_value(t) == (match d.size_gb {
                Some(g) => g as int * 1024,
                None => 20int * 1024,
            }) && drive_record(i, d) == "{guest size:"@ + t + "}"@,
{
    let t = decimal(drive_size_mb(d));
    law_decimal_reads_back(drive_size_mb(d));
    assert(is_digits(t));
}

} // verus!
