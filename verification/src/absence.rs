//! Which texts the creation script cannot hold: a text occurs in a concatenation only
//! inside one of its parts or across a seam, and the script's seams are quotes, braces and
//! line ends that the texts asked about never hold.

use vstd::prelude::*;
use crate::config::{architecture_name, mode_applescript_name, DriveConfig, PortForward, VmConfig};
use crate::manager::{
    contains_text, create_script, drive_decl, drive_record, drive_size_mb, drive_var, drives_decls,
    drives_records, interface_fields, law_create_script_fields, lemma_contains_middle,
    notes_field, script_has_port_forward,
};
use crate::text::{decimal, escape_quotes};

verus! {

/// Whether the character `ch` never occurs in `s`.
pub open spec fn char_free(s: Seq<char>, ch: char) -> bool {
    forall|i: int| 0 <= i < s.len() ==> s[i] != ch
}

/// A concatenation is free of a character exactly when both parts are.
pub broadcast proof fn lemma_char_free_concat(a: Seq<char>, b: Seq<char>, ch: char)
    ensures
        #[trigger] char_free(a + b, ch) == (char_free(a, ch) && char_free(b, ch)),
{
    let s = a + b;
    if char_free(a, ch) && char_free(b, ch) {
        assert forall|i: int| 0 <= i < s.len() implies s[i] != ch by {
            if i < a.len() {
                assert(s[i] == a[i]);
            } else {
                assert(s[i] == b[i - a.len()]);
            }
        }
    }
    if char_free(s, ch) {
        assert forall|i: int| 0 <= i < a.len() implies a[i] != ch by {
            assert(s[i] == a[i]);
        }
        assert forall|i: int| 0 <= i < b.len() implies b[i] != ch by {
            assert(s[i + a.len()] == b[i]);
        }
    }
}

/// A text with a character that `s` lacks does not occur in `s`.
pub proof fn lemma_absent_char(s: Seq<char>, x: Seq<char>, j: int)
    requires
        0 <= j < x.len(),
        char_free(s, x[j]),
    ensures
        !contains_text(s, x),
{
    if contains_text(s, x) {
        let i = choose|i: int|
            0 <= i && i + x.len() <= s.len() && #[trigger] s.subrange(i, i + x.len()) == x;
        assert(s.subrange(i, i + x.len())[j] == s[i + j]);
    }
}

/// A text longer than `s` does not occur in `s`.
pub proof fn lemma_absent_short(s: Seq<char>, x: Seq<char>)
    requires
        s.len() < x.len(),
    ensures
        !contains_text(s, x),
{
}

/// Whether the character `ch` occurs in `x` only where an occurrence of `x` that holds
/// it at position `k` from its start would still have room for all of `x` on that side:
/// no occurrence of `x` can cover the seam after a part that ends with `ch`.
pub open spec fn ends_seam(x: Seq<char>, ch: char, room: int) -> bool {
    forall|j: int| 0 <= j < x.len() - 1 && j < room ==> x[j] != ch
}

/// No occurrence of `x` can cover the seam before a part that starts with `ch`.
pub open spec fn starts_seam(x: Seq<char>, ch: char, room: int) -> bool {
    forall|j: int| 0 < j < x.len() && x.len() - j <= room ==> x[j] != ch
}

/// A text that occurs in neither part of a concatenation, and cannot cover the seam (the
/// first part ends, or the second starts, with a character that it holds nowhere such an
/// occurrence would need it), does not occur in the concatenation.
pub proof fn lemma_absent_concat(a: Seq<char>, b: Seq<char>, x: Seq<char>)
    requires
        !contains_text(a, x),
        !contains_text(b, x),
        (a.len() > 0 && ends_seam(x, a.last(), a.len() as int)) || (b.len() > 0 && starts_seam(
            x,
            b[0],
            b.len() as int,
        )),
    ensures
        !contains_text(a + b, x),
{
    let s = a + b;
    let n = x.len() as int;
    if contains_text(s, x) {
        let i = choose|i: int| 0 <= i && i + n <= s.len() && #[trigger] s.subrange(i, i + n) == x;
        if i + n <= a.len() {
            assert(a.subrange(i, i + n) =~= s.subrange(i, i + n));
        } else if i >= a.len() {
            assert(b.subrange(i - a.len(), i - a.len() + n) =~= s.subrange(i, i + n));
        } else {
            let j1 = a.len() - 1 - i;
            let j2 = a.len() - i;
            assert(s.subrange(i, i + n)[j1] == s[a.len() - 1]);
            assert(s.subrange(i, i + n)[j2] == s[a.len() as int]);
            assert(x[j1] == a.last());
            assert(x[j2] == b[0]);
        }
    }
}

/// A text that occurs in a part occurs in the whole.
pub proof fn lemma_contains_grow(a: Seq<char>, b: Seq<char>, x: Seq<char>)
    ensures
        contains_text(a, x) ==> contains_text(a + b, x),
        contains_text(b, x) ==> contains_text(a + b, x),
{
    let s = a + b;
    if contains_text(a, x) {
        let i = choose|i: int|
            0 <= i && i + x.len() <= a.len() && #[trigger] a.subrange(i, i + x.len()) == x;
        assert(s.subrange(i, i + x.len()) =~= a.subrange(i, i + x.len()));
    }
    if contains_text(b, x) {
        let i = choose|i: int|
            0 <= i && i + x.len() <= b.len() && #[trigger] b.subrange(i, i + x.len()) == x;
        assert(s.subrange(i + a.len(), i + a.len() + x.len()) =~= b.subrange(i, i + x.len()));
    }
}

/// Occurrence is transitive: what occurs in a part of `s` occurs in `s`.
pub proof fn lemma_contains_trans(s: Seq<char>, y: Seq<char>, x: Seq<char>)
    requires
        contains_text(s, y),
        contains_text(y, x),
    ensures
        contains_text(s, x),
{
    let i = choose|i: int| 0 <= i && i + y.len() <= s.len() && #[trigger] s.subrange(i, i + y.len()) == y;
    let k = choose|k: int| 0 <= k && k + x.len() <= y.len() && #[trigger] y.subrange(k, k + x.len()) == x;
    assert(s.subrange(i + k, i + k + x.len()) =~= y.subrange(k, k + x.len()));
}

/// Whether `x` is a nonempty text without quotes, backslashes, braces or line ends: the
/// characters at the seams of the creation script.
pub open spec fn seam_free(x: Seq<char>) -> bool {
    &&& x.len() > 0
    &&& char_free(x, '"')
    &&& char_free(x, '\\')
    &&& char_free(x, '{')
    &&& char_free(x, '}')
    &&& char_free(x, '\n')
}

/// Escaping the quotes of a text, before a quote-free tail, makes no new occurrence of a
/// text without quotes or backslashes.
pub proof fn lemma_escape_absent(p: Seq<char>, t: Seq<char>, x: Seq<char>)
    requires
        seam_free(x),
        char_free(t, '"'),
        !contains_text(p + t, x),
    ensures
        !contains_text(escape_quotes(p) + t, x),
    decreases p.len(),
{
    if p.len() == 0 {
        assert(escape_quotes(p) + t =~= p + t);
    } else {
        let q = p.drop_last();
        let ch = p.last();
        if ch == '"' {
            let e = seq!['\\', '"'];
            assert(p + t =~= q + (seq!['"'] + t));
            lemma_contains_grow(q, seq!['"'] + t, x);
            lemma_contains_grow(seq!['"'], t, x);
            assert(q + Seq::<char>::empty() =~= q);
            lemma_escape_absent(q, Seq::<char>::empty(), x);
            assert(escape_quotes(q) + Seq::<char>::empty() =~= escape_quotes(q));
            lemma_absent_char(e, x, 0);
            lemma_absent_concat(escape_quotes(q), e, x);
            lemma_absent_concat(escape_quotes(q) + e, t, x);
            assert(escape_quotes(p) + t =~= escape_quotes(q) + e + t);
        } else {
            let t2 = seq![ch] + t;
            assert(p + t =~= q + t2);
            assert(char_free(t2, '"')) by {
                assert forall|i: int| 0 <= i < t2.len() implies t2[i] != '"' by {
                    if i > 0 {
                        assert(t2[i] == t[i - 1]);
                    }
                }
            }
            lemma_escape_absent(q, t2, x);
            assert(escape_quotes(p) + t =~= escape_quotes(q) + t2);
        }
    }
}

/// Decimal text holds no character but digits.
pub proof fn lemma_decimal_char_free(n: nat, ch: char)
    requires
        ch < '0' || '9' < ch,
    ensures
        char_free(decimal(n), ch),
    decreases n,
{
    if n >= 10 {
        lemma_decimal_char_free(n / 10, ch);
    }
}

/// The drives' records hold a character only if one of their fixed texts does.
pub proof fn lemma_records_char_free(ds: Seq<DriveConfig>, ch: char)
    requires
        ch < '0' || '9' < ch,
        char_free("{removable:true, source:"@, ch),
        char_free("{source:"@, ch),
        char_free("{guest size:"@, ch),
        char_free("}"@, ch),
        char_free(", "@, ch),
        char_free("drive"@, ch),
    ensures
        char_free(drives_records(ds), ch),
    decreases ds.len(),
{
    broadcast use lemma_char_free_concat;

    if ds.len() > 0 {
        let i = (ds.len() - 1) as nat;
        lemma_decimal_char_free(i + 1, ch);
        lemma_decimal_char_free(drive_size_mb(ds.last()), ch);
        lemma_decimal_char_free(1, ch);
        assert(char_free(drive_var(i), ch));
        assert(char_free(drive_record(i, ds.last()), ch));
        assert(char_free(drive_record(0, ds[0]), ch)) by {
            lemma_decimal_char_free(drive_size_mb(ds[0]), ch);
            assert(char_free(drive_var(0), ch));
        }
        if ds.len() > 1 {
            lemma_records_char_free(ds.drop_last(), ch);
        }
    }
}

/// Whether neither file path of a drive holds the text `x`.
pub open spec fn drive_paths_free_of(d: DriveConfig, x: Seq<char>) -> bool {
    &&& d.iso_path matches Some(p) ==> !contains_text(p@, x)
    &&& d.image_path matches Some(p) ==> !contains_text(p@, x)
}

/// The line that binds a drive's file holds no seam-free text with a colon that its
/// path does not hold, and ends a line.
proof fn lemma_decl_absent(i: nat, d: DriveConfig, x: Seq<char>, j: int)
    requires
        seam_free(x),
        0 <= j < x.len(),
        x[j] == ':',
        drive_paths_free_of(d, x),
    ensures
        !contains_text(drive_decl(i, d), x),
        drive_decl(i, d).len() == 0 || drive_decl(i, d).last() == '\n',
{
    broadcast use lemma_char_free_concat;

    let p: Seq<char> = match d.iso_path {
        Some(q) => q@,
        None => match d.image_path {
            Some(q) => q@,
            None => Seq::empty(),
        },
    };
    if d.iso_path.is_some() || d.image_path.is_some() {
        reveal_strlit("    set ");
        reveal_strlit(" to POSIX file \"");
        reveal_strlit("\"\n");
        reveal_strlit("drive");
        lemma_decimal_char_free(i + 1, ':');
        let g = "    set "@ + drive_var(i) + " to POSIX file \""@;
        assert(char_free(g, ':'));
        lemma_absent_char(g, x, j);
        assert(p + Seq::<char>::empty() =~= p);
        lemma_escape_absent(p, Seq::<char>::empty(), x);
        assert(escape_quotes(p) + Seq::<char>::empty() =~= escape_quotes(p));
        assert(g.last() == '"');
        lemma_absent_concat(g, escape_quotes(p), x);
        lemma_absent_char("\"\n"@, x, j);
        lemma_absent_concat(g + escape_quotes(p), "\"\n"@, x);
        assert(drive_decl(i, d) == g + escape_quotes(p) + "\"\n"@);
    } else {
        assert(drive_decl(i, d).len() == 0);
        lemma_absent_short(drive_decl(i, d), x);
    }
}

/// The drives' lines hold no seam-free text with a colon that their paths do not hold,
/// and end a line.
pub proof fn lemma_decls_absent(ds: Seq<DriveConfig>, x: Seq<char>, j: int)
    requires
        seam_free(x),
        0 <= j < x.len(),
        x[j] == ':',
        forall|k: int| 0 <= k < ds.len() ==> drive_paths_free_of(#[trigger] ds[k], x),
    ensures
        !contains_text(drives_decls(ds), x),
        drives_decls(ds).len() == 0 || drives_decls(ds).last() == '\n',
    decreases ds.len(),
{
    if ds.len() == 0 {
        lemma_absent_short(drives_decls(ds), x);
    } else {
        let q = ds.drop_last();
        assert forall|k: int| 0 <= k < q.len() implies drive_paths_free_of(#[trigger] q[k], x) by {
            assert(q[k] == ds[k]);
        }
        lemma_decls_absent(q, x, j);
        let i = (ds.len() - 1) as nat;
        assert(drive_paths_free_of(ds[ds.len() - 1], x));
        lemma_decl_absent(i, ds.last(), x, j);
        let a = drives_decls(q);
        let b = drive_decl(i, ds.last());
        if b.len() == 0 {
            assert(a + b =~= a);
        } else if a.len() == 0 {
            assert(a + b =~= b);
        } else {
            lemma_absent_concat(a, b, x);
        }
    }
}

/// Whether the texts that a configuration's user supplies (its name, its notes, its drives'
/// paths) all lack the text `x`.
pub open spec fn texts_free_of(c: VmConfig, x: Seq<char>) -> bool {
    &&& !contains_text(c.name@, x)
    &&& c.notes matches Some(n) ==> !contains_text(n@, x)
    &&& forall|k: int| 0 <= k < c.drives@.len() ==> drive_paths_free_of(#[trigger] c.drives@[k], x)
}

/// The configuration record's fields from the architecture to the drives, the hypervisor
/// field included when asked for.
pub open spec fn machine_to_drives(c: VmConfig) -> Seq<char> {
    "\", "@ + "architecture:\""@ + architecture_name(c.architecture) + "\", "@ + "memory:"@
        + decimal(c.memory_mb as nat) + ", "@ + "cpu cores:"@ + decimal(c.cpu_count as nat)
        + ", "@ + (if c.hypervisor {
        "hypervisor:true, "@
    } else {
        Seq::empty()
    }) + "drives:{"@ + drives_records(c.drives@) + "}, "@
}

/// The fields from the architecture to the drives hold no `w`.
proof fn lemma_machine_to_drives_w(c: VmConfig)
    ensures
        char_free(machine_to_drives(c), 'w'),
{
    broadcast use lemma_char_free_concat;

    reveal_strlit("\", ");
    reveal_strlit("architecture:\"");
    reveal_strlit("aarch64");
    reveal_strlit("x86_64");
    reveal_strlit("memory:");
    reveal_strlit(", ");
    reveal_strlit("cpu cores:");
    reveal_strlit("hypervisor:true, ");
    reveal_strlit("drives:{");
    reveal_strlit("}, ");
    reveal_strlit("{removable:true, source:");
    reveal_strlit("{source:");
    reveal_strlit("{guest size:");
    reveal_strlit("}");
    reveal_strlit("drive");
    lemma_decimal_char_free(c.memory_mb as nat, 'w');
    lemma_decimal_char_free(c.cpu_count as nat, 'w');
    lemma_records_char_free(c.drives@, 'w');
    assert(char_free(Seq::<char>::empty(), 'w'));
}

/// The creation script, cut at the seams around the user's texts.
proof fn lemma_script_seams(c: VmConfig)
    ensures
        create_script(c) == "tell application \"UTM\"\n"@ + drives_decls(c.drives@)
            + "    make new virtual machine with properties "@ + ("{backend:qemu, configuration:{"@
            + "name:\""@) + c.name@ + (match c.notes {
            Some(n) => ("\", "@ + "notes:\""@) + n@,
            None => Seq::empty(),
        }) + machine_to_drives(c) + "network interfaces:{{"@ + (interface_fields(c, true)
            + "}}\n"@ + "end tell\n"@),
{
    broadcast use crate::manager::lemma_concat_assoc;

    reveal_strlit("    make new virtual machine with properties {backend:qemu, configuration:{");
    reveal_strlit("    make new virtual machine with properties ");
    reveal_strlit("{backend:qemu, configuration:{");
    assert("    make new virtual machine with properties {backend:qemu, configuration:{"@
        =~= "    make new virtual machine with properties "@ + "{backend:qemu, configuration:{"@);
    assert("\", "@ + notes_field(c) + "architecture:\""@ =~= (match c.notes {
        Some(n) => ("\", "@ + "notes:\""@) + n@,
        None => Seq::empty(),
    }) + ("\", "@ + "architecture:\""@));
    assert(create_script(c) == "tell application \"UTM\"\n"@ + drives_decls(c.drives@)
        + "    make new virtual machine with properties "@ + ("{backend:qemu, configuration:{"@
        + "name:\""@) + c.name@ + (match c.notes {
        Some(n) => ("\", "@ + "notes:\""@) + n@,
        None => Seq::empty(),
    }) + machine_to_drives(c) + "network interfaces:{{"@ + (interface_fields(c, true)
        + "}}\n"@ + "end tell\n"@));
}

/// Law: the creation script mentions port forwards exactly when it carries the first
/// port forward (emulated mode with at least one forward), provided the user's texts do
/// not themselves hold `port forwards:`; otherwise its network interface is the bare mode.
pub proof fn law_port_forward_text(c: VmConfig)
    requires
        texts_free_of(c, "port forwards:"@),
    ensures
        contains_text(create_script(c), "port forwards:"@) <==> script_has_port_forward(c),
        !script_has_port_forward(c) ==> contains_text(
            create_script(c),
            "{{mode:"@ + mode_applescript_name(c.network_mode) + "}}}}\n"@,
        ),
{
    broadcast use lemma_char_free_concat;

    let x = "port forwards:"@;
    reveal_strlit("port forwards:");
    law_create_script_fields(c);
    let mode = mode_applescript_name(c.network_mode);
    if script_has_port_forward(c) {
        let pf = c.port_forwards@[0];
        reveal_strlit(", port forwards:{{protocol:");
        reveal_strlit(", ");
        reveal_strlit("{{protocol:");
        let rest = "{{protocol:"@ + pf.protocol@ + ", host port:"@ + decimal(pf.host_port as nat)
            + ", guest port:"@ + decimal(pf.guest_port as nat) + "}}}}"@ + "}}\n"@;
        let y = "mode:"@ + mode + ", port forwards:{{protocol:"@ + pf.protocol@ + ", host port:"@
            + decimal(pf.host_port as nat) + ", guest port:"@ + decimal(pf.guest_port as nat)
            + "}}}}"@ + "}}\n"@;
        assert(y =~= ("mode:"@ + mode + ", "@) + x + rest);
        lemma_contains_middle("mode:"@ + mode + ", "@, x, rest);
        lemma_contains_trans(create_script(c), y, x);
    } else {
        reveal_strlit("network interfaces:{{");
        reveal_strlit("network interfaces:");
        reveal_strlit("{{mode:");
        reveal_strlit("mode:");
        reveal_strlit("}}");
        reveal_strlit("}}\n");
        reveal_strlit("}}}}\n");
        let tailx = "{{mode:"@ + mode + "}}}}\n"@;
        let z = "network interfaces:{{"@ + "mode:"@ + mode + "}}"@ + "}}\n"@;
        assert(z =~= "network interfaces:"@ + tailx + Seq::<char>::empty());
        lemma_contains_middle("network interfaces:"@, tailx, Seq::<char>::empty());
        lemma_contains_trans(create_script(c), z, tailx);
        lemma_no_port_forward_text(c);
    }
}

/// Without a port forward written, the creation script holds no `port forwards:` that the
/// user's texts do not.
proof fn lemma_no_port_forward_text(c: VmConfig)
    requires
        texts_free_of(c, "port forwards:"@),
        !script_has_port_forward(c),
    ensures
        !contains_text(create_script(c), "port forwards:"@),
{
    broadcast use lemma_char_free_concat;

    let x = "port forwards:"@;
    reveal_strlit("port forwards:");
    assert(seam_free(x));
    assert(x[8] == 'w' && x[13] == ':' && x[0] == 'p');
    lemma_script_seams(c);
    let l0 = "tell application \"UTM\"\n"@;
    reveal_strlit("tell application \"UTM\"\n");
    lemma_absent_char(l0, x, 8);
    let d = drives_decls(c.drives@);
    lemma_decls_absent(c.drives@, x, 13);
    assert(l0.last() == '\n');
    lemma_absent_concat(l0, d, x);
    let s2 = l0 + d;
    assert(s2.last() == '\n');
    let p1 = "    make new virtual machine with properties "@;
    reveal_strlit("    make new virtual machine with properties ");
    lemma_absent_char(p1, x, 13);
    lemma_absent_concat(s2, p1, x);
    let s3 = s2 + p1;
    let q = "{backend:qemu, configuration:{"@ + "name:\""@;
    reveal_strlit("{backend:qemu, configuration:{");
    reveal_strlit("name:\"");
    lemma_absent_char(q, x, 8);
    lemma_absent_concat(s3, q, x);
    let s4 = s3 + q;
    assert(s4.last() == '"');
    lemma_absent_concat(s4, c.name@, x);
    let s5 = s4 + c.name@;
    let o: Seq<char> = match c.notes {
        Some(n) => ("\", "@ + "notes:\""@) + n@,
        None => Seq::empty(),
    };
    reveal_strlit("\", ");
    reveal_strlit("notes:\"");
    if c.notes is Some {
        let n = c.notes->0;
        let e = "\", "@ + "notes:\""@;
        lemma_absent_char(e, x, 8);
        lemma_absent_concat(s5, e, x);
        assert((s5 + e).last() == '"');
        lemma_absent_concat(s5 + e, n@, x);
        assert(s5 + o =~= s5 + e + n@);
    } else {
        assert(s5 + o =~= s5);
    }
    let s6 = s5 + o;
    let m = machine_to_drives(c);
    lemma_machine_to_drives_w(c);
    lemma_absent_char(m, x, 8);
    assert(m[0] == '"');
    lemma_absent_concat(s6, m, x);
    let s7 = s6 + m;
    let ni = "network interfaces:{{"@;
    reveal_strlit("network interfaces:{{");
    lemma_absent_char(ni, x, 0);
    assert(starts_seam(x, 'n', ni.len() as int));
    lemma_absent_concat(s7, ni, x);
    let s8 = s7 + ni;
    let u = interface_fields(c, true) + "}}\n"@ + "end tell\n"@;
    reveal_strlit("mode:");
    reveal_strlit("bridged");
    reveal_strlit("shared");
    reveal_strlit("host only");
    reveal_strlit("emulated");
    reveal_strlit("}}");
    reveal_strlit("}}\n");
    reveal_strlit("end tell\n");
    assert(char_free(u, 'w'));
    lemma_absent_char(u, x, 8);
    assert(s8.last() == '{');
    lemma_absent_concat(s8, u, x);
}

/// The fields from the architecture to the drives hold no `n`.
proof fn lemma_machine_to_drives_n(c: VmConfig)
    ensures
        char_free(machine_to_drives(c), 'n'),
{
    broadcast use lemma_char_free_concat;

    reveal_strlit("\", ");
    reveal_strlit("architecture:\"");
    reveal_strlit("aarch64");
    reveal_strlit("x86_64");
    reveal_strlit("memory:");
    reveal_strlit(", ");
    reveal_strlit("cpu cores:");
    reveal_strlit("hypervisor:true, ");
    reveal_strlit("drives:{");
    reveal_strlit("}, ");
    reveal_strlit("{removable:true, source:");
    reveal_strlit("{source:");
    reveal_strlit("{guest size:");
    reveal_strlit("}");
    reveal_strlit("drive");
    lemma_decimal_char_free(c.memory_mb as nat, 'n');
    lemma_decimal_char_free(c.cpu_count as nat, 'n');
    lemma_records_char_free(c.drives@, 'n');
    assert(char_free(Seq::<char>::empty(), 'n'));
}

/// Law: the creation script has a `notes:` field exactly when the configuration has notes,
/// provided the user's texts (and the protocol of a port forward that is written) do not
/// themselves hold `notes:`.
pub proof fn law_notes_text(c: VmConfig)
    requires
        texts_free_of(c, "notes:"@),
        script_has_port_forward(c) ==> !contains_text(c.port_forwards@[0].protocol@, "notes:"@),
    ensures
        contains_text(create_script(c), "notes:"@) <==> c.notes is Some,
{
    let x = "notes:"@;
    reveal_strlit("notes:");
    if c.notes is Some {
        let n = c.notes->0;
        law_create_script_fields(c);
        reveal_strlit("notes:\"");
        reveal_strlit("\"");
        let y = "notes:\""@ + n@ + "\", "@;
        assert(y =~= Seq::<char>::empty() + x + ("\""@ + n@ + "\", "@));
        lemma_contains_middle(Seq::<char>::empty(), x, "\""@ + n@ + "\", "@);
        lemma_contains_trans(create_script(c), y, x);
    } else {
        lemma_no_notes_text(c);
    }
}

/// The network interface record and the end of the script hold no `notes:` that a
/// written forward's protocol does not.
proof fn lemma_notes_tail(c: VmConfig)
    requires
        script_has_port_forward(c) ==> !contains_text(c.port_forwards@[0].protocol@, "notes:"@),
    ensures
        !contains_text(interface_fields(c, true) + "}}\n"@ + "end tell\n"@, "notes:"@),
{
    broadcast use lemma_char_free_concat;

    let x = "notes:"@;
    reveal_strlit("notes:");
    assert(seam_free(x));
    assert(x[0] == 'n' && x[5] == ':');
    let u = interface_fields(c, true) + "}}\n"@ + "end tell\n"@;
    reveal_strlit("mode:");
    reveal_strlit("bridged");
    reveal_strlit("shared");
    reveal_strlit("host only");
    reveal_strlit("emulated");
    reveal_strlit("}}");
    reveal_strlit("}}\n");
    reveal_strlit("end tell\n");
    let mode = mode_applescript_name(c.network_mode);
    lemma_absent_short("mode:"@, x);
    if script_has_port_forward(c) {
        let pf = c.port_forwards@[0];
        reveal_strlit(", port forwards:{{protocol:");
        reveal_strlit(", host port:");
        reveal_strlit(", guest port:");
        reveal_strlit("}}}}");
        let a1 = mode + ", port forwards:{{protocol:"@;
        assert(char_free(a1, 'n'));
        lemma_absent_char(a1, x, 0);
        lemma_absent_concat("mode:"@, a1, x);
        let a2 = "mode:"@ + a1;
        assert(a2.last() == ':');
        lemma_absent_concat(a2, pf.protocol@, x);
        let a3 = a2 + pf.protocol@;
        lemma_decimal_char_free(pf.host_port as nat, 'n');
        lemma_decimal_char_free(pf.guest_port as nat, 'n');
        let b1 = ", host port:"@ + decimal(pf.host_port as nat) + ", guest port:"@ + decimal(
            pf.guest_port as nat,
        ) + "}}}}"@ + "}}\n"@;
        assert(char_free(b1, 'n'));
        lemma_absent_char(b1, x, 0);
        assert(b1[0] == ',');
        lemma_absent_concat(a3, b1, x);
        lemma_absent_char("end tell\n"@, x, 5);
        assert((a3 + b1).last() == '\n');
        lemma_absent_concat(a3 + b1, "end tell\n"@, x);
        assert(u =~= a3 + b1 + "end tell\n"@);
    } else {
        let r = mode + "}}"@ + "}}\n"@ + "end tell\n"@;
        assert(char_free(r, ':'));
        lemma_absent_char(r, x, 5);
        lemma_absent_concat("mode:"@, r, x);
        assert(u =~= "mode:"@ + r);
    }
}

/// Without notes, the creation script holds no `notes:` that the user's texts do not.
proof fn lemma_no_notes_text(c: VmConfig)
    requires
        texts_free_of(c, "notes:"@),
        script_has_port_forward(c) ==> !contains_text(c.port_forwards@[0].protocol@, "notes:"@),
        c.notes is None,
    ensures
        !contains_text(create_script(c), "notes:"@),
{
    broadcast use lemma_char_free_concat;

    let x = "notes:"@;
    reveal_strlit("notes:");
    assert(seam_free(x));
    assert(x[0] == 'n' && x[1] == 'o' && x[4] == 's' && x[5] == ':');
    lemma_script_seams(c);
    let l0 = "tell application \"UTM\"\n"@;
    reveal_strlit("tell application \"UTM\"\n");
    lemma_absent_char(l0, x, 4);
    let d = drives_decls(c.drives@);
    lemma_decls_absent(c.drives@, x, 5);
    lemma_absent_concat(l0, d, x);
    let s2 = l0 + d;
    assert(s2.last() == '\n');
    let p1 = "    make new virtual machine with properties "@;
    reveal_strlit("    make new virtual machine with properties ");
    lemma_absent_char(p1, x, 5);
    lemma_absent_concat(s2, p1, x);
    let s3 = s2 + p1;
    let q = "{backend:qemu, configuration:{"@ + "name:\""@;
    reveal_strlit("{backend:qemu, configuration:{");
    reveal_strlit("name:\"");
    lemma_absent_char(q, x, 4);
    lemma_absent_concat(s3, q, x);
    let s4 = s3 + q;
    assert(s4.last() == '"');
    lemma_absent_concat(s4, c.name@, x);
    let s5 = s4 + c.name@;
    assert(s5 + Seq::<char>::empty() =~= s5);
    let m = machine_to_drives(c);
    lemma_machine_to_drives_n(c);
    lemma_absent_char(m, x, 0);
    reveal_strlit("\", ");
    assert(m[0] == '"');
    lemma_absent_concat(s5, m, x);
    let s7 = s5 + m;
    reveal_strlit("}, ");
    assert(s7.last() == ' ');
    let ni = "network interfaces:{{"@;
    reveal_strlit("network interfaces:{{");
    reveal_strlit("network");
    reveal_strlit(" interfaces:{{");
    assert(ni =~= "network"@ + " interfaces:{{"@);
    lemma_absent_char("network"@, x, 5);
    lemma_absent_char(" interfaces:{{"@, x, 1);
    lemma_absent_concat(s7, "network"@, x);
    lemma_absent_concat(s7 + "network"@, " interfaces:{{"@, x);
    assert(s7 + ni =~= s7 + "network"@ + " interfaces:{{"@);
    let s8 = s7 + ni;
    assert(s8.last() == '{');
    let u = interface_fields(c, true) + "}}\n"@ + "end tell\n"@;
    lemma_notes_tail(c);
    lemma_absent_concat(s8, u, x);
    assert(create_script(c) =~= s8 + u);
}

/// Without the hypervisor field, the fields from the architecture to the drives hold no
/// `hypervisor:true, `.
proof fn lemma_machine_no_hypervisor(c: VmConfig)
    requires
        !c.hypervisor,
    ensures
        !contains_text(machine_to_drives(c), "hypervisor:true, "@),
{
    broadcast use lemma_char_free_concat;

    let x = "hypervisor:true, "@;
    reveal_strlit("hypervisor:true, ");
    assert(x[0] == 'h' && x[1] == 'y');
    assert(ends_seam(x, ' ', x.len() as int));
    reveal_strlit("\", ");
    reveal_strlit("architecture:\"");
    reveal_strlit("aarch64");
    reveal_strlit("x86_64");
    reveal_strlit("memory:");
    reveal_strlit(", ");
    reveal_strlit("cpu cores:");
    reveal_strlit("drives:{");
    reveal_strlit("}, ");
    reveal_strlit("{removable:true, source:");
    reveal_strlit("{source:");
    reveal_strlit("{guest size:");
    reveal_strlit("}");
    reveal_strlit("drive");
    let m1 = "\", "@ + "architecture:\""@ + architecture_name(c.architecture) + "\", "@;
    let m2 = "memory:"@ + decimal(c.memory_mb as nat) + ", "@ + "cpu cores:"@ + decimal(
        c.cpu_count as nat,
    ) + ", "@;
    let m3 = "drives:{"@ + drives_records(c.drives@) + "}, "@;
    assert(char_free(m1, 'y'));
    lemma_absent_char(m1, x, 1);
    lemma_decimal_char_free(c.memory_mb as nat, 'h');
    lemma_decimal_char_free(c.cpu_count as nat, 'h');
    assert(char_free(m2, 'h'));
    lemma_absent_char(m2, x, 0);
    lemma_records_char_free(c.drives@, 'h');
    assert(char_free(m3, 'h'));
    lemma_absent_char(m3, x, 0);
    assert(m1.last() == ' ');
    lemma_absent_concat(m1, m2, x);
    assert((m1 + m2).last() == ' ');
    lemma_absent_concat(m1 + m2, m3, x);
    assert(machine_to_drives(c) =~= m1 + m2 + m3);
}

/// `hypervisor:true, ` cannot cover the seam before a text that starts with `, ` unless the
/// text before it ends with `hypervisor:true`.
proof fn lemma_hypervisor_comma_seam(a: Seq<char>, b: Seq<char>)
    requires
        !contains_text(a, "hypervisor:true"@),
        !contains_text(a, "hypervisor:true, "@),
        !contains_text(b, "hypervisor:true, "@),
        b.len() >= 2,
        b[0] == ',',
        b[1] == ' ',
    ensures
        !contains_text(a + b, "hypervisor:true, "@),
{
    let x = "hypervisor:true, "@;
    let y = "hypervisor:true"@;
    reveal_strlit("hypervisor:true, ");
    reveal_strlit("hypervisor:true");
    let s = a + b;
    let n = x.len() as int;
    if contains_text(s, x) {
        let i = choose|i: int| 0 <= i && i + n <= s.len() && #[trigger] s.subrange(i, i + n) == x;
        if i + n <= a.len() {
            assert(a.subrange(i, i + n) =~= s.subrange(i, i + n));
        } else if i >= a.len() {
            assert(b.subrange(i - a.len(), i - a.len() + n) =~= s.subrange(i, i + n));
        } else {
            let j2 = a.len() - i;
            assert(s.subrange(i, i + n)[j2] == s[a.len() as int]);
            assert(x[j2] == ',');
            assert(j2 == 15);
            assert(a.subrange(i, i + 15) =~= y) by {
                assert forall|k: int| 0 <= k < 15 implies a.subrange(i, i + 15)[k] == y[k] by {
                    assert(s.subrange(i, i + n)[k] == s[i + k]);
                }
            }
        }
    }
}

/// The fields of a written port forward, from its protocol to its guest port.
pub open spec fn forward_fields(pf: PortForward) -> Seq<char> {
    "protocol:"@ + pf.protocol@ + (", host port:"@ + decimal(pf.host_port as nat) + ", guest port:"@
        + decimal(pf.guest_port as nat))
}

/// `protocol:` and a protocol without `hypervisor:true` hold neither `hypervisor:true` nor
/// `hypervisor:true, `.
proof fn lemma_protocol_no_hypervisor(p: Seq<char>)
    requires
        !contains_text(p, "hypervisor:true"@),
    ensures
        !contains_text("protocol:"@ + p, "hypervisor:true"@),
        !contains_text("protocol:"@ + p, "hypervisor:true, "@),
{
    let x = "hypervisor:true, "@;
    let y = "hypervisor:true"@;
    let pr = "protocol:"@;
    lemma_hypervisor_texts();
    if contains_text(p, x) {
        lemma_contains_trans(p, x, y);
    }
    lemma_absent_short(pr, x);
    lemma_absent_short(pr, y);
    lemma_absent_concat(pr, p, x);
    lemma_absent_concat(pr, p, y);
}

/// Facts on the texts `hypervisor:true, `, `hypervisor:true` and `protocol:`.
proof fn lemma_hypervisor_texts()
    ensures
        contains_text("hypervisor:true, "@, "hypervisor:true"@),
        "protocol:"@.len() == 9,
        "protocol:"@.last() == ':',
        "hypervisor:true, "@.len() == 17,
        "hypervisor:true"@.len() == 15,
        ends_seam("hypervisor:true, "@, ':', 9),
        ends_seam("hypervisor:true"@, ':', 9),
{
    let x = "hypervisor:true, "@;
    let y = "hypervisor:true"@;
    reveal_strlit("hypervisor:true, ");
    reveal_strlit("hypervisor:true");
    reveal_strlit("protocol:");
    reveal_strlit(", ");
    assert(x =~= Seq::<char>::empty() + y + ", "@);
    lemma_contains_middle(Seq::<char>::empty(), y, ", "@);
}

/// The port fields of a forward hold no `hypervisor:true, ` and start with `, `.
proof fn lemma_ports_no_hypervisor(h: u16, g: u16)
    ensures
        !contains_text(
            ", host port:"@ + decimal(h as nat) + ", guest port:"@ + decimal(g as nat),
            "hypervisor:true, "@,
        ),
        (", host port:"@ + decimal(h as nat) + ", guest port:"@ + decimal(g as nat)).len() >= 2,
        (", host port:"@ + decimal(h as nat) + ", guest port:"@ + decimal(g as nat))[0] == ',',
        (", host port:"@ + decimal(h as nat) + ", guest port:"@ + decimal(g as nat))[1] == ' ',
{
    broadcast use lemma_char_free_concat;

    let x = "hypervisor:true, "@;
    reveal_strlit("hypervisor:true, ");
    reveal_strlit(", host port:");
    reveal_strlit(", guest port:");
    lemma_decimal_char_free(h as nat, 'v');
    lemma_decimal_char_free(g as nat, 'v');
    let b = ", host port:"@ + decimal(h as nat) + ", guest port:"@ + decimal(g as nat);
    assert(char_free(b, 'v'));
    assert(x[5] == 'v');
    lemma_absent_char(b, x, 5);
}

/// A port forward's fields hold no `hypervisor:true, ` when its protocol does not hold
/// `hypervisor:true`.
proof fn lemma_forward_fields_no_hypervisor(pf: PortForward)
    requires
        !contains_text(pf.protocol@, "hypervisor:true"@),
    ensures
        !contains_text(forward_fields(pf), "hypervisor:true, "@),
{
    lemma_protocol_no_hypervisor(pf.protocol@);
    lemma_ports_no_hypervisor(pf.host_port, pf.guest_port);
    lemma_hypervisor_comma_seam(
        "protocol:"@ + pf.protocol@,
        ", host port:"@ + decimal(pf.host_port as nat) + ", guest port:"@ + decimal(
            pf.guest_port as nat,
        ),
    );
}

/// The network interface record and the end of the script hold no `hypervisor:true, `,
/// when a written forward's protocol does not hold `hypervisor:true`.
proof fn lemma_tail_no_hypervisor(c: VmConfig)
    requires
        script_has_port_forward(c) ==> !contains_text(
            c.port_forwards@[0].protocol@,
            "hypervisor:true"@,
        ),
    ensures
        !contains_text(interface_fields(c, true) + "}}\n"@ + "end tell\n"@, "hypervisor:true, "@),
{
    broadcast use lemma_char_free_concat;

    let x = "hypervisor:true, "@;
    reveal_strlit("hypervisor:true, ");
    assert(x[5] == 'v' && x[10] == ':');
    reveal_strlit("mode:");
    reveal_strlit("bridged");
    reveal_strlit("shared");
    reveal_strlit("host only");
    reveal_strlit("emulated");
    reveal_strlit("}}");
    reveal_strlit("}}\n");
    reveal_strlit("end tell\n");
    let u = interface_fields(c, true) + "}}\n"@ + "end tell\n"@;
    if script_has_port_forward(c) {
        let pf = c.port_forwards@[0];
        reveal_strlit(", port forwards:{{protocol:");
        reveal_strlit(", port forwards:{{");
        reveal_strlit("protocol:");
        reveal_strlit("}}}}");
        let a = "mode:"@ + mode_applescript_name(c.network_mode) + ", port forwards:{{"@;
        assert(char_free(a, 'v'));
        lemma_absent_char(a, x, 5);
        let b = forward_fields(pf);
        lemma_forward_fields_no_hypervisor(pf);
        let e = "}}}}"@ + "}}\n"@ + "end tell\n"@;
        assert(char_free(e, 'v'));
        lemma_absent_char(e, x, 5);
        assert(a.last() == '{');
        lemma_absent_concat(a, b, x);
        assert(e[0] == '}');
        lemma_absent_concat(a + b, e, x);
        assert(", port forwards:{{protocol:"@ =~= ", port forwards:{{"@ + "protocol:"@);
        assert(u =~= a + b + e);
    } else {
        assert(char_free(u, 'v'));
        lemma_absent_char(u, x, 5);
    }
}

/// Law: the creation script has a `hypervisor:true, ` field exactly when the hypervisor is
/// asked for, provided the user's texts do not themselves hold that text and the protocol
/// of a port forward that is written does not hold `hypervisor:true`.
pub proof fn law_hypervisor_text(c: VmConfig)
    requires
        texts_free_of(c, "hypervisor:true, "@),
        script_has_port_forward(c) ==> !contains_text(
            c.port_forwards@[0].protocol@,
            "hypervisor:true"@,
        ),
    ensures
        contains_text(create_script(c), "hypervisor:true, "@) <==> c.hypervisor,
{
    law_create_script_fields(c);
    if !c.hypervisor {
        lemma_no_hypervisor_text(c);
    }
}

/// Without the hypervisor, the creation script holds no `hypervisor:true, ` that the
/// user's texts do not.
proof fn lemma_no_hypervisor_text(c: VmConfig)
    requires
        texts_free_of(c, "hypervisor:true, "@),
        script_has_port_forward(c) ==> !contains_text(
            c.port_forwards@[0].protocol@,
            "hypervisor:true"@,
        ),
        !c.hypervisor,
    ensures
        !contains_text(create_script(c), "hypervisor:true, "@),
{
    broadcast use lemma_char_free_concat;

    let x = "hypervisor:true, "@;
    reveal_strlit("hypervisor:true, ");
    assert(seam_free(x));
    assert(x[0] == 'h' && x[5] == 'v' && x[10] == ':');
    lemma_script_seams(c);
    let l0 = "tell application \"UTM\"\n"@;
    reveal_strlit("tell application \"UTM\"\n");
    lemma_absent_char(l0, x, 0);
    let d = drives_decls(c.drives@);
    lemma_decls_absent(c.drives@, x, 10);
    lemma_absent_concat(l0, d, x);
    let s2 = l0 + d;
    assert(s2.last() == '\n');
    let p1 = "    make new virtual machine with properties "@;
    reveal_strlit("    make new virtual machine with properties ");
    lemma_absent_char(p1, x, 10);
    lemma_absent_concat(s2, p1, x);
    let s3 = s2 + p1;
    let q = "{backend:qemu, configuration:{"@ + "name:\""@;
    reveal_strlit("{backend:qemu, configuration:{");
    reveal_strlit("name:\"");
    lemma_absent_char(q, x, 0);
    lemma_absent_concat(s3, q, x);
    let s4 = s3 + q;
    assert(s4.last() == '"');
    lemma_absent_concat(s4, c.name@, x);
    let s5 = s4 + c.name@;
    let o: Seq<char> = match c.notes {
        Some(n) => ("\", "@ + "notes:\""@) + n@,
        None => Seq::empty(),
    };
    reveal_strlit("\", ");
    reveal_strlit("notes:\"");
    if c.notes is Some {
        let n = c.notes->0;
        let e = "\", "@ + "notes:\""@;
        lemma_absent_char(e, x, 0);
        lemma_absent_concat(s5, e, x);
        assert((s5 + e).last() == '"');
        lemma_absent_concat(s5 + e, n@, x);
        assert(s5 + o =~= s5 + e + n@);
    } else {
        assert(s5 + o =~= s5);
    }
    let s6 = s5 + o;
    let m = machine_to_drives(c);
    lemma_machine_no_hypervisor(c);
    assert(m[0] == '"');
    lemma_absent_concat(s6, m, x);
    let s7 = s6 + m;
    let ni = "network interfaces:{{"@;
    reveal_strlit("network interfaces:{{");
    lemma_absent_char(ni, x, 0);
    assert(ni[0] == 'n');
    assert(starts_seam(x, 'n', ni.len() as int));
    lemma_absent_concat(s7, ni, x);
    let s8 = s7 + ni;
    let u = interface_fields(c, true) + "}}\n"@ + "end tell\n"@;
    lemma_tail_no_hypervisor(c);
    assert(s8.last() == '{');
    lemma_absent_concat(s8, u, x);
}

} // verus!
