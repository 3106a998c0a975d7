//! The `PlistBuddy` commands that edit a UTM `config.plist`, and the decisions taken
//! between them.

use vstd::prelude::*;
use crate::error::Error;
use crate::applescript::{failure_detail, failure_detail_text};
use crate::text::{
    decimal, digits_value, is_digits, law_decimal_reads_back, push_decimal, trim, trim_text, str_eq,
};

verus! {

/// The text of a signed integer as `{}` prints it.
pub open spec fn signed_decimal(v: int) -> Seq<char> {
    if v < 0 {
        seq!['-'] + decimal((-v) as nat)
    } else {
        decimal(v as nat)
    }
}

/// Appends the text of a signed integer.
pub fn push_signed(out: &mut String, v: i64)
    ensures
        final(out)@ == old(out)@ + signed_decimal(v as int),
{
    if v < 0 {
        crate::text::push_char(out, '-');
        let m: i128 = -(v as i128);
        push_decimal(out, m as u64);
        assert(old(out)@.push('-') + decimal((-v) as nat) =~= old(out)@ + signed_decimal(v as int));
    } else {
        push_decimal(out, v as u64);
    }
}

/// `a` followed by `b`.
fn cat2(a: &str, b: &str) -> (r: String)
    ensures
        r@ == a@ + b@,
{
    let mut r = String::new();
    r.append(a);
    r.append(b);
    r
}

/// `a`, then the decimal text of `n`.
fn cat_num_end(a: &str, n: u64) -> (r: String)
    ensures
        r@ == a@ + decimal(n as nat),
{
    let mut r = String::new();
    r.append(a);
    push_decimal(&mut r, n);
    r
}

/// `a`, then the decimal text of `n`, then `b`.
fn cat_num(a: &str, n: u64, b: &str) -> (r: String)
    ensures
        r@ == a@ + decimal(n as nat) + b@,
{
    let mut r = String::new();
    r.append(a);
    push_decimal(&mut r, n);
    r.append(b);
    r
}

/// `a`, the decimal text of `n`, `b`, then `c`.
fn cat_num2(a: &str, n: u64, b: &str, c: &str) -> (r: String)
    ensures
        r@ == a@ + decimal(n as nat) + b@ + c@,
{
    let mut r = cat_num(a, n, b);
    r.append(c);
    r
}

/// `a`, the decimal text of `n`, `b`, then the decimal text of `m`.
fn cat_num_num(a: &str, n: u64, b: &str, m: u64) -> (r: String)
    ensures
        r@ == a@ + decimal(n as nat) + b@ + decimal(m as nat),
{
    let mut r = cat_num(a, n, b);
    push_decimal(&mut r, m);
    r
}

/// The command that prints the value at `key_path`.
pub fn print_command(key_path: &str) -> (r: String)
    ensures
        r@ == "Print "@ + key_path@,
{
    cat2("Print ", key_path)
}

/// The command that sets the value at `key_path` to `value`.
pub fn set_command(key_path: &str, value: &str) -> (r: String)
    ensures
        r@ == "Set "@ + key_path@ + " "@ + value@,
{
    let mut r = cat2("Set ", key_path);
    r.append(" ");
    r.append(value);
    r
}

/// The command that sets the integer at `key_path` to `value`.
pub fn set_integer_command(key_path: &str, value: i64) -> (r: String)
    ensures
        r@ == "Set "@ + key_path@ + " "@ + signed_decimal(value as int),
{
    let mut r = cat2("Set ", key_path);
    r.append(" ");
    push_signed(&mut r, value);
    r
}

/// The command that adds a new string key.
pub fn add_string_command(key_path: &str, value: &str) -> (r: String)
    ensures
        r@ == "Add "@ + key_path@ + " string "@ + value@,
{
    let mut r = cat2("Add ", key_path);
    r.append(" string ");
    r.append(value);
    r
}

/// The command that adds a new integer key.
pub fn add_integer_command(key_path: &str, value: i64) -> (r: String)
    ensures
        r@ == "Add "@ + key_path@ + " integer "@ + signed_decimal(value as int),
{
    let mut r = cat2("Add ", key_path);
    r.append(" integer ");
    push_signed(&mut r, value);
    r
}

/// The command that adds an empty array at `key_path`.
pub fn add_array_command(key_path: &str) -> (r: String)
    ensures
        r@ == "Add "@ + key_path@ + " array"@,
{
    let mut r = cat2("Add ", key_path);
    r.append(" array");
    r
}

/// The command that adds an empty dict at `key_path`.
pub fn add_dict_command(key_path: &str) -> (r: String)
    ensures
        r@ == "Add "@ + key_path@ + " dict"@,
{
    let mut r = cat2("Add ", key_path);
    r.append(" dict");
    r
}

/// The command that deletes `key_path` and its subtree.
pub fn delete_command(key_path: &str) -> (r: String)
    ensures
        r@ == "Delete "@ + key_path@,
{
    cat2("Delete ", key_path)
}

/// The key of the MAC address of network interface `index`.
pub fn mac_address_key(index: usize) -> (r: String)
    ensures
        r@ == ":Network:"@ + decimal(index as nat) + ":MacAddress"@,
{
    cat_num(":Network:", index as u64, ":MacAddress")
}

/// One step of a `config.plist` edit.
pub enum PlistStep {
    /// Run the command; a failure is ignored.
    Try(String),
    /// Run the command; a failure ends the edit with that failure.
    Must(String),
    /// Run the first command (a `Set`); if it fails run the second (an `Add`), whose
    /// failure ends the edit.
    SetOrAdd(String, String),
}

/// The mathematical value of a [`PlistStep`].
pub enum StepView {
    Try(Seq<char>),
    Must(Seq<char>),
    SetOrAdd(Seq<char>, Seq<char>),
}

impl View for PlistStep {
    type V = StepView;

    open spec fn view(&self) -> StepView {
        match self {
            PlistStep::Try(c) => StepView::Try(c@),
            PlistStep::Must(c) => StepView::Must(c@),
            PlistStep::SetOrAdd(a, b) => StepView::SetOrAdd(a@, b@),
        }
    }
}

/// The steps of an edit, by value.
pub open spec fn steps_view(plan: Seq<PlistStep>) -> Seq<StepView> {
    plan.map_values(|s: PlistStep| s@)
}

/// Configure serial port `index` as a TCP server on `tcp_port`: create the `:Serial` array
/// and the entry when missing, then set (or add) `Mode`, `TcpPort` and `Target`.
pub open spec fn serial_tcp_steps(index: nat, tcp_port: nat) -> Seq<StepView> {
    let i = decimal(index);
    let p = decimal(tcp_port);
    seq![
        StepView::Try("Add :Serial array"@),
        StepView::Try("Add :Serial:"@ + i + " dict"@),
        StepView::SetOrAdd(
            "Set :Serial:"@ + i + ":Mode TcpServer"@,
            "Add :Serial:"@ + i + ":Mode string TcpServer"@,
        ),
        StepView::SetOrAdd(
            "Set :Serial:"@ + i + ":TcpPort "@ + p,
            "Add :Serial:"@ + i + ":TcpPort integer "@ + p,
        ),
        StepView::SetOrAdd(
            "Set :Serial:"@ + i + ":Target Auto"@,
            "Add :Serial:"@ + i + ":Target string Auto"@,
        ),
    ]
}

/// Law: the serial edit has five steps, and its fourth sets (or adds) the `TcpPort` of
/// entry `index`: both commands carry runs of digits that read back as the entry's
/// number and as `tcp_port`, for every port.
pub proof fn law_serial_tcp_port(index: nat, tcp_port: nat)
    ensures
        serial_tcp_steps(index, tcp_port).len() == 5,
        serial_tcp_steps(index, tcp_port)[3] matches StepView::SetOrAdd(set, add) && exists|
            ti: Seq<char>,
            tp: Seq<char>,
        |
            #![trigger is_digits(ti), is_digits(tp)]
            is_digits(ti) && digits_value(ti) == index && is_digits(tp) && digits_value(tp)
                == tcp_port && set == "Set :Serial:"@ + ti + ":TcpPort "@ + tp && add
                == "Add :Serial:"@ + ti + ":TcpPort integer "@ + tp,
{
    law_decimal_reads_back(index);
    law_decimal_reads_back(tcp_port);
    let ti = decimal(index);
    let tp = decimal(tcp_port);
    assert(is_digits(ti) && is_digits(tp));
}

/// The edit that configures serial port `index` in TCP server mode at `tcp_port`.
///
/// Idempotent: every key is set when present and added when not.
pub fn serial_tcp_plan(index: usize, tcp_port: u16) -> (r: Vec<PlistStep>)
    ensures
        steps_view(r@) == serial_tcp_steps(index as nat, tcp_port as nat),
{
    let i = index as u64;
    let p = tcp_port as u64;
    let mut r: Vec<PlistStep> = Vec::new();
    r.push(PlistStep::Try("Add :Serial array".to_owned()));
    r.push(PlistStep::Try(cat_num("Add :Serial:", i, " dict")));
    r.push(
        PlistStep::SetOrAdd(
            cat_num("Set :Serial:", i, ":Mode TcpServer"),
            cat_num("Add :Serial:", i, ":Mode string TcpServer"),
        ),
    );
    r.push(
        PlistStep::SetOrAdd(
            cat_num_num("Set :Serial:", i, ":TcpPort ", p),
            cat_num_num("Add :Serial:", i, ":TcpPort integer ", p),
        ),
    );
    r.push(
        PlistStep::SetOrAdd(
            cat_num("Set :Serial:", i, ":Target Auto"),
            cat_num("Add :Serial:", i, ":Target string Auto"),
        ),
    );
    assert(steps_view(r@) =~= serial_tcp_steps(index as nat, tcp_port as nat));
    r
}

/// The command that ensures the port-forward list of network interface `index` exists
/// (its failure is ignored: the list may already be there).
pub fn port_forward_array_command(index: usize) -> (r: String)
    ensures
        r@ == "Add :Network:"@ + decimal(index as nat) + ":PortForward array"@,
{
    cat_num("Add :Network:", index as u64, ":PortForward array")
}

/// The command that probes whether port-forward rule `slot` of interface `index` exists.
pub fn port_forward_probe_command(index: usize, slot: usize) -> (r: String)
    ensures
        r@ == "Print :Network:"@ + decimal(index as nat) + ":PortForward:"@ + decimal(slot as nat),
{
    cat_num_num("Print :Network:", index as u64, ":PortForward:", slot as u64)
}

/// Fill the new port-forward rule `slot` (the first free one) of network interface
/// `index`: create the rule, then set (or add) `Protocol`, `HostPort` and `GuestPort`.
pub open spec fn port_forward_steps(
    index: nat,
    slot: nat,
    protocol: Seq<char>,
    host_port: nat,
    guest_port: nat,
) -> Seq<StepView> {
    let e = ":Network:"@ + decimal(index) + ":PortForward:"@ + decimal(slot);
    seq![
        StepView::Try("Add "@ + e + " dict"@),
        StepView::SetOrAdd(
            "Set "@ + e + ":Protocol "@ + protocol,
            "Add "@ + e + ":Protocol string "@ + protocol,
        ),
        StepView::SetOrAdd(
            "Set "@ + e + ":HostPort "@ + decimal(host_port),
            "Add "@ + e + ":HostPort integer "@ + decimal(host_port),
        ),
        StepView::SetOrAdd(
            "Set "@ + e + ":GuestPort "@ + decimal(guest_port),
            "Add "@ + e + ":GuestPort integer "@ + decimal(guest_port),
        ),
    ]
}

/// `a` + `key` + `b` + `value`.
fn cat_key(a: &str, key: &str, b: &str, value: &str) -> (r: String)
    ensures
        r@ == a@ + key@ + b@ + value@,
{
    let mut r = cat2(a, key);
    r.append(b);
    r.append(value);
    r
}

/// `a` + `key` + `b` + the decimal text of `n`.
fn cat_key_num(a: &str, key: &str, b: &str, n: u64) -> (r: String)
    ensures
        r@ == a@ + key@ + b@ + decimal(n as nat),
{
    let mut r = cat2(a, key);
    r.append(b);
    push_decimal(&mut r, n);
    r
}

/// The edit that writes a new port-forward rule into slot `slot` of network interface
/// `index`; `slot` is the first free slot, so the rules already there are kept.
pub fn port_forward_plan(
    index: usize,
    slot: usize,
    protocol: &str,
    host_port: u16,
    guest_port: u16,
) -> (r: Vec<PlistStep>)
    ensures
        steps_view(r@) == port_forward_steps(
            index as nat,
            slot as nat,
            protocol@,
            host_port as nat,
            guest_port as nat,
        ),
{
    let e = cat_num_num(":Network:", index as u64, ":PortForward:", slot as u64);
    let h = host_port as u64;
    let g = guest_port as u64;
    let mut r: Vec<PlistStep> = Vec::new();
    r.push(PlistStep::Try(add_dict_command(e.as_str())));
    r.push(
        PlistStep::SetOrAdd(
            cat_key("Set ", e.as_str(), ":Protocol ", protocol),
            cat_key("Add ", e.as_str(), ":Protocol string ", protocol),
        ),
    );
    r.push(
        PlistStep::SetOrAdd(
            cat_key_num("Set ", e.as_str(), ":HostPort ", h),
            cat_key_num("Add ", e.as_str(), ":HostPort integer ", h),
        ),
    );
    r.push(
        PlistStep::SetOrAdd(
            cat_key_num("Set ", e.as_str(), ":GuestPort ", g),
            cat_key_num("Add ", e.as_str(), ":GuestPort integer ", g),
        ),
    );
    assert(steps_view(r@) =~= port_forward_steps(
        index as nat,
        slot as nat,
        protocol@,
        host_port as nat,
        guest_port as nat,
    ));
    r
}

/// The next move while looking for the first free slot of a list.
#[derive(Clone, Copy, Debug, PartialEq, Eq, Structural)]
pub enum SlotStep {
    /// The slot was taken: probe this one next.
    Probe(usize),
    /// This slot is free.
    Free(usize),
}

/// After probing slot `k` (`taken` when the probe succeeded): a taken slot moves the
/// search on to `k + 1`, a free one ends it.
pub open spec fn slot_step_spec(k: nat, taken: bool) -> SlotStep {
    if taken {
        SlotStep::Probe((k + 1) as usize)
    } else {
        SlotStep::Free(k as usize)
    }
}

/// Decides the next move of the search for a free slot.
pub fn slot_step(k: usize, taken: bool) -> (r: SlotStep)
    requires
        k < usize::MAX,
    ensures
        r == slot_step_spec(k as nat, taken),
{
    if taken {
        SlotStep::Probe(k + 1)
    } else {
        SlotStep::Free(k)
    }
}

/// Where a search that probes slots `k`, `k + 1`, … ends, when probing slot `m` finds it
/// taken exactly when `taken[m]`.
pub open spec fn free_slot_from(taken: Seq<bool>, k: nat) -> Option<nat>
    decreases taken.len() - k,
{
    if k >= taken.len() {
        None
    } else {
        match slot_step_spec(k, taken[k as int]) {
            SlotStep::Free(j) => Some(j as nat),
            SlotStep::Probe(_) => free_slot_from(taken, k + 1),
        }
    }
}

/// Law: the search for a slot from `k` ends at the first free slot from `k` on, so every
/// slot before it (every rule already present) is left alone.
pub proof fn law_first_free_slot(taken: Seq<bool>, k: nat, j: nat)
    requires
        taken.len() <= usize::MAX,
    ensures
        free_slot_from(taken, k) == Some(j) <==> (k <= j < taken.len() && !taken[j as int]
            && forall|m: int| #![trigger taken[m]] k <= m < j ==> taken[m]),
    decreases taken.len() - k,
{
    if k < taken.len() {
        law_first_free_slot(taken, k + 1, j);
        if taken[k as int] {
            if k <= j < taken.len() && !taken[j as int] && forall|m: int|
                #![trigger taken[m]]
                k <= m < j ==> taken[m] {
                assert(j != k);
            }
            if k + 1 <= j && forall|m: int| #![trigger taken[m]] k + 1 <= m < j ==> taken[m] {
                assert(forall|m: int| #![trigger taken[m]] k <= m < j ==> taken[m]);
            }
        } else {
            if k < j && forall|m: int| #![trigger taken[m]] k <= m < j ==> taken[m] {
                assert(taken[k as int]);
            }
        }
    }
}

/// Where an edit stands: the step under way, and whether its fallback command is due.
#[derive(Clone, Copy, Debug, PartialEq, Eq, Structural)]
pub struct PlanState {
    /// Index of the step under way.
    pub step: usize,
    /// `true` once the `Set` of a [`PlistStep::SetOrAdd`] has failed.
    pub fallback: bool,
}

impl PlanState {
    /// The state before the first step.
    pub fn start() -> (r: PlanState)
        ensures
            r == (PlanState { step: 0, fallback: false }),
    {
        PlanState { step: 0, fallback: false }
    }
}

/// The command to run in state `st`, or `None` when the edit is complete.
pub open spec fn plan_command_spec(plan: Seq<StepView>, st: PlanState) -> Option<Seq<char>> {
    if st.step >= plan.len() {
        None
    } else {
        match plan[st.step as int] {
            StepView::Try(c) => Some(c),
            StepView::Must(c) => Some(c),
            StepView::SetOrAdd(a, b) => Some(if st.fallback { b } else { a }),
        }
    }
}

/// The state after the command of state `st` succeeded (`ok`) or failed; `None` when the
/// failure ends the edit.
pub open spec fn plan_advance_spec(plan: Seq<StepView>, st: PlanState, ok: bool) -> Option<
    PlanState,
> {
    let next = PlanState { step: (st.step + 1) as usize, fallback: false };
    match plan[st.step as int] {
        StepView::Try(_) => Some(next),
        StepView::Must(_) => if ok {
            Some(next)
        } else {
            None
        },
        StepView::SetOrAdd(_, _) => if ok {
            Some(next)
        } else if !st.fallback {
            Some(PlanState { step: st.step, fallback: true })
        } else {
            None
        },
    }
}

/// How far an edit has progressed: it grows with every command run.
pub open spec fn plan_progress(st: PlanState) -> int {
    2 * st.step + if st.fallback { 1int } else { 0int }
}

/// The command to run next in state `st` of the edit `plan`, or `None` when it is complete.
pub fn plan_command(plan: &Vec<PlistStep>, st: PlanState) -> (r: Option<String>)
    ensures
        match r {
            Some(c) => plan_command_spec(steps_view(plan@), st) == Some(c@),
            None => plan_command_spec(steps_view(plan@), st).is_none(),
        },
{
    if st.step >= plan.len() {
        return None;
    }
    match &plan[st.step] {
        PlistStep::Try(c) => Some(c.clone()),
        PlistStep::Must(c) => Some(c.clone()),
        PlistStep::SetOrAdd(a, b) => if st.fallback {
            Some(b.clone())
        } else {
            Some(a.clone())
        },
    }
}

/// The state after the command of state `st` succeeded (`ok`) or failed, or `None` when
/// that failure ends the edit (and is the edit's error).
pub fn plan_advance(plan: &Vec<PlistStep>, st: PlanState, ok: bool) -> (r: Option<PlanState>)
    requires
        st.step < plan@.len(),
    ensures
        r == plan_advance_spec(steps_view(plan@), st, ok),
        r matches Some(n) ==> plan_progress(n) > plan_progress(st),
{
    let n = plan.len();
    assert(st.step < n);
    let next = PlanState { step: st.step + 1, fallback: false };
    match &plan[st.step] {
        PlistStep::Try(_) => Some(next),
        PlistStep::Must(_) => if ok {
            Some(next)
        } else {
            None
        },
        PlistStep::SetOrAdd(_, _) => if ok {
            Some(next)
        } else if !st.fallback {
            Some(PlanState { step: st.step, fallback: true })
        } else {
            None
        },
    }
}


/// The result of a PlistBuddy run of `command`: the trimmed output, or an
/// [`Error::PlistBuddy`] that names the command.
pub fn run_outcome(command: &str, success: bool, stdout: &str, stderr: &str) -> (r: Result<
    String,
    Error,
>)
    ensures
        success ==> (r matches Ok(o) && o@ == trim(stdout@)),
        !success ==> (r matches Err(Error::PlistBuddy(m)) && m@ == command@ + ": "@
            + failure_detail(stdout@, stderr@)),
{
    if success {
        Ok(trim_text(stdout))
    } else {
        let detail = failure_detail_text(stdout, stderr);
        let mut m = String::new();
        m.append(command);
        m.append(": ");
        m.append(detail.as_str());
        Err(Error::PlistBuddy(m))
    }
}

/// The result of `plutil -lint`.
pub fn validate_outcome(success: bool, stderr: &str) -> (r: Result<(), Error>)
    ensures
        success <==> r is Ok,
        !success ==> (r matches Err(Error::PlistBuddy(m)) && m@ == "plist validation failed: "@
            + trim(stderr@)),
{
    if success {
        Ok(())
    } else {
        let mut m = String::new();
        m.append("plist validation failed: ");
        let t = trim_text(stderr);
        m.append(t.as_str());
        Err(Error::PlistBuddy(m))
    }
}

/// How many drive entries the CD-ROM image fix-up after creation looks at.
pub const DRIVE_SCAN_LIMIT: usize = 16;

/// The command that reads the image type of drive entry `i`.
pub fn drive_image_type_command(i: usize) -> (r: String)
    ensures
        r@ == "Print :Drive:"@ + decimal(i as nat) + ":ImageType"@,
{
    cat_num("Print :Drive:", i as u64, ":ImageType")
}

/// The command that deletes drive entry `i`.
pub fn delete_drive_command(i: usize) -> (r: String)
    ensures
        r@ == "Delete :Drive:"@ + decimal(i as nat),
{
    cat_num_end("Delete :Drive:", i as u64)
}

/// The commands that set, or else add, the image file name of drive entry `i`.
pub fn image_name_commands(i: usize, image_name: &str) -> (r: (String, String))
    ensures
        r.0@ == "Set :Drive:"@ + decimal(i as nat) + ":ImageName "@ + image_name@,
        r.1@ == "Add :Drive:"@ + decimal(i as nat) + ":ImageName string "@ + image_name@,
{
    (
        cat_num2("Set :Drive:", i as u64, ":ImageName ", image_name),
        cat_num2("Add :Drive:", i as u64, ":ImageName string ", image_name),
    )
}

/// The next move of a scan through the drive entries for the CD-ROM.
#[derive(Clone, Copy, Debug, PartialEq, Eq, Structural)]
pub enum ScanStep {
    /// Drive entry `i` is the CD-ROM.
    Found(usize),
    /// Read the image type of this entry next.
    Next(usize),
    /// No CD-ROM among the entries.
    Stop,
}

/// After reading the image type of entry `i` (`None` when the read failed, which means
/// there is no such entry): a `CD` entry is found, another entry moves on to `i + 1`
/// while that is below `bound`, and a failed read or reaching `bound` ends the scan.
pub open spec fn scan_step_spec(i: nat, probe: Option<Seq<char>>, bound: nat) -> ScanStep {
    match probe {
        Some(v) => if trim(v) == "CD"@ {
            ScanStep::Found(i as usize)
        } else if i + 1 < bound {
            ScanStep::Next((i + 1) as usize)
        } else {
            ScanStep::Stop
        },
        None => ScanStep::Stop,
    }
}

/// Decides the next move of a CD-ROM scan that reads entries below `bound`, from what
/// reading entry `i` gave. Removing the CD-ROM scans until a read fails
/// (`bound == usize::MAX`); the fix-up after creation reads at most
/// [`DRIVE_SCAN_LIMIT`] entries.
pub fn scan_step(i: usize, probe: Option<&str>, bound: usize) -> (r: ScanStep)
    requires
        i < bound,
    ensures
        r == scan_step_spec(
            i as nat,
            match probe {
                Some(v) => Some(v@),
                None => None,
            },
            bound as nat,
        ),
{
    match probe {
        Some(v) => {
            let t = trim_text(v);
            if str_eq(t.as_str(), "CD") {
                ScanStep::Found(i)
            } else if i + 1 < bound {
                ScanStep::Next(i + 1)
            } else {
                ScanStep::Stop
            }
        },
        None => ScanStep::Stop,
    }
}

/// Where a scan that reads entries `i`, `i + 1`, … below `bound` ends, when reading entry
/// `k` gives `probes[k]` (`None` for a failed read): the CD-ROM entry found, if any.
pub open spec fn scan_from(probes: Seq<Option<Seq<char>>>, i: nat, bound: nat) -> Option<nat>
    decreases bound - i,
{
    if i >= bound || i >= probes.len() {
        None
    } else {
        match scan_step_spec(i, probes[i as int], bound) {
            ScanStep::Found(j) => Some(j as nat),
            ScanStep::Next(j) => if j > i {
                scan_from(probes, j as nat, bound)
            } else {
                None
            },
            ScanStep::Stop => None,
        }
    }
}

/// Whether reading entry `k` gave a present entry whose image type is `CD`.
pub open spec fn is_cd(probes: Seq<Option<Seq<char>>>, k: int) -> bool {
    probes[k] matches Some(v) && trim(v) == "CD"@
}

/// Whether entries `i` up to (not including) `j` were all read and none is `CD`.
pub open spec fn no_cd_between(probes: Seq<Option<Seq<char>>>, i: int, j: int) -> bool {
    forall|k: int| #![trigger probes[k]] i <= k < j ==> probes[k] is Some && !is_cd(probes, k)
}

/// Law: a scan from entry `i` finds exactly the first `CD` entry from `i` on, provided
/// every entry before it could be read and it lies below `bound`; a failed read before any
/// `CD` entry ends the scan with nothing found.
pub proof fn law_scan_finds_first_cd(probes: Seq<Option<Seq<char>>>, i: nat, j: nat, bound: nat)
    requires
        probes.len() >= bound,
        bound <= usize::MAX,
    ensures
        scan_from(probes, i, bound) == Some(j) <==> (i <= j < bound && is_cd(probes, j as int)
            && no_cd_between(probes, i as int, j as int)),
    decreases bound - i,
{
    if i < bound {
        law_scan_finds_first_cd(probes, i + 1, j, bound);
        if probes[i as int] is None {
            assert(scan_from(probes, i, bound) is None);
            if i <= j < bound && is_cd(probes, j as int) && no_cd_between(
                probes,
                i as int,
                j as int,
            ) {
                assert(!is_cd(probes, i as int));
                assert(j != i);
                assert(probes[i as int] is Some);
            }
        } else if is_cd(probes, i as int) {
            assert(scan_from(probes, i, bound) == Some(i));
            if i < j && no_cd_between(probes, i as int, j as int) {
                assert(!is_cd(probes, i as int));
            }
        } else if i + 1 < bound {
            assert(scan_from(probes, i, bound) == scan_from(probes, i + 1, bound));
            if no_cd_between(probes, i as int, j as int) {
                assert(no_cd_between(probes, (i + 1) as int, j as int));
            }
            if i + 1 <= j && no_cd_between(probes, (i + 1) as int, j as int) {
                assert(no_cd_between(probes, i as int, j as int));
            }
        } else {
            assert(scan_from(probes, i, bound) is None);
        }
    }
}

/// The command that ensures the extra QEMU arguments array exists (its failure is ignored).
pub fn qemu_args_array_command() -> (r: String)
    ensures
        r@ == "Add :QEMU:AdditionalArguments array"@,
{
    "Add :QEMU:AdditionalArguments array".to_owned()
}

/// The command that probes whether extra QEMU argument `idx` exists.
pub fn qemu_arg_probe_command(idx: usize) -> (r: String)
    ensures
        r@ == "Print :QEMU:AdditionalArguments:"@ + decimal(idx as nat),
{
    cat_num_end("Print :QEMU:AdditionalArguments:", idx as u64)
}

/// The command that stores `arg` as extra QEMU argument `idx`.
pub fn qemu_arg_add_command(idx: usize, arg: &str) -> (r: String)
    ensures
        r@ == "Add :QEMU:AdditionalArguments:"@ + decimal(idx as nat) + " string "@ + arg@,
{
    cat_num2("Add :QEMU:AdditionalArguments:", idx as u64, " string ", arg)
}

/// The next move while appending an extra QEMU argument.
pub enum ArgStep {
    /// Index `idx` is taken: probe this one next.
    Probe(usize),
    /// Index `idx` is free: run this command to store the argument there.
    Add(String),
}

/// After probing index `idx` (`taken` when the probe succeeded): a taken index moves the
/// search on, a free one receives the argument.
pub fn qemu_arg_step(idx: usize, taken: bool, arg: &str) -> (r: ArgStep)
    requires
        idx < usize::MAX,
    ensures
        taken ==> r == ArgStep::Probe((idx + 1) as usize),
        !taken ==> (r matches ArgStep::Add(c) && c@ == "Add :QEMU:AdditionalArguments:"@
            + decimal(idx as nat) + " string "@ + arg@),
{
    if taken {
        ArgStep::Probe(idx + 1)
    } else {
        ArgStep::Add(qemu_arg_add_command(idx, arg))
    }
}

} // verus!
