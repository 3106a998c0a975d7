use utmvm::error::Error;
use utmvm::plist::{
    add_array_command, add_dict_command, add_integer_command, add_string_command,
    delete_command, delete_drive_command, drive_image_type_command, image_name_commands,
    mac_address_key, plan_advance, plan_command, port_forward_plan, print_command,
    qemu_arg_add_command, qemu_arg_probe_command, qemu_arg_step, qemu_args_array_command,
    run_outcome, scan_step, serial_tcp_plan, port_forward_array_command, port_forward_probe_command, slot_step, SlotStep, DRIVE_SCAN_LIMIT, set_command, set_integer_command, validate_outcome,
    ArgStep, PlanState, PlistStep, ScanStep,
};

#[test]
fn single_commands() {
    assert_eq!(print_command(":Network:0:MacAddress"), "Print :Network:0:MacAddress");
    assert_eq!(set_command(":A", "b c"), "Set :A b c");
    assert_eq!(set_integer_command(":A", -42), "Set :A -42");
    assert_eq!(set_integer_command(":A", i64::MIN), format!("Set :A {}", i64::MIN));
    assert_eq!(add_string_command(":A", "v"), "Add :A string v");
    assert_eq!(add_integer_command(":A", 7), "Add :A integer 7");
    assert_eq!(add_array_command(":Serial"), "Add :Serial array");
    assert_eq!(add_dict_command(":Serial:0"), "Add :Serial:0 dict");
    assert_eq!(delete_command(":Drive:1"), "Delete :Drive:1");
    assert_eq!(mac_address_key(3), ":Network:3:MacAddress");
    assert_eq!(drive_image_type_command(2), "Print :Drive:2:ImageType");
    assert_eq!(delete_drive_command(2), "Delete :Drive:2");
    assert_eq!(
        image_name_commands(1, "seed.iso"),
        ("Set :Drive:1:ImageName seed.iso".to_string(), "Add :Drive:1:ImageName string seed.iso".to_string())
    );
    assert_eq!(qemu_args_array_command(), "Add :QEMU:AdditionalArguments array");
    assert_eq!(qemu_arg_probe_command(4), "Print :QEMU:AdditionalArguments:4");
    assert_eq!(qemu_arg_add_command(4, "-s"), "Add :QEMU:AdditionalArguments:4 string -s");
}

fn texts(plan: &Vec<PlistStep>) -> Vec<(String, Option<String>, bool)> {
    plan.iter()
        .map(|s| match s {
            PlistStep::Try(c) => (c.clone(), None, false),
            PlistStep::Must(c) => (c.clone(), None, true),
            PlistStep::SetOrAdd(a, b) => (a.clone(), Some(b.clone()), true),
        })
        .collect()
}

#[test]
fn serial_plan_commands() {
    let plan = serial_tcp_plan(0, 4444);
    assert_eq!(
        texts(&plan),
        vec![
            ("Add :Serial array".to_string(), None, false),
            ("Add :Serial:0 dict".to_string(), None, false),
            ("Set :Serial:0:Mode TcpServer".to_string(), Some("Add :Serial:0:Mode string TcpServer".to_string()), true),
            ("Set :Serial:0:TcpPort 4444".to_string(), Some("Add :Serial:0:TcpPort integer 4444".to_string()), true),
            ("Set :Serial:0:Target Auto".to_string(), Some("Add :Serial:0:Target string Auto".to_string()), true),
        ]
    );
}

#[test]
fn port_forward_plan_commands() {
    assert_eq!(port_forward_array_command(1), "Add :Network:1:PortForward array");
    assert_eq!(port_forward_probe_command(1, 2), "Print :Network:1:PortForward:2");
    let plan = port_forward_plan(1, 2, "UDP", 53, 5353);
    assert_eq!(
        texts(&plan),
        vec![
            ("Add :Network:1:PortForward:2 dict".to_string(), None, false),
            ("Set :Network:1:PortForward:2:Protocol UDP".to_string(), Some("Add :Network:1:PortForward:2:Protocol string UDP".to_string()), true),
            ("Set :Network:1:PortForward:2:HostPort 53".to_string(), Some("Add :Network:1:PortForward:2:HostPort integer 53".to_string()), true),
            ("Set :Network:1:PortForward:2:GuestPort 5353".to_string(), Some("Add :Network:1:PortForward:2:GuestPort integer 5353".to_string()), true),
        ]
    );
}

#[test]
fn free_slot_search() {
    assert_eq!(slot_step(0, true), SlotStep::Probe(1));
    assert_eq!(slot_step(3, false), SlotStep::Free(3));
    // Two rules present: the new one goes into slot 2.
    let present = [true, true, false];
    let mut k = 0;
    let free = loop {
        match slot_step(k, present[k]) {
            SlotStep::Probe(n) => k = n,
            SlotStep::Free(f) => break f,
        }
    };
    assert_eq!(free, 2);
}

/// Runs a plan against a list of outcomes, recording the commands run.
fn drive(plan: &Vec<PlistStep>, mut outcomes: impl FnMut(&str) -> bool) -> (Vec<String>, bool) {
    let mut st = PlanState::start();
    let mut run = Vec::new();
    while let Some(c) = plan_command(plan, st) {
        let ok = outcomes(&c);
        run.push(c);
        match plan_advance(plan, st, ok) {
            Some(n) => st = n,
            None => return (run, false),
        }
    }
    (run, true)
}

#[test]
fn plan_runner_falls_back_and_ignores() {
    let plan = serial_tcp_plan(0, 1);
    // Everything fails except the Adds of values: Try steps are skipped, Sets fall back.
    let (run, ok) = drive(&plan, |c| c.starts_with("Add :Serial:0:"));
    assert!(ok);
    assert_eq!(run.len(), 8);
    assert_eq!(run[2], "Set :Serial:0:Mode TcpServer");
    assert_eq!(run[3], "Add :Serial:0:Mode string TcpServer");
    // When the Sets succeed, no Add of a value runs.
    let (run, ok) = drive(&plan, |_| true);
    assert!(ok);
    assert_eq!(run.len(), 5);
    // A failing Add ends the edit.
    let (run, ok) = drive(&plan, |c| !c.contains("TcpPort"));
    assert!(!ok);
    assert_eq!(run.last().unwrap(), "Add :Serial:0:TcpPort integer 1");
}

#[test]
fn must_step_failure_ends_edit() {
    let plan = vec![PlistStep::Must("X".to_string()), PlistStep::Try("Y".to_string())];
    let (run, ok) = drive(&plan, |_| false);
    assert!(!ok);
    assert_eq!(run, vec!["X".to_string()]);
}

#[test]
fn cdrom_scan_steps() {
    assert_eq!(scan_step(0, Some(" CD\n"), usize::MAX), ScanStep::Found(0));
    assert_eq!(scan_step(3, Some("Disk"), usize::MAX), ScanStep::Next(4));
    assert_eq!(scan_step(15, Some("Disk"), DRIVE_SCAN_LIMIT), ScanStep::Stop);
    assert_eq!(scan_step(15, Some("Disk"), usize::MAX), ScanStep::Next(16));
    assert_eq!(scan_step(20, Some("CD"), usize::MAX), ScanStep::Found(20));
    assert_eq!(scan_step(2, None, usize::MAX), ScanStep::Stop);
    assert_eq!(scan_step(2, Some("cd"), usize::MAX), ScanStep::Next(3));
}

#[test]
fn qemu_arg_steps() {
    assert!(matches!(qemu_arg_step(0, true, "-x"), ArgStep::Probe(1)));
    match qemu_arg_step(2, false, "-x") {
        ArgStep::Add(c) => assert_eq!(c, "Add :QEMU:AdditionalArguments:2 string -x"),
        ArgStep::Probe(_) => panic!("expected Add"),
    }
}

#[test]
fn run_outcomes() {
    assert_eq!(run_outcome("Print :A", true, " v \n", "").unwrap(), "v");
    match run_outcome("Print :A", false, " out ", "  ") {
        Err(Error::PlistBuddy(m)) => assert_eq!(m, "Print :A: out"),
        other => panic!("{other:?}"),
    }
    match run_outcome("Print :A", false, "out", " Does Not Exist \n") {
        Err(Error::PlistBuddy(m)) => assert_eq!(m, "Print :A: Does Not Exist"),
        other => panic!("{other:?}"),
    }
    assert!(validate_outcome(true, "").is_ok());
    match validate_outcome(false, " bad \n") {
        Err(Error::PlistBuddy(m)) => assert_eq!(m, "plist validation failed: bad"),
        other => panic!("{other:?}"),
    }
}
