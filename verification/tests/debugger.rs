use gamegirl::debugger::{Breakpoint, Debugger};

fn bp(value: Option<u16>, pc: bool, write: bool) -> Breakpoint<u16> {
    Breakpoint { value, value_text: String::new(), pc, write }
}

#[test]
fn no_breakpoints_always_executes() {
    let mut d: Debugger<u16> = Debugger::new();
    assert!(d.should_execute(0x100));
    d.write_occurred(0x100);
    assert!(!d.is_breakpoint_hit);
}

#[test]
fn pc_breakpoint_stops_execution() {
    let mut d: Debugger<u16> = Debugger::new();
    d.breakpoints.push(bp(Some(0x150), true, false));
    assert!(d.should_execute(0x100));
    assert!(!d.should_execute(0x150));
    assert!(d.is_breakpoint_hit);
    assert_eq!(Some(0x150), d.breakpoint_hit.as_ref().unwrap().value);
}

#[test]
fn write_breakpoint_ignores_pc() {
    let mut d: Debugger<u16> = Debugger::new();
    d.breakpoints.push(bp(Some(0xC000), false, true));
    assert!(d.should_execute(0xC000));
    d.write_occurred(0xC001);
    assert!(!d.is_breakpoint_hit);
    d.write_occurred(0xC000);
    assert!(d.is_breakpoint_hit);
}

#[test]
fn first_matching_breakpoint_is_reported() {
    let mut d: Debugger<u32> = Debugger::new();
    d.breakpoints.push(Breakpoint { value: None, value_text: String::new(), pc: true, write: true });
    d.breakpoints.push(Breakpoint { value: Some(8), value_text: "a".to_string(), pc: true, write: false });
    d.breakpoints.push(Breakpoint { value: Some(8), value_text: "b".to_string(), pc: true, write: false });
    assert!(!d.should_execute(8));
    assert_eq!("a", d.breakpoint_hit.as_ref().unwrap().value_text);
}

#[test]
fn hit_flag_stays_until_cleared() {
    let mut d: Debugger<u16> = Debugger::new();
    d.breakpoints.push(bp(Some(0x10), true, false));
    assert!(!d.should_execute(0x10));
    assert!(!d.should_execute(0x20));
    d.is_breakpoint_hit = false;
    assert!(d.should_execute(0x20));
}
