use modbus_bench::trace::{drain_trace, fc_name, push_trace, trace_entry, TRACE_CAP};
use std::collections::VecDeque;

#[test]
fn function_names() {
    assert_eq!(fc_name(0x03), "READ HOLDING REGISTERS (0x03)");
    assert_eq!(fc_name(0x10), "WRITE MULTIPLE REGISTERS (0x10)");
    assert_eq!(fc_name(0x2B), "FUNCTION 0x2B");
}

#[test]
fn trace_ring_keeps_the_latest() {
    let mut t = VecDeque::new();
    for i in 0..(TRACE_CAP as u64 + 5) {
        push_trace(&mut t, trace_entry("RTU", 0x03, &[0x01, 0x03], Some(&[0x01]), true, None, i));
    }
    assert_eq!(t.len(), TRACE_CAP);
    assert_eq!(t.front().unwrap().ms, 5);
    let all = drain_trace(&mut t);
    assert_eq!(all.len(), TRACE_CAP);
    assert!(t.is_empty());
    assert_eq!(all[0].req, "01 03");
    assert_eq!(all[0].resp, "01");
    assert_eq!(all[0].fc, "READ HOLDING REGISTERS (0x03)");
    let e = trace_entry("TCP", 0x06, &[], None, false, Some("timeout".to_string()), 3);
    assert_eq!(e.resp, "");
    assert_eq!(e.err, Some("timeout".to_string()));
}
