use meter_generic::error::MeterError;
use meter_generic::meter::{ConnectOutcome, MeterGeneric};
use meter_generic::registers::ConfigWriteRegister;
use meter_generic::write::{WriteOutcome, WriteReport, WriteRequest};

fn setpoint(name: &str, address: u16, value: f32) -> ConfigWriteRegister {
    ConfigWriteRegister { name: name.to_string(), address, value_bits: value.to_bits() }
}

fn connected(registers: Vec<ConfigWriteRegister>) -> MeterGeneric {
    let mut meter = MeterGeneric::new(Vec::new(), registers);
    assert_eq!(meter.connect(ConnectOutcome::Established), Ok(()));
    meter
}

fn three_setpoints() -> Vec<ConfigWriteRegister> {
    vec![setpoint("Flow", 10, 10.0), setpoint("Limit", 20, 200.0), setpoint("Offset", 30, -1.5)]
}

#[test]
fn write_before_connect_is_not_connected() {
    let mut meter = MeterGeneric::new(Vec::new(), three_setpoints());
    assert!(matches!(meter.write(), Err(MeterError::NotConnected)));
}

#[test]
fn write_after_failed_connect_is_not_connected() {
    let mut meter = MeterGeneric::new(Vec::new(), three_setpoints());
    assert!(meter.connect(ConnectOutcome::AddressInvalid).is_err());
    assert!(matches!(meter.write(), Err(MeterError::NotConnected)));
}

#[test]
fn write_without_registers_makes_no_transaction() {
    let mut meter = connected(Vec::new());
    let cycle = meter.write().expect("a connected adapter starts a cycle");
    assert_eq!(cycle.request(), None);
    assert_eq!(cycle.into_reports(), Vec::new());
}

#[test]
fn each_register_is_written_in_order() {
    let mut meter = connected(three_setpoints());
    let mut cycle = meter.write().expect("a connected adapter starts a cycle");
    let mut requests = Vec::new();
    while let Some(request) = cycle.request() {
        requests.push(request);
        cycle = cycle.complete(WriteOutcome::Written);
    }
    assert_eq!(
        requests,
        vec![
            WriteRequest { address: 10, words: vec![0x4120, 0x0000] },
            WriteRequest { address: 20, words: vec![0x4348, 0x0000] },
            WriteRequest { address: 30, words: vec![0xBFC0, 0x0000] },
        ]
    );
    assert_eq!(
        cycle.into_reports(),
        vec![
            WriteReport {
                name: "Flow".to_string(),
                value_bits: 10.0f32.to_bits(),
                outcome: WriteOutcome::Written,
            },
            WriteReport {
                name: "Limit".to_string(),
                value_bits: 200.0f32.to_bits(),
                outcome: WriteOutcome::Written,
            },
            WriteReport {
                name: "Offset".to_string(),
                value_bits: (-1.5f32).to_bits(),
                outcome: WriteOutcome::Written,
            },
        ]
    );
}

#[test]
fn failed_transaction_does_not_stop_the_cycle() {
    let mut meter = connected(three_setpoints());
    let cycle = meter.write().expect("a connected adapter starts a cycle");

    let first = cycle.request().expect("the first register is pending");
    assert_eq!(first, WriteRequest { address: 10, words: vec![0x4120, 0x0000] });
    let cycle = cycle.complete(WriteOutcome::Written);

    let second = cycle.request().expect("the second register is pending");
    assert_eq!(second, WriteRequest { address: 20, words: vec![0x4348, 0x0000] });
    let failed = WriteOutcome::Failed { reason: "illegal data address".to_string() };
    let cycle = cycle.complete(failed.clone());

    let third = cycle.request().expect("the third register is pending");
    assert_eq!(third, WriteRequest { address: 30, words: vec![0xBFC0, 0x0000] });
    let cycle = cycle.complete(WriteOutcome::Written);

    assert_eq!(cycle.request(), None);
    let reports = cycle.into_reports();
    assert_eq!(reports.len(), 3);
    assert_eq!(reports[0].name, "Flow");
    assert_eq!(reports[0].outcome, WriteOutcome::Written);
    assert_eq!(reports[1].name, "Limit");
    assert_eq!(reports[1].value_bits, 200.0f32.to_bits());
    assert_eq!(reports[1].outcome, failed);
    assert_eq!(reports[2].name, "Offset");
    assert_eq!(reports[2].outcome, WriteOutcome::Written);
}

#[test]
fn every_transaction_may_fail() {
    let mut meter = connected(three_setpoints());
    let mut cycle = meter.write().expect("a connected adapter starts a cycle");
    let mut attempts = 0;
    while cycle.request().is_some() {
        attempts += 1;
        cycle = cycle.complete(WriteOutcome::Failed { reason: format!("timeout {}", attempts) });
    }
    assert_eq!(attempts, 3);
    let reports = cycle.into_reports();
    assert_eq!(reports.len(), 3);
    for (i, report) in reports.iter().enumerate() {
        assert_eq!(report.outcome, WriteOutcome::Failed { reason: format!("timeout {}", i + 1) });
    }
}

#[test]
fn request_does_not_advance_the_cycle() {
    let mut meter = connected(three_setpoints());
    let cycle = meter.write().expect("a connected adapter starts a cycle");
    assert_eq!(cycle.request(), cycle.request());
    assert_eq!(cycle.request().map(|request| request.address), Some(10));
}

#[test]
fn outcome_after_the_last_register_changes_nothing() {
    let mut meter = connected(vec![setpoint("Flow", 10, 10.0)]);
    let cycle = meter.write().expect("a connected adapter starts a cycle");
    let cycle = cycle.complete(WriteOutcome::Written);
    assert_eq!(cycle.request(), None);
    let cycle = cycle.complete(WriteOutcome::Failed { reason: "late".to_string() });
    assert_eq!(cycle.request(), None);
    assert_eq!(
        cycle.into_reports(),
        vec![WriteReport {
            name: "Flow".to_string(),
            value_bits: 10.0f32.to_bits(),
            outcome: WriteOutcome::Written,
        }]
    );
}

#[test]
fn reports_cover_the_transactions_made() {
    let mut meter = connected(three_setpoints());
    let cycle = meter.write().expect("a connected adapter starts a cycle");
    let cycle = cycle.complete(WriteOutcome::Written);
    let reports = cycle.into_reports();
    assert_eq!(reports.len(), 1);
    assert_eq!(reports[0].name, "Flow");
}

#[test]
fn words_carry_the_exact_bit_pattern() {
    let registers = vec![
        ConfigWriteRegister { name: "nan".to_string(), address: 1, value_bits: 0x7FC0_1234 },
        ConfigWriteRegister { name: "inf".to_string(), address: 3, value_bits: f32::NEG_INFINITY.to_bits() },
        ConfigWriteRegister { name: "zero".to_string(), address: 5, value_bits: (-0.0f32).to_bits() },
    ];
    let mut meter = connected(registers);
    let mut cycle = meter.write().expect("a connected adapter starts a cycle");
    let mut words = Vec::new();
    while let Some(request) = cycle.request() {
        words.push((request.address, request.words));
        cycle = cycle.complete(WriteOutcome::Written);
    }
    assert_eq!(
        words,
        vec![(1, vec![0x7FC0, 0x1234]), (3, vec![0xFF80, 0x0000]), (5, vec![0x8000, 0x0000])]
    );
}

#[test]
fn adapter_writes_again_after_a_cycle() {
    let mut meter = connected(three_setpoints());
    for _ in 0..2 {
        let mut cycle = meter.write().expect("a connected adapter starts a cycle");
        let mut count = 0;
        while cycle.request().is_some() {
            cycle = cycle.complete(WriteOutcome::Written);
            count += 1;
        }
        assert_eq!(count, 3);
    }
}

#[test]
fn reports_grow_with_each_outcome() {
    let mut meter = connected(three_setpoints());
    let cycle = meter.write().expect("a connected adapter starts a cycle");
    assert!(cycle.reports().is_empty());
    let cycle = cycle.complete(WriteOutcome::Failed { reason: "busy".to_string() });
    assert_eq!(
        cycle.reports(),
        &vec![WriteReport {
            name: "Flow".to_string(),
            value_bits: 10.0f32.to_bits(),
            outcome: WriteOutcome::Failed { reason: "busy".to_string() },
        }]
    );
    let cycle = cycle.complete(WriteOutcome::Written);
    assert_eq!(cycle.reports().len(), 2);
    assert_eq!(cycle.reports()[1].name, "Limit");
    assert_eq!(cycle.reports()[1].outcome, WriteOutcome::Written);
    assert_eq!(cycle.reports().clone(), cycle.into_reports());
}
