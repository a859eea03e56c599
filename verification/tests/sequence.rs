use apple_drivers::bytes::{copy_range, get_be32, get_le32, get_le64, put_bytes};
use apple_drivers::sequence::{clear32, delay, mask32, note, set32, write32, Action, Sequencer, Step};

#[test]
fn steps_become_bus_accesses() {
    let steps = vec![write32(1, 0x10, 7), mask32(0, 0x20, 0xf0, 0x50), delay(3), note(4)];
    let mut run = Sequencer::new(steps);
    assert_eq!(run.next(0), Action::Write { win: 1, offset: 0x10, value: 7 });
    assert_eq!(run.next(0), Action::Read { win: 0, offset: 0x20 });
    assert_eq!(run.next(0xabc), Action::Write { win: 0, offset: 0x20, value: 0xa5c });
    assert_eq!(run.next(0), Action::Delay { us: 3 });
    assert_eq!(run.next(0), Action::Finish { result: Ok(()) });
    assert_eq!(run.notes(), 4);
    assert_eq!(run.next(0), Action::Finish { result: Ok(()) });
}

#[test]
fn an_unchanged_register_is_not_stored_again() {
    let mut run = Sequencer::new(vec![Step::Amend { win: 0, offset: 4, clear: 0, set: 1 }]);
    assert_eq!(run.next(0), Action::Read { win: 0, offset: 4 });
    assert_eq!(run.next(3), Action::Finish { result: Ok(()) });
    let mut run = Sequencer::new(vec![set32(0, 4, 1), clear32(0, 4, 2)]);
    run.next(0);
    assert_eq!(run.next(2), Action::Write { win: 0, offset: 4, value: 3 });
    run.next(0);
    assert_eq!(run.next(3), Action::Write { win: 0, offset: 4, value: 1 });
}

#[test]
fn a_poll_gives_up_after_its_attempts() {
    let poll = Step::Poll {
        win: 0,
        offset: 8,
        mask: 1,
        want: 1,
        attempts: 2,
        interval_us: 5,
        skip: 1,
    };
    let steps = vec![poll, Step::Fail { error: "late" }, write32(0, 0, 1)];
    let mut run = Sequencer::new(steps.clone());
    assert_eq!(run.next(0), Action::Read { win: 0, offset: 8 });
    assert_eq!(run.next(0), Action::Delay { us: 5 });
    assert_eq!(run.next(0), Action::Read { win: 0, offset: 8 });
    assert_eq!(run.next(0), Action::Delay { us: 5 });
    assert_eq!(run.next(0), Action::Finish { result: Err("late") });

    let mut run = Sequencer::new(steps);
    run.next(0);
    assert_eq!(run.next(1), Action::Write { win: 0, offset: 0, value: 1 });
}

#[test]
fn a_field_is_carried_over() {
    let steps = vec![
        Step::Load { win: 0, offset: 0, mask: 0xf0, shift: 4 },
        Step::UpdateField { win: 0, offset: 4, mask: 0xff00, shift: 8, thermometer: false },
        Step::UpdateField { win: 0, offset: 8, mask: 0xff, shift: 0, thermometer: true },
    ];
    let mut run = Sequencer::new(steps);
    run.next(0);
    assert_eq!(run.next(0x35), Action::Read { win: 0, offset: 4 });
    assert_eq!(run.next(0x1_1111), Action::Write { win: 0, offset: 4, value: 0x1_0311 });
    run.next(0);
    assert_eq!(run.next(0x100), Action::Write { win: 0, offset: 8, value: 0x107 });
}

#[test]
fn a_branch_leaves_steps_out() {
    let steps = vec![
        Step::SkipIf { win: 0, offset: 0, mask: 2, want: 2, skip: 2 },
        write32(0, 4, 1),
        Step::Skip { skip: 1 },
        write32(0, 8, 1),
    ];
    let mut run = Sequencer::new(steps.clone());
    run.next(0);
    assert_eq!(run.next(2), Action::Write { win: 0, offset: 8, value: 1 });
    let mut run = Sequencer::new(steps);
    run.next(0);
    assert_eq!(run.next(0), Action::Write { win: 0, offset: 4, value: 1 });
    assert_eq!(run.next(0), Action::Finish { result: Ok(()) });
}

#[test]
fn words_are_read_back() {
    let mut bytes = vec![0u8; 16];
    put_bytes(&mut bytes, 3, &0x1234_5678u32.to_le_bytes());
    assert_eq!(get_le32(&bytes, 3), 0x1234_5678);
    put_bytes(&mut bytes, 8, &0x0102_0304_0506_0708u64.to_le_bytes());
    assert_eq!(get_le64(&bytes, 8), 0x0102_0304_0506_0708);
    assert_eq!(get_be32(&bytes, 8), 0x0807_0605);
    assert_eq!(copy_range(&bytes, 3, 7), vec![0x78, 0x56, 0x34, 0x12]);
}
