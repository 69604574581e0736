use myosa::steering::{drive_outputs, encoder_step, is_arm_command, shape_pwm, CommandState, DriveAction, Note};

#[test]
fn drive_commands() {
    let mut s = CommandState::new();
    assert_eq!(s.round(Some('w'), 12), vec![DriveAction::Drive(50, 0), DriveAction::Report(Note::Forwards)]);
    assert!(!s.d_update);
    assert_eq!(s.round(None, 12), vec![DriveAction::Drive(50, 0), DriveAction::Report(Note::Forwards)]);
    assert_eq!(s.round(Some('s'), 12), vec![DriveAction::Drive(0, 50), DriveAction::Report(Note::Reverse)]);
    assert_eq!(s.round(Some('n'), 12), vec![DriveAction::Drive(0, 0), DriveAction::Report(Note::Neutral)]);
    assert_eq!(s.round(Some('x'), 12), vec![]);
}

#[test]
fn steering_and_locks() {
    let mut s = CommandState::new();
    assert_eq!(s.round(Some('a'), 12), vec![DriveAction::Steer(true, false), DriveAction::Report(Note::Left)]);
    assert_eq!(s.round(Some('a'), 15), vec![DriveAction::Steer(false, false)]);
    assert_eq!(
        s.round(Some('a'), 16),
        vec![DriveAction::Steer(false, false), DriveAction::Report(Note::MaxLockLeft)]
    );
    assert_eq!(s.round(Some('d'), 10), vec![DriveAction::Steer(false, true), DriveAction::Report(Note::Right)]);
    assert_eq!(
        s.round(Some('d'), 9),
        vec![DriveAction::Steer(false, false), DriveAction::Report(Note::MaxLockRight)]
    );
    assert_eq!(s.round(Some('m'), 12), vec![DriveAction::Steer(false, false), DriveAction::Report(Note::Hold)]);
    assert_eq!(s.round(Some('b'), 12), vec![]);
    assert!(s.s_update);
}

#[test]
fn encoder_direction() {
    assert_eq!(encoder_step(true, false), 1);
    assert_eq!(encoder_step(true, true), -1);
    assert_eq!(encoder_step(false, true), 0);
    assert_eq!(encoder_step(false, false), 0);
}

#[test]
fn pwm_shaping_and_outputs() {
    assert_eq!(shape_pwm(10, true), 35);
    assert_eq!(shape_pwm(10, false), -35);
    assert_eq!(shape_pwm(120, true), 120);
    assert_eq!(shape_pwm(900, false), -200);
    assert_eq!(shape_pwm(-5, true), 35);
    assert_eq!(drive_outputs(120), (120, 0));
    assert_eq!(drive_outputs(-35), (0, 35));
    assert_eq!(drive_outputs(0), (0, 0));
    assert_eq!(drive_outputs(300), (255, 0));
    assert_eq!(drive_outputs(-1000), (0, 255));
}

#[test]
fn arming_command() {
    let c = |s: &str| s.chars().collect::<Vec<char>>();
    assert!(is_arm_command(&c("ARM")));
    assert!(is_arm_command(&c("  ARM\r\n")));
    assert!(is_arm_command(&c("\u{3000}ARM\t")));
    assert!(!is_arm_command(&c("arm")));
    assert!(!is_arm_command(&c("AR M")));
    assert!(!is_arm_command(&c("ARMS")));
    assert!(!is_arm_command(&c("")));
    for s in ["ARM", " ARM ", "x ARM", "ARM\n", "\u{85}ARM"] {
        assert_eq!(is_arm_command(&c(s)), s.trim() == "ARM");
    }
}
