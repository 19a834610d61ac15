use gfoc::control::{
    commutation_step, get_pwms, phase_output, step_phases, ChannelOutput, PhaseCommand, Sector,
    Step,
};

#[test]
fn hall_levels_and_codes_agree() {
    for code in 0usize..8 {
        let (a, b, c) = (code & 1 != 0, code & 2 != 0, code & 4 != 0);
        assert_eq!(Sector::from_bools(a, b, c), Sector::from_usize(code));
    }
}

#[test]
fn hall_table() {
    assert_eq!(Sector::from_usize(0), None);
    assert_eq!(Sector::from_usize(1), None);
    assert_eq!(Sector::from_usize(2), Some(Sector::Sector2));
    assert_eq!(Sector::from_usize(3), Some(Sector::Sector1));
    assert_eq!(Sector::from_usize(4), Some(Sector::Sector4));
    assert_eq!(Sector::from_usize(5), Some(Sector::Sector5));
    assert_eq!(Sector::from_usize(6), Some(Sector::Sector3));
    assert_eq!(Sector::from_usize(7), None);
    assert_eq!(Sector::from_usize(8), None);
    assert_eq!(Sector::from_usize(usize::MAX), None);
    assert_eq!(Sector::from_bools(false, true, true), Some(Sector::Sector3));
    get_pwms(Sector::Sector0);
}

#[test]
fn six_step_table() {
    assert_eq!(step_phases(Step::S1, 5), (PhaseCommand::HighPwm(5), PhaseCommand::LowOn, PhaseCommand::Float));
    assert_eq!(step_phases(Step::S2, 5), (PhaseCommand::HighPwm(5), PhaseCommand::Float, PhaseCommand::LowOn));
    assert_eq!(step_phases(Step::S3, 5), (PhaseCommand::Float, PhaseCommand::HighPwm(5), PhaseCommand::LowOn));
    assert_eq!(step_phases(Step::S4, 5), (PhaseCommand::LowOn, PhaseCommand::HighPwm(5), PhaseCommand::Float));
    assert_eq!(step_phases(Step::S5, 5), (PhaseCommand::LowOn, PhaseCommand::Float, PhaseCommand::HighPwm(5)));
    assert_eq!(step_phases(Step::S6, 5), (PhaseCommand::Float, PhaseCommand::LowOn, PhaseCommand::HighPwm(5)));
}

#[test]
fn phase_outputs_cap_the_duty() {
    assert_eq!(phase_output(PhaseCommand::Float, 100), ChannelOutput::Disabled);
    assert_eq!(phase_output(PhaseCommand::HighPwm(40), 100), ChannelOutput::Enabled { duty: 40 });
    assert_eq!(phase_output(PhaseCommand::HighPwm(400), 100), ChannelOutput::Enabled { duty: 100 });
    assert_eq!(phase_output(PhaseCommand::LowOn, 100), ChannelOutput::Enabled { duty: 0 });
    assert_eq!(phase_output(PhaseCommand::HighOn, 100), ChannelOutput::Enabled { duty: 100 });
}

#[test]
fn commutation_advances_one_step() {
    let steps = [Step::S1, Step::S2, Step::S3, Step::S4, Step::S5, Step::S6];
    for sector in 0usize..20 {
        assert_eq!(commutation_step(sector), steps[(sector + 1) % 6]);
    }
    assert_eq!(commutation_step(5), Step::S1);
}
