use rustquit::delay::{
    is_close_to, quit_delay_choices, quit_delay_index, restart_delay_choices, restart_delay_index,
};
use rustquit::double::Double;

fn double(value: f64) -> Double {
    Double { bits: value.to_bits() }
}

#[test]
fn choices_have_their_values_and_titles() {
    let quit: Vec<(f64, String)> = quit_delay_choices()
        .into_iter()
        .map(|choice| (f64::from_bits(choice.secs.bits), choice.title))
        .collect();
    assert_eq!(
        quit,
        vec![
            (0.05, "0.05 seconds".to_string()),
            (0.5, "0.5 seconds".to_string()),
            (1.0, "1 second".to_string()),
            (2.0, "2 seconds".to_string()),
            (3.0, "3 seconds".to_string()),
            (5.0, "5 seconds".to_string()),
            (10.0, "10 seconds".to_string()),
        ]
    );
    let restart: Vec<(f64, String)> = restart_delay_choices()
        .into_iter()
        .map(|choice| (f64::from_bits(choice.secs.bits), choice.title))
        .collect();
    assert_eq!(
        restart,
        vec![
            (5.0, "5 seconds".to_string()),
            (10.0, "10 seconds".to_string()),
            (30.0, "30 seconds".to_string()),
            (60.0, "1 minute".to_string()),
        ]
    );
}

#[test]
fn picked_delays_are_shown_as_picked() {
    for (i, choice) in quit_delay_choices().iter().enumerate() {
        assert_eq!(quit_delay_index(choice.secs), i);
    }
    for (i, choice) in restart_delay_choices().iter().enumerate() {
        assert_eq!(restart_delay_index(choice.secs), i);
    }
    // A delay that is close to none shows the default.
    assert_eq!(quit_delay_index(double(7.0)), 3);
    assert_eq!(restart_delay_index(double(7.0)), 1);
    assert_eq!(quit_delay_index(double(1.009)), 2);
    assert_eq!(quit_delay_index(double(f64::NAN)), 3);
    assert_eq!(restart_delay_index(double(f64::INFINITY)), 1);
}

#[test]
fn closeness_agrees_with_floating_point() {
    let choices = [0.05, 0.5, 1.0, 2.0, 3.0, 5.0, 10.0, 30.0, 60.0];
    let mut values = vec![0.0, -0.0, -1.0, 1e-320, 1e300, f64::MAX, f64::MIN, f64::INFINITY, f64::NAN];
    for choice in choices {
        for offset in [0.0, 0.005, 0.01, 0.0100000001, 0.0099999999, 0.02, -0.005, -0.01, -0.0099999999] {
            let value: f64 = choice + offset;
            values.push(value);
            values.push(f64::from_bits(value.to_bits() + 1));
            values.push(f64::from_bits(value.to_bits() - 1));
        }
    }
    for value in values {
        for choice in choices {
            assert_eq!(
                is_close_to(double(value), double(choice)),
                (choice - value).abs() < 0.01,
                "{value} {choice}"
            );
        }
    }
}
