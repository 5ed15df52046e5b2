use cyberpixie::{
    proto::types::Hertz,
    time::{count_down_steps, delay_steps, Microseconds, Milliseconds},
};

#[test]
fn time_units() {
    assert_eq!(Microseconds::from_hertz(Hertz(50)), Microseconds(20_000));
    assert_eq!(Milliseconds::from_hertz(Hertz(50)), Milliseconds(20));
    assert_eq!(Milliseconds(4).to_hertz(), Hertz(250));
    assert_eq!(Microseconds(1_000).to_hertz(), Hertz(1_000));
    assert_eq!(Microseconds::from_millis(Milliseconds(3)), Microseconds(3_000));
    assert_eq!(Milliseconds::from(7), Milliseconds(7));
}

#[test]
fn count_down_in_steps() {
    assert_eq!(count_down_steps(500, 1_000), vec![Hertz(2)]);
    assert_eq!(
        count_down_steps(2_500, 1_000),
        vec![Hertz(1_000), Hertz(1_000), Hertz(2)]
    );
    assert_eq!(count_down_steps(1_000, 1_000), vec![Hertz(1)]);
}

#[test]
fn delay_in_steps() {
    // 1.5 ms: the seconds part is empty; 1 ms, then the 1500 us of the fraction.
    assert_eq!(delay_steps(0, 1_500_000), vec![Hertz(1_000), Hertz(666)]);
    // 2 s exactly.
    assert_eq!(
        delay_steps(2, 0),
        vec![Hertz(1_000), Hertz(1)]
    );
}
