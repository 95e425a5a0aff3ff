use emu8::timers::Timers;

#[test]
fn delay_counts_down_and_stops_at_zero() {
    let mut t = Timers::new();
    t.set_delay(5);
    for _ in 0..5 {
        t.tick();
    }
    assert_eq!(t.get_delay(), 0);
    t.tick();
    assert_eq!(t.get_delay(), 0);
}

#[test]
fn sound_counts_down_independently() {
    let mut t = Timers::new();
    t.set_sound(3);
    t.set_delay(1);
    t.tick();
    t.tick();
    assert_eq!(t.get_delay(), 0);
    assert_eq!(t.sound, 1);
    t.tick();
    assert_eq!(t.sound, 0);
    t.tick();
    assert_eq!(t.sound, 0);
}

#[test]
fn fresh_timers_are_zero() {
    let t = Timers::new();
    assert_eq!(t.delay, 0);
    assert_eq!(t.sound, 0);
}
