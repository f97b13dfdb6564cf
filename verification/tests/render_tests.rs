use rustboss::input::{control_of_key, control_of_signal, Key, Signal};
use rustboss::render::{progress_line, u32_to_dec};
use rustboss::sequencer::ControlEvent;

#[test]
fn decimal_rendering_exact() {
    assert_eq!(u32_to_dec(0), "0");
    assert_eq!(u32_to_dec(7), "7");
    assert_eq!(u32_to_dec(10), "10");
    assert_eq!(u32_to_dec(305), "305");
    assert_eq!(u32_to_dec(u32::MAX), "4294967295");
}

#[test]
fn decimal_rendering_round_trips_through_parse() {
    for n in [0u32, 1, 9, 10, 999, 1000, 65535, u32::MAX] {
        let s = u32_to_dec(n);
        assert_eq!(rustboss::config::parse_uint(&s, u32::MAX), Some(n));
    }
}

#[test]
fn progress_line_exact() {
    assert_eq!(progress_line(10), "Time Remaining: 10\r\n");
    assert_eq!(progress_line(0), "Time Remaining: 0\r\n");
}

#[test]
fn key_mapping() {
    assert_eq!(control_of_key(Key::Space), Some(ControlEvent::Toggle));
    assert_eq!(control_of_key(Key::LowerQ), Some(ControlEvent::Quit));
    assert_eq!(control_of_key(Key::Esc), Some(ControlEvent::Quit));
    assert_eq!(control_of_key(Key::Other), None);
}

#[test]
fn signal_mapping() {
    assert_eq!(control_of_signal(Signal::Hangup), ControlEvent::Toggle);
    assert_eq!(control_of_signal(Signal::Interrupt), ControlEvent::Quit);
    assert_eq!(control_of_signal(Signal::Terminate), ControlEvent::Quit);
}
