use lamparray::ui::{Controls, Focus, Key, Mode};

#[test]
fn modes_and_labels() {
    let modes = Mode::all();
    assert_eq!(modes, [Mode::Static, Mode::Rainbow, Mode::Breathe, Mode::Off]);
    assert_eq!(Mode::Static.label(), "Static");
    assert_eq!(Mode::Breathe.desc(), "Pulsing glow");
    assert!(Mode::Rainbow.animated());
    assert!(!Mode::Off.animated());
}

#[test]
fn selection_stays_in_the_list() {
    let mut c = Controls::new();
    assert_eq!(c.mode(), Mode::Static);
    assert_eq!(c.on_key(Key::Up), 0);
    assert_eq!(c.selected(), 0);
    for _ in 0..10 {
        c.on_key(Key::Down);
    }
    assert_eq!(c.mode(), Mode::Off);
}

#[test]
fn sliders_move_and_clamp() {
    let mut c = Controls::new();
    assert_eq!((c.sat(), c.bri(), c.focus()), (100, 85, Focus::Hue));
    assert_eq!(c.on_key(Key::Right), 1);
    assert_eq!(c.on_key(Key::Left), -1);
    c.on_key(Key::Tab);
    assert_eq!(c.focus(), Focus::Sat);
    c.on_key(Key::Right);
    assert_eq!(c.sat(), 100);
    c.on_key(Key::Left);
    assert_eq!(c.sat(), 95);
    c.on_key(Key::Char(' '));
    assert_eq!(c.focus(), Focus::Bri);
    for _ in 0..20 {
        c.on_key(Key::Left);
    }
    assert_eq!(c.bri(), 0);
    c.on_key(Key::Char(' '));
    assert_eq!(c.focus(), Focus::Hue);
}

#[test]
fn quitting() {
    let mut c = Controls::new();
    c.on_key(Key::Char('x'));
    assert!(!c.quit());
    c.on_key(Key::Esc);
    assert!(c.quit());
    let mut c = Controls::new();
    c.on_key(Key::Char('q'));
    assert!(c.quit());
}

#[test]
fn up_undoes_down() {
    let mut c = Controls::new();
    c.on_key(Key::Down);
    assert_eq!(c.mode(), Mode::Rainbow);
    c.on_key(Key::Up);
    assert_eq!(c.mode(), Mode::Static);
}
