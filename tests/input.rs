use blockgame::input::Press;

#[test]
fn pressed_key_becomes_kept() {
    let mut p = Press::PRESSED;
    p.update();
    assert_eq!(p, Press::KEPT);
}

#[test]
fn kept_and_up_keys_stay() {
    let mut k = Press::KEPT;
    k.update();
    assert_eq!(k, Press::KEPT);
    let mut u = Press::UP;
    u.update();
    assert_eq!(u, Press::UP);
}
