use remu::chip8::keyboard::Keyboard;

#[test]
fn keys_press_and_release() {
    let mut k = Keyboard::new();
    for i in 0..16 {
        assert!(!k.is_pressed(i));
    }
    k.press(5);
    assert!(k.is_pressed(5));
    assert!(!k.is_pressed(4));
    k.press(15);
    assert!(k.is_pressed(15));
    k.release(5);
    assert!(!k.is_pressed(5));
    assert!(k.is_pressed(15));
}

#[test]
fn halt_latch() {
    let mut k = Keyboard::new();
    assert!(!k.halted());
    k.halt();
    assert!(k.halted());
    k.resume();
    assert!(!k.halted());
}
