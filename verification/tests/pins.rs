use keyremap::pins::{InputPins, OutputPins};

#[test]
fn input_pin_always_reads_low() {
    let pin = InputPins;
    assert_eq!(pin.is_high(), Ok(false));
    assert_eq!(pin.is_low(), Ok(true));
}

#[test]
fn output_pin_takes_every_level() {
    let mut pin = OutputPins;
    assert_eq!(pin.set_high(), Ok(()));
    assert_eq!(pin.set_low(), Ok(()));
    assert_eq!(pin.set_high(), Ok(()));
}
