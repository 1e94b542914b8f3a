use bleach_injector::sample::ONE;
use bleach_injector::store::{ParameterStore, Parameters};

#[test]
fn new_store_holds_one() {
    assert_eq!(ParameterStore::new().read(), Parameters { threshold: ONE });
    assert_eq!(ParameterStore::default().read().threshold, 1.0f32.to_bits());
}

#[test]
fn write_replaces_the_threshold() {
    let mut store = ParameterStore::new();
    store.write(2.5f32.to_bits());
    assert_eq!(store.read().threshold, 2.5f32.to_bits());
    store.write(0);
    assert_eq!(store.read().threshold, 0);
    store.write((-1.0f32).to_bits());
    assert_eq!(store.read().threshold, 0xbf80_0000);
    store.write(0x7fc0_0000);
    assert_eq!(store.read().threshold, 0x7fc0_0000);
}

#[test]
fn read_is_a_copy() {
    let mut store = ParameterStore::new();
    let before = store.read();
    store.write(7);
    assert_eq!(before.threshold, ONE);
    assert_eq!(store.read().threshold, 7);
}
