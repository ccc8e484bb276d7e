use mqtt_core::id::{IdGenType, IdGenerator};

#[test]
fn basic() {
    let mut gen = IdGenerator::new(IdGenType::Broker);
    let id = gen.next_persistant_id();
    assert_eq!(id, Some(2));

    let mut gen = IdGenerator::new(IdGenType::Client);
    let id = gen.next_persistant_id();
    assert_eq!(id, Some(1));
}

#[test]
fn filled_then_unset() {
    let mut gen = IdGenerator::new(IdGenType::Broker);
    for _ in 0..=u16::MAX / 2 {
        gen.next_persistant_id();
    }

    assert_eq!(None, gen.next_id());
    for i in 0..=u16::MAX / 2 {
        if i % 2 == 0 {
            gen.free_id(i);
        }
    }

    assert_eq!(gen.next_persistant_id(), Some(2));

    let mut gen = IdGenerator::new(IdGenType::Client);
    for _ in 0..=u16::MAX / 2 {
        gen.next_persistant_id();
    }

    assert_eq!(None, gen.next_id());
    for i in 0..=u16::MAX {
        if i % 2 == 1 {
            gen.free_id(i);
        }
    }

    assert_eq!(gen.next_persistant_id(), Some(1));
}
