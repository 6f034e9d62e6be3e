use foxtrot::freeze::{ActionsFrozen, FreezeOp};

#[test]
fn new_counter_is_not_frozen() {
    let counter = ActionsFrozen::new();
    assert!(!counter.is_frozen());
    assert!(!ActionsFrozen::default().is_frozen());
}

#[test]
fn nested_freezes_stay_frozen_until_fully_unwound() {
    let mut counter = ActionsFrozen::new();
    counter.freeze();
    assert!(counter.is_frozen());
    counter.freeze();
    counter.unfreeze();
    assert!(counter.is_frozen());
    counter.unfreeze();
    assert!(!counter.is_frozen());
}

#[test]
fn balanced_sequence_restores_frozen_state() {
    let ops = [
        FreezeOp::Freeze,
        FreezeOp::Freeze,
        FreezeOp::Unfreeze,
        FreezeOp::Freeze,
        FreezeOp::Unfreeze,
        FreezeOp::Unfreeze,
    ];
    let mut idle = ActionsFrozen::new();
    for op in ops {
        idle.apply(op);
    }
    assert!(!idle.is_frozen());

    let mut held = ActionsFrozen::new();
    held.freeze();
    for op in ops {
        held.apply(op);
    }
    assert!(held.is_frozen());
    held.unfreeze();
    assert!(!held.is_frozen());
}

#[test]
fn count_round_trips_through_with_count() {
    let c = ActionsFrozen::with_count(3);
    assert_eq!(c.freeze_count(), 3);
    assert!(c.is_frozen());
    assert!(!ActionsFrozen::with_count(0).is_frozen());
}
