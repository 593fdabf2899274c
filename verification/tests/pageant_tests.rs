use viewd::pageant::PageantMode;

struct MockController {
    pageant: PageantMode,
}

impl MockController {
    pub fn new() -> Self {
        let pageant = PageantMode::new();
        Self { pageant }
    }
}

#[test]
fn toggle_pageant() {
    let mut pageant = PageantMode::new();
    assert!(pageant.instant.is_none());
    pageant.toggle(0);
    assert!(pageant.instant.is_some());
}

#[test]
fn nested_update_pageant() {
    let mut control = MockController::new();
    assert!(control.pageant.instant.is_none());
    control.pageant.toggle(0);
    assert!(control.pageant.instant.is_some());
}

#[test]
fn pageant_timing() {
    let mut pageant = PageantMode::new();
    // Disarmed: never fires.
    assert!(!pageant.should_update(10_000));
    // Arm at time 5: not due immediately, nor just before the interval.
    pageant.toggle(5);
    assert!(!pageant.should_update(5));
    assert!(!pageant.should_update(1004));
    // Due once a full interval has passed.
    assert!(pageant.should_update(1005));
    assert!(pageant.should_update(50_000));
    // Resetting the trigger time starts a fresh interval.
    pageant.set_instant(2000);
    assert!(!pageant.should_update(2500));
    assert!(pageant.should_update(3000));
    // Disarming stops it.
    pageant.toggle(3000);
    assert!(!pageant.should_update(100_000));
}
