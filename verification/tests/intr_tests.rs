use microps::error::NetError;
use microps::intr::intr_raise_irq;
use microps::intr::IntrOutcome;
use microps::intr::IrqEntryList;
use microps::intr::IrqHandler;
use microps::intr::INTR_IRQ_BASE;
use microps::intr::INTR_IRQ_SHARED;
use microps::intr::INTR_IRQ_SHUTDOWN;

#[test]
fn init_watches_only_the_shutdown_line() {
    let list = IrqEntryList::intr_init();
    assert!(list.entries.is_empty());
    assert_eq!(list.signals, vec![INTR_IRQ_SHUTDOWN]);
    assert!(list.pending.is_empty());
    assert!(!list.running);
}

#[test]
fn bind_without_shared_flag_conflicts_on_second_bind() {
    let mut list = IrqEntryList::intr_init();
    let line = INTR_IRQ_BASE;
    assert!(matches!(
        list.intr_request_irq(line, Some(IrqHandler::DummyIsr), 0, "first", "a"),
        Ok(())
    ));
    let r = list.intr_request_irq(line, Some(IrqHandler::DummyIsr), 0, "second", "b");
    assert!(matches!(r, Err(NetError::ConflictError)));
    assert_eq!(list.entries.len(), 1);
}

#[test]
fn bind_shared_on_one_side_only_still_conflicts() {
    let mut list = IrqEntryList::intr_init();
    let line = INTR_IRQ_BASE;
    assert!(matches!(
        list.intr_request_irq(
            line,
            Some(IrqHandler::DummyIsr),
            INTR_IRQ_SHARED,
            "first",
            "a"
        ),
        Ok(())
    ));
    let r = list.intr_request_irq(line, Some(IrqHandler::DummyIsr), 0, "second", "b");
    assert!(matches!(r, Err(NetError::ConflictError)));
}

#[test]
fn bind_shared_on_both_sides_keeps_both_entries() {
    let mut list = IrqEntryList::intr_init();
    let line = INTR_IRQ_BASE;
    assert!(matches!(
        list.intr_request_irq(
            line,
            Some(IrqHandler::DummyIsr),
            INTR_IRQ_SHARED,
            "first",
            "a"
        ),
        Ok(())
    ));
    assert!(matches!(
        list.intr_request_irq(
            line,
            Some(IrqHandler::DummyIsr),
            INTR_IRQ_SHARED,
            "second",
            "b"
        ),
        Ok(())
    ));
    assert_eq!(list.entries.len(), 2);
    // Traversal order is newest first; both bindings are retrievable.
    assert_eq!(list.entries[0].name, "second");
    assert_eq!(list.entries[0].dev, "b");
    assert_eq!(list.entries[1].name, "first");
    assert_eq!(list.entries[1].dev, "a");
    assert_eq!(list.entries[0].irq, line);
    assert_eq!(list.entries[1].irq, line);
}

#[test]
fn bind_adds_the_line_to_the_watched_set_once() {
    let mut list = IrqEntryList::intr_init();
    let line = INTR_IRQ_BASE + 7;
    assert!(matches!(
        list.intr_request_irq(
            line,
            Some(IrqHandler::DummyIsr),
            INTR_IRQ_SHARED,
            "first",
            "a"
        ),
        Ok(())
    ));
    assert!(matches!(
        list.intr_request_irq(
            line,
            Some(IrqHandler::DummyIsr),
            INTR_IRQ_SHARED,
            "second",
            "b"
        ),
        Ok(())
    ));
    assert_eq!(list.signals, vec![INTR_IRQ_SHUTDOWN, line]);
}

#[test]
fn raise_then_poll_dispatches_the_handler_exactly_once() {
    let mut list = IrqEntryList::intr_init();
    let line = INTR_IRQ_BASE + 1;
    assert!(matches!(
        list.intr_request_irq(
            line,
            Some(IrqHandler::DummyIsr),
            INTR_IRQ_SHARED,
            "dummy",
            "dummy"
        ),
        Ok(())
    ));
    list.intr_run();
    assert!(list.running);
    intr_raise_irq(&mut list, line);
    match list.intr_poll() {
        Some(IntrOutcome::Handled(log)) => {
            assert_eq!(log.irq, line);
            assert_eq!(log.name, "dummy");
            assert_eq!(log.dev, "dummy");
        }
        other => panic!("expected a handled completion, got {:?}", other),
    }
    // Exactly once: nothing else is pending.
    assert!(list.intr_poll().is_none());
    assert!(list.running);
}

#[test]
fn shared_line_fans_out_to_the_first_entry_only() {
    let mut list = IrqEntryList::intr_init();
    let line = INTR_IRQ_BASE;
    assert!(matches!(
        list.intr_request_irq(
            line,
            Some(IrqHandler::DummyIsr),
            INTR_IRQ_SHARED,
            "older",
            "a"
        ),
        Ok(())
    ));
    assert!(matches!(
        list.intr_request_irq(
            line,
            Some(IrqHandler::DummyIsr),
            INTR_IRQ_SHARED,
            "newer",
            "b"
        ),
        Ok(())
    ));
    intr_raise_irq(&mut list, line);
    match list.intr_poll() {
        Some(IntrOutcome::Handled(log)) => {
            // Only the first entry in traversal order (the newest) is invoked.
            assert_eq!(log.name, "newer");
            assert_eq!(log.dev, "b");
        }
        other => panic!("expected a handled completion, got {:?}", other),
    }
    assert!(list.intr_poll().is_none());
}

#[test]
fn unmatched_notification_is_dropped() {
    let mut list = IrqEntryList::intr_init();
    intr_raise_irq(&mut list, INTR_IRQ_BASE + 3);
    assert!(matches!(list.intr_poll(), Some(IntrOutcome::Dropped)));
    assert!(list.intr_poll().is_none());
}

#[test]
fn entry_with_no_handler_does_not_dispatch() {
    let mut list = IrqEntryList::intr_init();
    let line = INTR_IRQ_BASE;
    assert!(matches!(
        list.intr_request_irq(line, None, INTR_IRQ_SHARED, "silent", "a"),
        Ok(())
    ));
    intr_raise_irq(&mut list, line);
    assert!(matches!(list.intr_poll(), Some(IntrOutcome::Dropped)));
}

#[test]
fn shutdown_notification_stops_the_dispatcher() {
    let mut list = IrqEntryList::intr_init();
    list.intr_run();
    intr_raise_irq(&mut list, INTR_IRQ_BASE);
    intr_raise_irq(&mut list, INTR_IRQ_SHUTDOWN);
    // Notifications are delivered oldest first.
    assert!(matches!(list.intr_poll(), Some(IntrOutcome::Dropped)));
    assert!(matches!(list.intr_poll(), Some(IntrOutcome::Shutdown)));
    assert!(!list.running);
    assert!(list.intr_poll().is_none());
}

#[test]
fn poll_on_an_empty_queue_returns_none() {
    let mut list = IrqEntryList::intr_init();
    assert!(list.intr_poll().is_none());
    assert!(list.entries.is_empty());
}

#[test]
fn dummy_isr_always_succeeds() {
    assert!(microps::dummy::dummy_isr(INTR_IRQ_BASE + 1, "dummy").is_ok());
}
