use vstd::prelude::*;

use crate::dummy::dummy_isr;
use crate::error::NetError;

verus! {

/// Flag a binding carries to allow other bindings on the same line.
pub const INTR_IRQ_SHARED: u16 = 0x0001;

/// Line reserved for the shutdown notification that terminates dispatch.
pub const INTR_IRQ_SHUTDOWN: i32 = 1;

/// First interrupt line available to device drivers.
pub const INTR_IRQ_BASE: i32 = 34;

/// Closed set of handler capabilities an interrupt entry can be bound to.
#[derive(Clone, Copy, Debug, PartialEq, Eq, Structural)]
pub enum IrqHandler {
    DummyIsr,
}

/// One interrupt-line binding: the line, the handler to invoke, the shared
/// flag, a human-readable name and the name of the owning device (a
/// non-owning back-reference; the registry does not control the device).
pub struct IrqEntry {
    pub irq: i32,
    pub handler: Option<IrqHandler>,
    pub flags: u16,
    pub name: String,
    pub dev: String,
}

/// Record of one handler dispatch: the line that fired, and the name and
/// owning device of the entry whose handler ran.
#[derive(Debug)]
pub struct IrqLog {
    pub irq: i32,
    pub name: String,
    pub dev: String,
}

/// What became of one delivered notification: the shutdown notification
/// terminates dispatch, a matching entry has its handler invoked, and a
/// notification no entry matches is dropped.
#[derive(Debug)]
pub enum IntrOutcome {
    Shutdown,
    Handled(IrqLog),
    Dropped,
}

/// Mathematical model of the interrupt registry: the bindings in traversal
/// order (newest first), the watched lines, the queued notifications in
/// arrival order, and whether the dispatcher has been started.
pub ghost struct IrqState {
    pub entries: Seq<IrqEntry>,
    pub signals: Seq<i32>,
    pub pending: Seq<i32>,
    pub running: bool,
}

/// The interrupt registry: the interrupt-line bindings, the set of lines the
/// dispatcher watches, and the portable notification queue `intr_raise_irq`
/// feeds and the dispatcher drains.
pub struct IrqEntryList {
    pub entries: Vec<IrqEntry>,
    pub signals: Vec<i32>,
    pub pending: Vec<i32>,
    pub running: bool,
}

impl View for IrqEntryList {
    type V = IrqState;

    open spec fn view(&self) -> IrqState {
        IrqState {
            entries: self.entries@,
            signals: self.signals@,
            pending: self.pending@,
            running: self.running,
        }
    }
}

/// A binding carries the shared flag exactly when its flags word equals
/// `INTR_IRQ_SHARED`.
pub open spec fn is_shared(flags: u16) -> bool {
    flags == INTR_IRQ_SHARED
}

/// A new binding on line `irq` with flags word `flags` conflicts with the
/// existing bindings exactly when some existing binding sits on the same line
/// and the two do not both carry the shared flag.
pub open spec fn irq_conflict(entries: Seq<IrqEntry>, irq: i32, flags: u16) -> bool {
    exists|i: int|
        0 <= i < entries.len() && entries[i].irq == irq && !(is_shared(entries[i].flags)
            && is_shared(flags))
}

/// Index of the first binding in traversal order that matches line `irq` and
/// carries a handler; `None` if no binding matches.
pub open spec fn first_match(entries: Seq<IrqEntry>, irq: i32) -> Option<int>
    decreases entries.len(),
{
    if entries.len() == 0 {
        None
    } else if entries[0].irq == irq && entries[0].handler is Some {
        Some(0)
    } else {
        match first_match(entries.drop_first(), irq) {
            Some(j) => Some(j + 1),
            None => None,
        }
    }
}

/// `first_match` finds exactly the first matching index: if every binding
/// before `k` fails to match and `k` (when in range) matches, the first match
/// is `k`, and a scan that ran off the end means there is none.
proof fn lemma_first_match_at(entries: Seq<IrqEntry>, irq: i32, k: int)
    requires
        0 <= k <= entries.len(),
        forall|j: int|
            0 <= j < k ==> !(entries[j].irq == irq && entries[j].handler is Some),
        k < entries.len() ==> entries[k].irq == irq && entries[k].handler is Some,
    ensures
        k < entries.len() ==> first_match(entries, irq) == Some(k),
        k == entries.len() ==> first_match(entries, irq) is None,
    decreases entries.len(),
{
    if entries.len() > 0 && k > 0 {
        let rest = entries.drop_first();
        assert forall|j: int| 0 <= j < k - 1 implies !(rest[j].irq == irq && rest[j].handler
            is Some) by {
            assert(rest[j] == entries[j + 1]);
        }
        lemma_first_match_at(rest, irq, k - 1);
    }
}

impl IrqEntryList {
    /// Build an interrupt registry with no bindings and nothing queued,
    /// watching only the shutdown line. Lines are added to the watch set as
    /// bindings are made.
    pub fn intr_init() -> (l: IrqEntryList)
        ensures
            l@.entries == Seq::<IrqEntry>::empty(),
            l@.signals == seq![INTR_IRQ_SHUTDOWN],
            l@.pending == Seq::<i32>::empty(),
            !l@.running,
    {
        let mut signals: Vec<i32> = Vec::new();
        signals.push(INTR_IRQ_SHUTDOWN);
        proof {
            assert(signals@ =~= seq![INTR_IRQ_SHUTDOWN]);
        }
        IrqEntryList { entries: Vec::new(), signals, pending: Vec::new(), running: false }
    }

    /// Bind a handler to an interrupt line. The line is scanned against the
    /// existing bindings: a binding on the same line blocks the new one with
    /// `ConflictError` unless both carry the shared flag. An accepted binding
    /// is placed at the front of the traversal order and its line is added to
    /// the watched set if not already present.
    #[verifier::loop_isolation(false)]
    pub fn intr_request_irq(
        &mut self,
        irq: i32,
        handler: Option<IrqHandler>,
        flags: u16,
        name: &str,
        dev: &str,
    ) -> (r: Result<(), NetError>)
        ensures
            irq_conflict(old(self)@.entries, irq, flags) ==> r == Err::<(), NetError>(
                NetError::ConflictError,
            ) && *final(self) == *old(self),
            !irq_conflict(old(self)@.entries, irq, flags) ==> {
                &&& r == Ok::<(), NetError>(())
                &&& final(self)@.entries.len() == old(self)@.entries.len() + 1
                &&& final(self)@.entries.drop_first() == old(self)@.entries
                &&& final(self)@.entries[0].irq == irq
                &&& final(self)@.entries[0].handler == handler
                &&& final(self)@.entries[0].flags == flags
                &&& final(self)@.entries[0].name@ == name@
                &&& final(self)@.entries[0].dev@ == dev@
                &&& final(self)@.signals == (if old(self)@.signals.contains(irq) {
                    old(self)@.signals
                } else {
                    old(self)@.signals.push(irq)
                })
                &&& final(self)@.pending == old(self)@.pending
                &&& final(self)@.running == old(self)@.running
            },
    {
        let n = self.entries.len();
        let mut i: usize = 0;
        while i < n
            invariant
                n == self.entries@.len(),
                forall|j: int|
                    0 <= j < i ==> !(self.entries@[j].irq == irq && !(is_shared(
                        self.entries@[j].flags,
                    ) && is_shared(flags))),
            decreases n - i,
        {
            let e = &self.entries[i];
            if e.irq == irq && (e.flags != INTR_IRQ_SHARED || flags != INTR_IRQ_SHARED) {
                return Err(NetError::ConflictError);
            }
            i += 1;
        }
        let entry = IrqEntry {
            irq,
            handler,
            flags,
            name: name.to_owned(),
            dev: dev.to_owned(),
        };
        self.entries.insert(0, entry);
        proof {
            assert(self.entries@.drop_first() =~= old(self).entries@);
        }
        let m = self.signals.len();
        let mut k: usize = 0;
        while k < m
            invariant
                m == self.signals@.len(),
                forall|j: int| 0 <= j < k ==> self.signals@[j] != irq,
            decreases m - k,
        {
            if self.signals[k] == irq {
                return Ok(());
            }
            k += 1;
        }
        self.signals.push(irq);
        Ok(())
    }

    /// Start the background dispatcher. In this portable model starting the
    /// dispatcher only marks it running; the caller's loop drains the queue
    /// with `intr_poll` and never blocks here.
    pub fn intr_run(&mut self)
        ensures
            final(self)@ == (IrqState { running: true, ..old(self)@ }),
    {
        self.running = true;
    }

    /// Deliver one notification for line `irq` to the bindings. The shutdown
    /// line terminates dispatch; any other line is matched against the
    /// bindings in traversal order and the first entry with a handler is
    /// invoked, once; a line no entry matches is dropped. A handler failure
    /// never terminates dispatch, so the bindings are never changed here.
    #[verifier::loop_isolation(false)]
    pub fn intr_dispatch(&mut self, irq: i32) -> (out: IntrOutcome)
        ensures
            irq == INTR_IRQ_SHUTDOWN ==> out is Shutdown && final(self)@ == (IrqState {
                running: false,
                ..old(self)@
            }),
            irq != INTR_IRQ_SHUTDOWN ==> {
                &&& *final(self) == *old(self)
                &&& match first_match(old(self)@.entries, irq) {
                    Some(i) => out matches IntrOutcome::Handled(log) && log.irq == irq
                        && log.name@ == old(self)@.entries[i].name@ && log.dev@ == old(
                        self,
                    )@.entries[i].dev@,
                    None => out is Dropped,
                }
            },
    {
        if irq == INTR_IRQ_SHUTDOWN {
            self.running = false;
            return IntrOutcome::Shutdown;
        }
        let n = self.entries.len();
        let mut i: usize = 0;
        while i < n
            invariant
                n == self.entries@.len(),
                forall|j: int|
                    0 <= j < i ==> !(self.entries@[j].irq == irq && self.entries@[j].handler
                        is Some),
            decreases n - i,
        {
            let e = &self.entries[i];
            if e.irq == irq {
                match e.handler {
                    Some(IrqHandler::DummyIsr) => {
                        let _ = dummy_isr(e.irq, e.dev.as_str());
                        proof {
                            lemma_first_match_at(self.entries@, irq, i as int);
                        }
                        return IntrOutcome::Handled(
                            IrqLog { irq, name: e.name.clone(), dev: e.dev.clone() },
                        );
                    },
                    None => {},
                }
            }
            i += 1;
        }
        proof {
            lemma_first_match_at(self.entries@, irq, n as int);
        }
        IntrOutcome::Dropped
    }

    /// Take the oldest queued notification, if any, and dispatch it. The
    /// caller's dispatcher loop calls this repeatedly; a `Shutdown` outcome
    /// tells it to stop, leaving any younger notifications undelivered.
    pub fn intr_poll(&mut self) -> (r: Option<IntrOutcome>)
        ensures
            old(self)@.pending.len() == 0 ==> r is None && *final(self) == *old(self),
            old(self)@.pending.len() > 0 ==> ({
                let sig = old(self)@.pending[0];
                &&& final(self)@.pending == old(self)@.pending.drop_first()
                &&& final(self)@.entries == old(self)@.entries
                &&& final(self)@.signals == old(self)@.signals
                &&& (sig == INTR_IRQ_SHUTDOWN ==> !final(self)@.running && (r matches Some(o) && o
                    is Shutdown))
                &&& (sig != INTR_IRQ_SHUTDOWN ==> final(self)@.running == old(self)@.running
                    && match first_match(old(self)@.entries, sig) {
                    Some(i) => r matches Some(o) && o matches IntrOutcome::Handled(log)
                        && log.irq == sig && log.name@ == old(self)@.entries[i].name@
                        && log.dev@ == old(self)@.entries[i].dev@,
                    None => r matches Some(o) && o is Dropped,
                })
            }),
    {
        if self.pending.len() == 0 {
            return None;
        }
        let sig = self.pending.remove(0);
        proof {
            assert(self.pending@ =~= old(self)@.pending.drop_first());
        }
        let out = self.intr_dispatch(sig);
        Some(out)
    }
}

/// Deliver a notification for line `irq` asynchronously: the notification is
/// queued and the caller never waits for, nor learns of, the handler run that
/// a dispatcher loop later performs.
pub fn intr_raise_irq(l: &mut IrqEntryList, irq: i32)
    ensures
        final(l)@ == (IrqState { pending: old(l)@.pending.push(irq), ..old(l)@ }),
{
    l.pending.push(irq);
}

/// Binding the same line twice. Against bindings none of which sits on line
/// `e1.irq`, a first binding `e1` is accepted; a second binding `e2` on the
/// same line is accepted exactly when both carry the shared flag, and when
/// both are accepted both bindings are retrievable from the registry.
pub proof fn lemma_bind_same_line(entries: Seq<IrqEntry>, e1: IrqEntry, e2: IrqEntry)
    requires
        e1.irq == e2.irq,
        forall|i: int| 0 <= i < entries.len() ==> entries[i].irq != e1.irq,
    ensures
        !irq_conflict(entries, e1.irq, e1.flags),
        ({
            let after1 = seq![e1] + entries;
            &&& (!irq_conflict(after1, e2.irq, e2.flags) <==> (is_shared(e1.flags) && is_shared(
                e2.flags,
            )))
            &&& ((is_shared(e1.flags) && is_shared(e2.flags)) ==> {
                let after2 = seq![e2] + after1;
                after2.contains(e1) && after2.contains(e2)
            })
        }),
{
    let after1 = seq![e1] + entries;
    if is_shared(e1.flags) && is_shared(e2.flags) {
        assert forall|i: int|
            0 <= i < after1.len() implies !(after1[i].irq == e2.irq && !(is_shared(after1[i].flags)
            && is_shared(e2.flags))) by {
            if i > 0 {
                assert(after1[i] == entries[i - 1]);
            }
        }
        let after2 = seq![e2] + after1;
        assert(after2[0] == e2);
        assert(after2[1] == e1);
        assert(after2.contains(e1));
        assert(after2.contains(e2));
    } else {
        assert(after1[0] == e1);
        assert(irq_conflict(after1, e2.irq, e2.flags));
    }
}

} // verus!
