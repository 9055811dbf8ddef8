//! Waiting for the choice of the wheel device to settle: remappers may start
//! asynchronously, so enumeration and grabs are given time to settle without
//! depending on a particular remapper or kernel version.
use crate::device::{optional_view, Candidate, SelectionError};
use vstd::prelude::*;

verus! {

/// Nanoseconds in a millisecond.
pub const NANOS_PER_MILLI: u128 = 1_000_000;

/// No choice is made before this much time has passed, in nanoseconds.
pub const SETTLE_MIN: u128 = 2_000_000_000;

/// The choice must have stayed the same for this long, in nanoseconds.
pub const STABLE_FOR: u128 = 1_000_000_000;

/// After this long the waiting gives up, in nanoseconds.
pub const GIVE_UP_AFTER: u128 = 10_000_000_000;

/// Pause between two scans, in nanoseconds.
pub const POLL_INTERVAL: u128 = 250_000_000;

/// Whether two candidates are equal, comparing texts by their characters.
pub open spec fn same_candidate(a: Candidate, b: Candidate) -> bool {
    &&& a.path@ == b.path@
    &&& a.name@ == b.name@
    &&& a.vendor == b.vendor
    &&& a.product == b.product
    &&& optional_view(a.usb_source) == optional_view(b.usb_source)
    &&& a.is_virtual == b.is_virtual
}

/// Whether two optional candidates are equal.
pub open spec fn same_choice(a: Option<Candidate>, b: Option<Candidate>) -> bool {
    match (a, b) {
        (Some(x), Some(y)) => same_candidate(x, y),
        (None, None) => true,
        _ => false,
    }
}

/// `a - b`, or zero when `b` is later than `a`.
pub open spec fn time_since(a: int, b: int) -> int {
    if a >= b {
        a - b
    } else {
        0
    }
}

/// What to do after one scan.
#[derive(Debug, Clone, PartialEq, Eq)]
pub enum SettleStep {
    /// Use the device at this path.
    Chosen(String),
    /// Give up, with the reason.
    Failed(SettleError),
    /// Scan again after `POLL_INTERVAL`.
    Wait,
}

/// Why waiting for a wheel device gave up.
#[derive(Debug, Clone, PartialEq, Eq)]
pub enum SettleError {
    /// The last scan allowed no choice.
    Selection(SelectionError),
    /// A device was found, but the choice did not stay the same long enough.
    Unstable,
}

/// The choice of the last scans and since when it has stayed the same.
pub struct Settling {
    previous: Option<Candidate>,
    stable_since: u128,
}

impl View for Settling {
    type V = (Option<Candidate>, int);

    closed spec fn view(&self) -> (Option<Candidate>, int) {
        (self.previous, self.stable_since as int)
    }
}

fn copy_text(s: &String) -> (r: String)
    ensures
        r == *s,
{
    s.clone()
}

fn copy_candidate(c: &Candidate) -> (r: Candidate)
    ensures
        r == *c,
{
    let usb_source = match &c.usb_source {
        Some(s) => Some(copy_text(s)),
        None => None,
    };
    Candidate {
        path: copy_text(&c.path),
        name: copy_text(&c.name),
        vendor: c.vendor,
        product: c.product,
        usb_source,
        is_virtual: c.is_virtual,
    }
}

fn same_text(a: &String, b: &String) -> (r: bool)
    ensures
        r == (a@ == b@),
{
    *a == *b
}

fn same(a: &Option<Candidate>, b: &Option<Candidate>) -> (r: bool)
    ensures
        r == same_choice(*a, *b),
{
    match (a, b) {
        (Some(x), Some(y)) => {
            let sources = match (&x.usb_source, &y.usb_source) {
                (Some(s), Some(t)) => same_text(s, t),
                (None, None) => true,
                _ => false,
            };
            same_text(&x.path, &y.path) && same_text(&x.name, &y.name) && x.vendor == y.vendor
                && x.product == y.product && sources && x.is_virtual == y.is_virtual
        },
        (None, None) => true,
        _ => false,
    }
}

/// The candidate that a scan chose, if any.
pub open spec fn chosen_of(selection: Result<&Candidate, SelectionError>) -> Option<Candidate> {
    match selection {
        Ok(c) => Some(*c),
        Err(_) => None,
    }
}

impl Settling {
    /// Nothing chosen yet, at the start of the waiting.
    pub fn new() -> (s: Self)
        ensures
            s@ == (None::<Candidate>, 0int),
    {
        Settling { previous: None, stable_since: 0 }
    }

    /// Takes the result of the scan made `elapsed` nanoseconds after the
    /// start. A device is used once at least `SETTLE_MIN` has passed and the
    /// choice has stayed the same for `STABLE_FOR`; after `GIVE_UP_AFTER`
    /// the waiting ends with the scan's reason, or as unstable.
    pub fn step(&mut self, elapsed: u128, selection: Result<&Candidate, SelectionError>) -> (s:
        SettleStep)
        ensures
            ({
                let current = chosen_of(selection);
                let changed = !same_choice(old(self)@.0, current);
                let since = if changed {
                    elapsed as int
                } else {
                    old(self)@.1
                };
                &&& final(self)@ == (if changed {
                    current
                } else {
                    old(self)@.0
                }, since)
                &&& if elapsed >= SETTLE_MIN && time_since(elapsed as int, since) >= STABLE_FOR
                    && selection is Ok {
                    s matches SettleStep::Chosen(path) && path@ == current->0.path@
                } else if elapsed >= GIVE_UP_AFTER {
                    match selection {
                        Err(e) => s == SettleStep::Failed(SettleError::Selection(e)),
                        Ok(_) => s == SettleStep::Failed(SettleError::Unstable),
                    }
                } else {
                    s == SettleStep::Wait
                }
            }),
    {
        let current = match &selection {
            Ok(c) => Some(copy_candidate(c)),
            Err(_) => None,
        };
        if !same(&current, &self.previous) {
            self.stable_since = elapsed;
            self.previous = current;
        }
        let stable_for = if elapsed >= self.stable_since {
            elapsed - self.stable_since
        } else {
            0
        };
        if elapsed >= SETTLE_MIN && stable_for >= STABLE_FOR {
            if let Ok(c) = &selection {
                return SettleStep::Chosen(copy_text(&c.path));
            }
        }
        if elapsed >= GIVE_UP_AFTER {
            return match selection {
                Err(e) => SettleStep::Failed(SettleError::Selection(e)),
                Ok(_) => SettleStep::Failed(SettleError::Unstable),
            };
        }
        SettleStep::Wait
    }
}

} // verus!
