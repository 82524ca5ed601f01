//! The rules around in-app firmware flashing: only one flash at a time,
//! only onto a USB serial port, and the messages a failed flash reports.
//! Talking to the board is the caller's I/O.

use crate::serial::PortSummary;
use crate::text::{chars_equal, concat_str, str_chars};
use std::sync::atomic::{AtomicBool, Ordering};
use std::sync::Arc;
use vstd::prelude::*;

verus! {

/// Exclusive hold on the shared "flashing" flag, which makes the watchdog
/// step aside from the port. Taking it fails rather than overwrite a flag
/// that is already set; `release` clears it.
pub struct FlashingGuard(Arc<AtomicBool>);

impl FlashingGuard {
    /// The flag this guard holds.
    pub closed spec fn flag(&self) -> Arc<AtomicBool> {
        self.0
    }

    /// Claims `flag` with a compare-and-exchange from `false` to `true`.
    /// Whether another flash holds it is decided by the atomic operation at
    /// run time; the contract states what holds either way: success hands
    /// back a guard of this very flag, failure the error the frontend shows.
    pub fn try_new(flag: Arc<AtomicBool>) -> (res: Result<FlashingGuard, String>)
        ensures
            match res {
                Ok(g) => g.flag() == flag,
                Err(e) => e@ == "Firmware flash already in progress"@,
            },
    {
        match flag.compare_exchange(false, true, Ordering::Acquire, Ordering::Relaxed) {
            Ok(_) => Ok(FlashingGuard(flag)),
            Err(_) => Err("Firmware flash already in progress".to_owned()),
        }
    }

    /// Clears the flag, so the watchdog resumes; called when the guard's
    /// owner is done (also on unwinding, from the caller's drop).
    pub fn release(&self) {
        self.0.store(false, Ordering::Release);
    }
}

/// The message for a port that is not a USB serial port.
pub open spec fn not_usb_message(port_name: Seq<char>) -> Seq<char> {
    "'"@ + port_name + "' is not a USB serial port"@
}

/// Index of the first port named `port_name`.
pub open spec fn named_port(ports: Seq<PortSummary>, port_name: Seq<char>, i: int) -> bool {
    0 <= i < ports.len() && ports[i].port_name@ == port_name && forall|j: int|
        0 <= j < i ==> #[trigger] ports[j].port_name@ != port_name
}

/// Finds the port to flash: the first port named `port_name`, which must
/// be a USB serial port (flashing needs its USB identity).
pub fn find_flash_port(ports: &Vec<PortSummary>, port_name: &str) -> (res: Result<usize, String>)
    ensures
        match res {
            Ok(i) => named_port(ports@, port_name@, i as int) && ports@[i as int].is_usb,
            Err(e) => e@ == not_usb_message(port_name@) && forall|i: int|
                named_port(ports@, port_name@, i) ==> !ports@[i].is_usb,
        },
{
    let want = str_chars(port_name);
    let mut i: usize = 0;
    while i < ports.len()
        invariant
            i <= ports@.len(),
            want@ == port_name@,
            forall|j: int| 0 <= j < i ==> #[trigger] ports@[j].port_name@ != port_name@,
        decreases ports.len() - i,
    {
        let name = str_chars(ports[i].port_name.as_str());
        if chars_equal(name.as_slice(), want.as_slice()) {
            if ports[i].is_usb {
                return Ok(i);
            }
            let head = concat_str("'", port_name);
            return Err(concat_str(head.as_str(), "' is not a USB serial port"));
        }
        i = i + 1;
    }
    let head = concat_str("'", port_name);
    Err(concat_str(head.as_str(), "' is not a USB serial port"))
}

/// The message for a port that could not be opened within the retry
/// window: the last error, or `timed out` when there was none.
pub open spec fn open_failure(port_name: Seq<char>, last_error: Option<Seq<char>>) -> Seq<char> {
    "couldn't open "@ + port_name + ": "@ + match last_error {
        Some(e) => e,
        None => "timed out"@,
    }
}

/// The message for a port that could not be opened for flashing.
pub fn open_failure_message(port_name: &str, last_error: Option<String>) -> (res: String)
    ensures
        res@ == open_failure(
            port_name@,
            match last_error {
                Some(e) => Some(e@),
                None => None,
            },
        ),
{
    let head = concat_str("couldn't open ", port_name);
    let head = concat_str(head.as_str(), ": ");
    match last_error {
        Some(e) => concat_str(head.as_str(), e.as_str()),
        None => concat_str(head.as_str(), "timed out"),
    }
}

} // verus!
