//! Returning any connected LCD to its persisted hardware screen after
//! streaming: the hardware-mode reports, which interfaces to try, and the
//! order in which attempts are made and reported.

use vstd::prelude::*;
use crate::device::{feature_report, make_feature_report, names_supported_lcd};
use crate::text::{ascii_upper, chars_of, decimal, push_decimal, push_str, string_of, to_ascii_upper};

verus! {

/// First hardware-mode report of the restore sequence: `03 1E 01 01`.
pub fn hardware_mode_packet_1() -> (packet: [u8; 32])
    ensures
        packet@ == feature_report(0x03, 0x1e, 0x01, 0x01),
{
    make_feature_report(0x03, 0x1e, 0x01, 0x01)
}

/// Second hardware-mode report (session control, 0 = hardware mode): `03 1D 00 01`.
pub fn hardware_mode_packet_2() -> (packet: [u8; 32])
    ensures
        packet@ == feature_report(0x03, 0x1d, 0x00, 0x01),
{
    make_feature_report(0x03, 0x1d, 0x00, 0x01)
}

/// The interface paths, in order, whose ASCII upper case names a supported LCD.
pub fn restore_candidates(paths: &Vec<String>) -> (r: Vec<String>)
    ensures
        r@.map_values(|s: String| s@) == paths@.map_values(|s: String| s@).filter(
            |p: Seq<char>| names_supported_lcd(ascii_upper(p)),
        ),
{
    let ghost pred = |p: Seq<char>| names_supported_lcd(ascii_upper(p));
    let ghost views = paths@.map_values(|s: String| s@);
    let mut r: Vec<String> = Vec::new();
    for i in 0..paths.len()
        invariant
            views == paths@.map_values(|s: String| s@),
            pred == (|p: Seq<char>| names_supported_lcd(ascii_upper(p))),
            r@.map_values(|s: String| s@) == views.take(i as int).filter(pred),
    {
        let chars = chars_of(paths[i].as_str());
        let upper = to_ascii_upper(&chars);
        let ok = crate::device::upper_path_is_supported(&upper);
        assert(views.take(i + 1).drop_last() =~= views.take(i as int));
        reveal_with_fuel(Seq::filter, 1);
        if ok {
            let p = paths[i].clone();
            r.push(p);
            assert(r@.map_values(|s: String| s@) =~= views.take(i as int).filter(pred).push(views[i as int]));
        } else {
            assert(r@.map_values(|s: String| s@) =~= views.take(i as int).filter(pred));
        }
    }
    assert(views.take(paths.len() as int) =~= views);
    r
}

/// Why restoring hardware mode failed.
#[derive(Debug, PartialEq, Eq)]
pub enum RestoreError {
    /// No interface path names a supported LCD.
    NoDevice,
    /// Every candidate failed; the last failure's text.
    Failed(String),
    /// Every candidate failed without any error text.
    Unknown,
}

/// What to do next while restoring hardware mode.
#[derive(Debug, PartialEq, Eq)]
pub enum RestoreStep {
    /// Open candidate `index`, send both hardware-mode reports (10 ms apart),
    /// close it, and report the outcome.
    Try(usize),
    /// The LCD accepted the reports: wait 20 ms for it to swap screens; done.
    Succeeded,
    /// Give up with this error.
    Failed(RestoreError),
}

/// The state of one restore run over `count` candidates.
pub struct RestoreRun {
    pub count: usize,
    pub index: usize,
    pub last_error: String,
}

impl RestoreRun {
    /// Starts a run over `count` candidates: try the first, or fail when none.
    pub fn start(count: usize) -> (r: (RestoreRun, RestoreStep))
        ensures
            r.0.count == count,
            r.0.index == 0,
            r.0.last_error@.len() == 0,
            count == 0 ==> r.1 == RestoreStep::Failed(RestoreError::NoDevice),
            count > 0 ==> r.1 == RestoreStep::Try(0),
    {
        let run = RestoreRun { count, index: 0, last_error: String::new() };
        if count == 0 {
            (run, RestoreStep::Failed(RestoreError::NoDevice))
        } else {
            (run, RestoreStep::Try(0))
        }
    }

    /// Records the outcome of trying candidate `self.index`: stop at the
    /// first success; otherwise remember the error and try the next
    /// candidate, failing with the last error after the last one.
    pub fn record(&mut self, outcome: Result<(), String>) -> (step: RestoreStep)
        requires
            old(self).index < old(self).count,
        ensures
            final(self).count == old(self).count,
            outcome is Ok ==> step == RestoreStep::Succeeded && final(self).index == old(self).index,
            outcome matches Err(e) ==> {
                &&& final(self).last_error@ == e@
                &&& final(self).index == old(self).index + 1
                &&& final(self).index < final(self).count ==> step == RestoreStep::Try(final(self).index)
                &&& final(self).index == final(self).count ==> (
                    if e@.len() == 0 {
                        step == RestoreStep::Failed(RestoreError::Unknown)
                    } else {
                        step == RestoreStep::Failed(RestoreError::Failed(e))
                    })
            },
    {
        match outcome {
            Ok(()) => RestoreStep::Succeeded,
            Err(e) => {
                self.last_error = e.clone();
                self.index = self.index + 1;
                if self.index < self.count {
                    RestoreStep::Try(self.index)
                } else if e.as_str().is_empty() {
                    RestoreStep::Failed(RestoreError::Unknown)
                } else {
                    RestoreStep::Failed(RestoreError::Failed(e))
                }
            }
        }
    }
}

/// One candidate of a sweep that tries every LCD interface: `None` when it
/// could not be opened, else the outcome of switching it to hardware mode.
pub type SweepAttempt = Option<Result<(), String>>;

/// The attempt opened its interface and switched it to hardware mode.
pub open spec fn is_success(a: SweepAttempt) -> bool {
    a matches Some(Ok(_))
}

/// The last error text among the attempts (empty when there is none).
pub open spec fn last_sweep_error(attempts: Seq<SweepAttempt>) -> Seq<char>
    decreases attempts.len(),
{
    if attempts.len() == 0 {
        Seq::empty()
    } else {
        match attempts.last() {
            Some(Err(e)) => e@,
            _ => last_sweep_error(attempts.drop_last()),
        }
    }
}

/// Why a sweep over every interface failed.
#[derive(Debug, PartialEq, Eq)]
pub enum SweepError {
    NoDevice,
    Failed(String),
    NoneOpened,
}

/// The result of switching every candidate interface to hardware mode:
/// success if any switch succeeded, else the last error text, else (when
/// no interface could be opened) `NoneOpened`; `NoDevice` without candidates.
pub fn sweep_outcome(attempts: &Vec<SweepAttempt>) -> (r: Result<(), SweepError>)
    ensures
        attempts@.len() == 0 ==> r == Err::<(), SweepError>(SweepError::NoDevice),
        attempts@.len() > 0 ==> match r {
            Ok(()) => exists|i: int| 0 <= i < attempts@.len() && is_success(#[trigger] attempts@[i]),
            Err(SweepError::Failed(e)) => (forall|i: int| 0 <= i < attempts@.len() ==> !is_success(#[trigger] attempts@[i]))
                && e@ == last_sweep_error(attempts@) && e@.len() > 0,
            Err(SweepError::NoneOpened) => (forall|i: int| 0 <= i < attempts@.len() ==> !is_success(#[trigger] attempts@[i]))
                && last_sweep_error(attempts@).len() == 0,
            Err(SweepError::NoDevice) => false,
        },
{
    if attempts.len() == 0 {
        return Err(SweepError::NoDevice);
    }
    let mut succeeded = false;
    let mut last_error = String::new();
    for i in 0..attempts.len()
        invariant
            succeeded <==> exists|j: int| 0 <= j < i && is_success(#[trigger] attempts@[j]),
            last_error@ == last_sweep_error(attempts@.take(i as int)),
    {
        assert(attempts@.take(i + 1).drop_last() =~= attempts@.take(i as int));
        match &attempts[i] {
            Some(Ok(())) => {
                assert(is_success(attempts@[i as int]));
                succeeded = true;
            }
            Some(Err(e)) => {
                assert(!is_success(attempts@[i as int]));
                last_error = e.clone();
            }
            None => {
                assert(!is_success(attempts@[i as int]));
            }
        }
    }
    assert(attempts@.take(attempts@.len() as int) =~= attempts@);
    if succeeded {
        Ok(())
    } else if !last_error.as_str().is_empty() {
        Err(SweepError::Failed(last_error))
    } else {
        Err(SweepError::NoneOpened)
    }
}

impl RestoreError {
    /// The error text.
    pub fn message(&self) -> (s: String)
        ensures
            s@ == (match self {
                RestoreError::NoDevice => "No supported Corsair LCD found"@,
                RestoreError::Failed(e) => e@,
                RestoreError::Unknown => "Unable to restore Corsair LCD hardware mode"@,
            }),
    {
        match self {
            RestoreError::NoDevice => String::from_str("No supported Corsair LCD found"),
            RestoreError::Failed(e) => e.clone(),
            RestoreError::Unknown => String::from_str("Unable to restore Corsair LCD hardware mode"),
        }
    }
}

/// The failure recorded when an interface cannot be opened.
pub fn open_failure(code: u32) -> (s: String)
    ensures
        s@ == "Could not open Corsair LCD (Windows error "@ + decimal(code as nat) + ")"@,
{
    let mut v: Vec<char> = Vec::new();
    push_str(&mut v, "Could not open Corsair LCD (Windows error ");
    push_decimal(&mut v, code as u64);
    push_str(&mut v, ")");
    string_of(&v)
}

impl SweepError {
    /// The error text.
    pub fn message(&self) -> (s: String)
        ensures
            s@ == (match self {
                SweepError::NoDevice => "No supported Corsair LCD found"@,
                SweepError::Failed(e) => e@,
                SweepError::NoneOpened => "Unable to open any Corsair LCD interface (check if iCUE has exclusive access)"@,
            }),
    {
        match self {
            SweepError::NoDevice => String::from_str("No supported Corsair LCD found"),
            SweepError::Failed(e) => e.clone(),
            SweepError::NoneOpened => String::from_str(
                "Unable to open any Corsair LCD interface (check if iCUE has exclusive access)",
            ),
        }
    }
}

} // verus!
