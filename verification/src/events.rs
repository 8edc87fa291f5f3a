//! What the sampler does when something happens: the periodic tick, the two
//! menu entries and the termination signal.
//!
//! Every event takes one sample first. What follows depends on the event and
//! on whether the battery could be read; the caller carries it out.

use vstd::prelude::*;
use crate::report::{document_text, render};
use crate::store::{update_now, ReadError, SampleStore};

verus! {

/// Seconds between two periodic samples.
pub const SAMPLING_INTERVAL_SECONDS: u64 = 300;

/// Where the rendered report is written, replacing what was there.
pub const REPORT_PATH: &'static str = "/tmp/battery_report.html";

/// What can ask for a sample.
#[derive(Clone, Copy, Debug, PartialEq, Eq, Structural)]
pub enum Event {
    /// The sampling interval has passed.
    Tick,
    /// The menu entry that shows the report.
    ShowReport,
    /// The menu entry that shows the report and quits.
    Quit,
    /// The termination signal.
    Terminate,
}

/// What the caller has to do after an event was handled.
#[derive(Debug)]
pub enum Action {
    /// Nothing: go on sampling.
    Continue,
    /// Write the document to the report path and open it; leave with exit
    /// code 0 afterwards if `then_exit` is set.
    Publish { document: String, then_exit: bool },
    /// Leave with exit code 0.
    Exit,
    /// Give up: the battery could not be read.
    Fail { error: ReadError },
}

/// Whether an event ends in a published report when the battery was read.
pub open spec fn publishes(event: Event) -> bool {
    event == Event::ShowReport || event == Event::Quit
}

/// Handles one event, given the outcome of reading the battery for it.
///
/// The reading is stored as by `update_now`. The termination signal then
/// leaves in any case. Any other event gives up if the reading failed; a
/// menu entry publishes the report of the store as it is after the update,
/// and only the quitting one leaves afterwards; a tick just goes on.
pub fn respond(
    store: &mut SampleStore,
    event: Event,
    charge: Result<u8, ReadError>,
    template: &str,
    chart_asset: &str,
) -> (action: Action)
    ensures
        charge matches Ok(percent) ==> {
            &&& final(store)@ == old(store)@.push(final(store)@.last())
            &&& final(store)@.last().charge == percent
            &&& final(store)@.last().timestamp.wf()
        },
        charge is Err ==> final(store)@ == old(store)@,
        event == Event::Terminate ==> action is Exit,
        event != Event::Terminate ==> (charge matches Err(e) ==> action == (Action::Fail {
            error: e,
        })),
        event == Event::Tick && charge is Ok ==> action is Continue,
        publishes(event) && charge is Ok ==> (action matches Action::Publish {
            document,
            then_exit,
        } && then_exit == (event == Event::Quit) && document@ == document_text(
            final(store)@,
            template@,
            chart_asset@,
        )),
{
    let updated = update_now(store, charge);
    match event {
        Event::Terminate => Action::Exit,
        Event::Tick => match updated {
            Ok(()) => Action::Continue,
            Err(error) => Action::Fail { error },
        },
        Event::ShowReport | Event::Quit => match updated {
            Err(error) => Action::Fail { error },
            Ok(()) => match render(store, template, chart_asset) {
                Ok(document) => Action::Publish { document, then_exit: event == Event::Quit },
                // A store always has a report.
                Err(_) => Action::Continue,
            },
        },
    }
}

} // verus!
