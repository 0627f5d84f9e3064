//! The interface every panel module offers, and the result of an update.
use vstd::prelude::*;

verus! {

/// The result of one module update.
#[derive(Debug, Clone)]
pub struct ModuleUpdate {
    /// The module's id.
    pub id: String,
    /// Whether the update succeeded.
    pub success: bool,
    /// The error, when there is one.
    pub error: Option<String>,
}

/// The refresh interval in effect: 0 while paused, else the one set.
pub open spec fn effective_interval<M: PanelModule + ?Sized>(m: &M) -> u64 {
    if m.spec_paused() {
        0
    } else {
        m.spec_stored_interval()
    }
}

/// The state every module keeps for the panel: its id and name, its refresh
/// interval (seconds) with a pause switch, its height and its last error.
///
/// Rendering and fetching data belong to the program around the library; this
/// trait carries what the panel decides on.
pub trait PanelModule {
    /// The module's id.
    spec fn spec_id(&self) -> Seq<char>;

    /// The module's display name.
    spec fn spec_name(&self) -> Seq<char>;

    /// The refresh interval as set, paused or not.
    spec fn spec_stored_interval(&self) -> u64;

    /// Whether automatic refreshing is paused.
    spec fn spec_paused(&self) -> bool;

    /// The height in rows.
    spec fn spec_height(&self) -> u16;

    /// The last error.
    spec fn spec_error(&self) -> Option<Seq<char>>;

    fn id(&self) -> (r: &str)
        ensures
            r@ == self.spec_id(),
    ;

    fn name(&self) -> (r: &str)
        ensures
            r@ == self.spec_name(),
    ;

    /// The refresh interval in seconds; 0 means paused.
    fn refresh_interval(&self) -> (r: u64)
        ensures
            r == (if self.spec_paused() { 0 } else { self.spec_stored_interval() }),
    ;

    /// Sets the refresh interval; a positive interval resumes a paused module.
    fn set_refresh_interval(&mut self, interval: u64)
        ensures
            final(self).spec_stored_interval() == interval,
            (if final(self).spec_paused() { 0 } else { final(self).spec_stored_interval() }) == interval,
            interval > 0 ==> !final(self).spec_paused(),
            final(self).spec_id() == old(self).spec_id(),
            final(self).spec_name() == old(self).spec_name(),
            final(self).spec_height() == old(self).spec_height(),
    ;

    /// Whether the module is paused: its interval in effect is 0.
    fn is_paused(&self) -> (r: bool)
        ensures
            r == (self.spec_paused() || self.spec_stored_interval() == 0),
    {
        self.refresh_interval() == 0
    }

    /// Pauses a running module, resumes a paused one.
    fn toggle_pause(&mut self)
        ensures
            final(self).spec_paused() == !old(self).spec_paused(),
            final(self).spec_stored_interval() == old(self).spec_stored_interval(),
            final(self).spec_id() == old(self).spec_id(),
            final(self).spec_name() == old(self).spec_name(),
            final(self).spec_height() == old(self).spec_height(),
    ;

    /// The module's height in rows.
    fn height(&self) -> (r: u16)
        ensures
            r == self.spec_height(),
    ;

    /// The last error, if any.
    fn get_error(&self) -> (r: Option<&str>)
        ensures
            match r {
                Some(e) => self.spec_error() == Some(e@),
                None => self.spec_error() is None,
            },
    ;
}

} // verus!
