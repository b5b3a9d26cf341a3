//! What the guardian remembers from one reconcile pass to the next: how many repairs of each driver
//! have failed in a row, and what its wheels are. A restart of the process forgets it.
use crate::error::{ErrorView, GuardianError};
use crate::text::same_text;
use crate::wheelcache::{portability_result, Portability};
use vstd::hash_map::StringHashMap;
use vstd::prelude::*;

verus! {

/// After so many failed repairs in a row, a driver is left alone until the process restarts.
pub const MAX_CONSECUTIVE_REPAIR_FAILURES: u32 = 3;

/// The wheels of a driver: the image that they were downloaded with, and whether they can be kept
/// when it changes.
#[derive(Debug)]
pub struct WheelSet {
    pub image: String,
    pub portability: Portability,
}

/// A [`WheelSet`] with its text as a sequence of characters.
pub struct WheelSetView {
    pub image: Seq<char>,
    pub portability: Portability,
}

impl View for WheelSet {
    type V = WheelSetView;

    open spec fn view(&self) -> WheelSetView {
        WheelSetView { image: self.image@, portability: self.portability }
    }
}

/// The failed repairs in a row and the wheels, by driver.
pub struct ReconcileState {
    consecutive_failures: StringHashMap<u32>,
    wheels: StringHashMap<WheelSet>,
}

/// A [`ReconcileState`] as maps from the names of the drivers.
#[verifier::ext_equal]
pub struct Memory {
    pub failures: Map<Seq<char>, u32>,
    pub wheels: Map<Seq<char>, WheelSetView>,
}

/// The views of some wheels.
pub open spec fn wheels_view(m: Map<Seq<char>, WheelSet>) -> Map<Seq<char>, WheelSetView> {
    m.map_values(|w: WheelSet| w@)
}

impl View for ReconcileState {
    type V = Memory;

    closed spec fn view(&self) -> Memory {
        Memory { failures: self.consecutive_failures@, wheels: wheels_view(self.wheels@) }
    }
}

/// Nothing is remembered.
pub open spec fn nothing() -> Memory {
    Memory { failures: Map::empty(), wheels: Map::empty() }
}

/// The failed repairs in a row of one driver.
pub open spec fn failures_of(m: Memory, driver: Seq<char>) -> u32 {
    if m.failures.dom().contains(driver) {
        m.failures[driver]
    } else {
        0
    }
}

/// Whether a driver is left alone.
pub open spec fn backs_off(m: Memory, driver: Seq<char>) -> bool {
    failures_of(m, driver) >= MAX_CONSECUTIVE_REPAIR_FAILURES
}

/// One more failed repair of a driver.
pub open spec fn bumped(m: Memory, driver: Seq<char>) -> Memory {
    Memory {
        failures: m.failures.insert(driver, (failures_of(m, driver) + 1) as u32),
        wheels: m.wheels,
    }
}

/// No failed repairs of a driver any more.
pub open spec fn forgiven(m: Memory, driver: Seq<char>) -> Memory {
    Memory { failures: m.failures.remove(driver), wheels: m.wheels }
}

/// The wheels of a driver, downloaded with the given image and found to be of the given kind. Of
/// wheels whose kind cannot be told nothing is remembered.
pub open spec fn refreshed(
    m: Memory,
    driver: Seq<char>,
    image: Seq<char>,
    portability: Result<Portability, ErrorView>,
) -> Memory {
    Memory {
        failures: m.failures,
        wheels: match portability {
            Ok(portability) => m.wheels.insert(driver, WheelSetView { image, portability }),
            Err(_) => m.wheels.remove(driver),
        },
    }
}

/// Whether the wheels of a driver belong to another image than this one.
pub open spec fn outdated(m: Memory, driver: Seq<char>, image: Seq<char>) -> bool {
    &&& m.wheels.dom().contains(driver)
    &&& m.wheels[driver].portability == Portability::VersionPinned
    &&& m.wheels[driver].image != image
}

/// Whether every recorded number of failed repairs is at least one, and none is more than it takes
/// for the driver to be left alone.
pub open spec fn bounded(m: Memory) -> bool {
    forall|d: Seq<char>| #[trigger]
        m.failures.dom().contains(d) ==> 1 <= m.failures[d] <= MAX_CONSECUTIVE_REPAIR_FAILURES
}

impl Default for ReconcileState {
    /// Nothing is remembered yet.
    fn default() -> (r: ReconcileState)
        ensures
            r@ == nothing(),
    {
        let r = ReconcileState {
            consecutive_failures: StringHashMap::new(),
            wheels: StringHashMap::new(),
        };
        assert(r@ =~= nothing());
        r
    }
}

impl ReconcileState {
    /// The failed repairs in a row of one driver.
    pub fn failures(&self, driver: &str) -> (r: u32)
        ensures
            r == failures_of(self@, driver@),
    {
        match self.consecutive_failures.get(driver) {
            Some(n) => *n,
            None => 0,
        }
    }

    /// Whether a driver is left alone.
    pub fn backing_off(&self, driver: &str) -> (r: bool)
        ensures
            r == backs_off(self@, driver@),
    {
        self.failures(driver) >= MAX_CONSECUTIVE_REPAIR_FAILURES
    }

    /// Whether the wheels of a driver belong to another image than this one.
    pub fn wheels_outdated(&self, driver: &str, image: &str) -> (r: bool)
        ensures
            r == outdated(self@, driver@, image@),
    {
        match self.wheels.get(driver) {
            Some(w) => w.portability == Portability::VersionPinned && !same_text(
                w.image.as_str(),
                image,
            ),
            None => false,
        }
    }

    /// Forgets the failed repairs of a driver.
    pub fn forget(&mut self, driver: &str)
        ensures
            final(self)@ == forgiven(old(self)@, driver@),
    {
        self.consecutive_failures.remove(driver);
    }

    /// Remembers the wheels of a driver.
    pub fn remember(
        &mut self,
        driver: &str,
        image: &str,
        portability: &Result<Portability, GuardianError>,
    )
        ensures
            final(self)@ == refreshed(
                old(self)@,
                driver@,
                image@,
                portability_result(*portability),
            ),
    {
        let ghost before = self.wheels@;
        match portability {
            Ok(portability) => {
                self.wheels.insert(
                    driver.to_owned(),
                    WheelSet { image: image.to_owned(), portability: *portability },
                );
                assert(wheels_view(self.wheels@) =~= wheels_view(before).insert(
                    driver@,
                    WheelSetView { image: image@, portability: *portability },
                ));
            },
            Err(_) => {
                self.wheels.remove(driver);
                assert(wheels_view(self.wheels@) =~= wheels_view(before).remove(driver@));
            },
        }
    }
}

/// Counts one more failed repair of a driver.
pub fn bump_failure(state: &mut ReconcileState, driver: &str)
    requires
        failures_of(old(state)@, driver@) < u32::MAX,
    ensures
        final(state)@ == bumped(old(state)@, driver@),
{
    let n: u32 = state.failures(driver);
    state.consecutive_failures.insert(driver.to_owned(), n + 1);
}

/// Forgetting the failed repairs of a driver keeps the bound.
pub proof fn lemma_forgetting(m: Memory, driver: Seq<char>)
    requires
        bounded(m),
    ensures
        bounded(forgiven(m, driver)),
        forall|d: Seq<char>|
            d != driver ==> #[trigger] failures_of(forgiven(m, driver), d) == failures_of(m, d),
{
    let f = forgiven(m, driver).failures;
    assert forall|d: Seq<char>| #[trigger] f.dom().contains(d) implies 1 <= f[d]
        <= MAX_CONSECUTIVE_REPAIR_FAILURES by {
        assert(m.failures.dom().contains(d));
    }
}

/// One more failed repair of a driver that is not left alone keeps the bound.
pub proof fn lemma_bumping(m: Memory, driver: Seq<char>)
    requires
        bounded(m),
        !backs_off(m, driver),
    ensures
        bounded(bumped(m, driver)),
        failures_of(bumped(m, driver), driver) == failures_of(m, driver) + 1,
        forall|d: Seq<char>|
            d != driver ==> #[trigger] failures_of(bumped(m, driver), d) == failures_of(m, d),
{
    let f = bumped(m, driver).failures;
    assert forall|d: Seq<char>| #[trigger] f.dom().contains(d) implies 1 <= f[d]
        <= MAX_CONSECUTIVE_REPAIR_FAILURES by {
        if d != driver {
            assert(m.failures.dom().contains(d));
        }
    }
}

/// What is remembered of wheels changes no number of failed repairs.
pub proof fn lemma_refreshing(
    m: Memory,
    driver: Seq<char>,
    image: Seq<char>,
    portability: Result<Portability, ErrorView>,
)
    ensures
        bounded(m) ==> bounded(refreshed(m, driver, image, portability)),
        forall|d: Seq<char>| #[trigger]
            failures_of(refreshed(m, driver, image, portability), d) == failures_of(m, d),
{
}

} // verus!
