//! The browser simulator's input state: the simulated touch panel's
//! press/move/release machine, and the per-app Wi-Fi phases.

use vstd::prelude::*;

use crate::touch::RawTouchEvent;

verus! {

/// Where the simulated pointer interaction stands.
#[derive(Clone, Copy, Debug, Eq, PartialEq)]
pub enum InteractionState {
    /// No pointer is down.
    Ready,
    /// A pointer is down; moves are reported.
    PointerDown,
    /// Input is ignored until the pointer is released.
    WaitingForFreshPress,
}

/// The simulated touch panel: the interaction state, the last raw point,
/// and the queue of raw events the touch driver has yet to read.
pub struct CydTouchWasmSource {
    interaction_state: InteractionState,
    latest_raw_point: Option<(u16, u16)>,
    raw_touch_events: Vec<RawTouchEvent>,
}

impl CydTouchWasmSource {
    pub closed spec fn spec_state(&self) -> InteractionState {
        self.interaction_state
    }

    pub closed spec fn spec_latest_raw_point(&self) -> Option<(u16, u16)> {
        self.latest_raw_point
    }

    /// The queued raw events, oldest first.
    pub closed spec fn spec_events(&self) -> Seq<RawTouchEvent> {
        self.raw_touch_events@
    }

    /// A panel with no pointer down and no queued events.
    #[must_use]
    pub fn new() -> (source: Self)
        ensures
            source.spec_state() == InteractionState::Ready,
            source.spec_latest_raw_point() is None,
            source.spec_events() == Seq::<RawTouchEvent>::empty(),
    {
        Self {
            interaction_state: InteractionState::Ready,
            latest_raw_point: None,
            raw_touch_events: Vec::new(),
        }
    }

    /// A pointer goes down at a raw point: reported unless the panel waits
    /// for a fresh press.
    pub fn touch_down(&mut self, x: u16, y: u16)
        ensures
            old(self).spec_state() == InteractionState::WaitingForFreshPress ==> *final(self)
                == *old(self),
            old(self).spec_state() != InteractionState::WaitingForFreshPress ==> {
                &&& final(self).spec_state() == InteractionState::PointerDown
                &&& final(self).spec_latest_raw_point() == Some((x, y))
                &&& final(self).spec_events() == old(self).spec_events().push(
                    RawTouchEvent::Down { raw_x: x, raw_y: y },
                )
            },
    {
        match self.interaction_state {
            InteractionState::WaitingForFreshPress => return,
            InteractionState::Ready | InteractionState::PointerDown => {
                self.interaction_state = InteractionState::PointerDown;
            },
        }
        self.latest_raw_point = Some((x, y));
        self.raw_touch_events.push(RawTouchEvent::Down { raw_x: x, raw_y: y });
    }

    /// The pointer moves to a raw point: reported only while it is down.
    pub fn touch_move(&mut self, x: u16, y: u16)
        ensures
            old(self).spec_state() != InteractionState::PointerDown ==> *final(self) == *old(self),
            old(self).spec_state() == InteractionState::PointerDown ==> {
                &&& final(self).spec_state() == InteractionState::PointerDown
                &&& final(self).spec_latest_raw_point() == Some((x, y))
                &&& final(self).spec_events() == old(self).spec_events().push(
                    RawTouchEvent::Move { raw_x: x, raw_y: y },
                )
            },
    {
        match self.interaction_state {
            InteractionState::PointerDown => {},
            _ => return,
        }
        self.latest_raw_point = Some((x, y));
        self.raw_touch_events.push(RawTouchEvent::Move { raw_x: x, raw_y: y });
    }

    /// The pointer is released: the panel is ready again, and the release is
    /// reported unless the panel was waiting for a fresh press.
    pub fn touch_up(&mut self)
        ensures
            final(self).spec_state() == InteractionState::Ready,
            final(self).spec_latest_raw_point() is None,
            old(self).spec_state() == InteractionState::WaitingForFreshPress ==> final(self).spec_events() == old(self).spec_events(),
            old(self).spec_state() != InteractionState::WaitingForFreshPress ==> final(self).spec_events() == old(self).spec_events().push(RawTouchEvent::Up),
    {
        let interaction_state = self.interaction_state;
        self.interaction_state = InteractionState::Ready;
        self.latest_raw_point = None;
        match interaction_state {
            InteractionState::WaitingForFreshPress => return,
            _ => {},
        }
        self.raw_touch_events.push(RawTouchEvent::Up);
    }

    /// Drops queued events and ignores input until the pointer is released.
    pub fn wait_for_fresh_press(&mut self)
        ensures
            final(self).spec_state() == InteractionState::WaitingForFreshPress,
            final(self).spec_latest_raw_point() is None,
            final(self).spec_events() == Seq::<RawTouchEvent>::empty(),
    {
        self.raw_touch_events.clear();
        self.latest_raw_point = None;
        self.interaction_state = InteractionState::WaitingForFreshPress;
    }

    /// The last raw point reported while the pointer is down.
    pub fn latest_raw_point(&self) -> (point: Option<(u16, u16)>)
        ensures
            point == self.spec_latest_raw_point(),
    {
        self.latest_raw_point
    }

    /// Takes the oldest queued raw event, if any.
    pub fn take_event(&mut self) -> (event: Option<RawTouchEvent>)
        ensures
            old(self).spec_events().len() == 0 ==> event is None && *final(self) == *old(self),
            old(self).spec_events().len() > 0 ==> {
                &&& event == Some(old(self).spec_events()[0])
                &&& final(self).spec_events() == old(self).spec_events().drop_first()
                &&& final(self).spec_state() == old(self).spec_state()
                &&& final(self).spec_latest_raw_point() == old(self).spec_latest_raw_point()
            },
    {
        if self.raw_touch_events.len() == 0 {
            return None;
        }
        let event = self.raw_touch_events.remove(0);
        proof {
            assert(self.raw_touch_events@ =~= old(self).raw_touch_events@.drop_first());
        }
        Some(event)
    }
}

/// How a simulated Wi-Fi connection attempt ended.
#[derive(Clone, Copy, Debug, Eq, PartialEq)]
pub enum WifiConnectOutcome {
    Connected,
    ResetRequested,
}

/// Where a simulated app's Wi-Fi connection stands.
#[derive(Clone, Copy, Debug, Eq, PartialEq)]
pub enum WifiSimulatorPhase {
    Disconnected,
    CaptivePortal,
    Connecting,
    Connected,
}

/// The Wi-Fi phase of each simulated app, keyed by its storage namespace.
pub struct WifiSimulatorPhases {
    entries: Vec<(String, WifiSimulatorPhase)>,
}

impl WifiSimulatorPhases {
    #[verifier::type_invariant]
    closed spec fn keys_distinct(self) -> bool {
        forall|i: int, j: int|
            0 <= i < j < self.entries@.len() ==> (#[trigger] self.entries@[i]).0@
                != (#[trigger] self.entries@[j]).0@
    }

    /// The phase recorded for each namespace.
    pub closed spec fn view(&self) -> Map<Seq<char>, WifiSimulatorPhase> {
        Map::new(
            |namespace: Seq<char>|
                exists|i: int| 0 <= i < self.entries@.len() && self.entries@[i].0@ == namespace,
            |namespace: Seq<char>|
                self.entries@[choose|i: int|
                    0 <= i < self.entries@.len() && self.entries@[i].0@ == namespace].1,
        )
    }

    /// A registry with no phases recorded.
    pub fn new() -> (phases: Self)
        ensures
            phases@ == Map::<Seq<char>, WifiSimulatorPhase>::empty(),
    {
        let phases = Self { entries: Vec::new() };
        assert(phases@ =~= Map::<Seq<char>, WifiSimulatorPhase>::empty());
        phases
    }

    fn find(&self, storage_namespace: &str) -> (index: Option<usize>)
        ensures
            index matches Some(i) ==> i < self.entries@.len() && self.entries@[i as int].0@
                == storage_namespace@,
            index is None ==> forall|i: int|
                0 <= i < self.entries@.len() ==> self.entries@[i].0@ != storage_namespace@,
    {
        let wanted = storage_namespace.to_owned();
        let mut index = 0usize;
        while index < self.entries.len()
            invariant
                index <= self.entries@.len(),
                wanted@ == storage_namespace@,
                forall|i: int| 0 <= i < index ==> self.entries@[i].0@ != storage_namespace@,
            decreases self.entries@.len() - index,
        {
            if self.entries[index].0 == wanted {
                return Some(index);
            }
            index += 1;
        }
        None
    }

    /// The phase of the app with this namespace; an app never seen is
    /// disconnected.
    pub fn phase(&self, storage_namespace: &str) -> (phase: WifiSimulatorPhase)
        ensures
            self@.contains_key(storage_namespace@) ==> phase == self@[storage_namespace@],
            !self@.contains_key(storage_namespace@) ==> phase == WifiSimulatorPhase::Disconnected,
    {
        proof {
            use_type_invariant(self);
        }
        match self.find(storage_namespace) {
            Some(index) => {
                proof {
                    let chosen = choose|i: int|
                        0 <= i < self.entries@.len() && self.entries@[i].0@
                            == storage_namespace@;
                    assert(self.entries@[index as int].0@ == storage_namespace@);
                    if chosen != index {
                        if chosen < index {
                            assert(self.entries@[chosen].0@ != self.entries@[index as int].0@);
                        } else {
                            assert(self.entries@[index as int].0@ != self.entries@[chosen].0@);
                        }
                    }
                }
                self.entries[index].1
            },
            None => WifiSimulatorPhase::Disconnected,
        }
    }

    /// Records the phase of the app with this namespace.
    pub fn set_phase(&mut self, storage_namespace: &str, phase: WifiSimulatorPhase)
        ensures
            final(self)@ == old(self)@.insert(storage_namespace@, phase),
    {
        proof {
            use_type_invariant(&*self);
        }
        let ghost old_entries = self.entries@;
        match self.find(storage_namespace) {
            Some(index) => {
                let namespace = self.entries[index].0.clone();
                proof {
                    assert(namespace@ == storage_namespace@);
                }
                let mut entries: Vec<(String, WifiSimulatorPhase)> = Vec::new();
                core::mem::swap(&mut entries, &mut self.entries);
                entries.set(index, (namespace, phase));
                self.entries = entries;
                proof {
                    assert forall|key: Seq<char>| #[trigger] self@.contains_key(key) == old(self)@.insert(
                        storage_namespace@,
                        phase,
                    ).contains_key(key) by {
                        if exists|i: int| 0 <= i < old_entries.len() && old_entries[i].0@ == key {
                            let i = choose|i: int| 0 <= i < old_entries.len() && old_entries[i].0@ == key;
                            if i == index {
                                assert(self.entries@[i].0@ == key);
                            } else {
                                assert(self.entries@[i] == old_entries[i]);
                            }
                        }
                        if exists|i: int| 0 <= i < self.entries@.len() && self.entries@[i].0@ == key {
                            let i = choose|i: int| 0 <= i < self.entries@.len() && self.entries@[i].0@ == key;
                            if i != index {
                                assert(self.entries@[i] == old_entries[i]);
                            }
                        }
                    }
                    assert(self@.dom() =~= old(self)@.insert(storage_namespace@, phase).dom());
                    assert forall|key: Seq<char>| #[trigger] self@.contains_key(key) implies self@[key]
                        == old(self)@.insert(storage_namespace@, phase)[key] by {
                        let j = choose|i: int| 0 <= i < self.entries@.len() && self.entries@[i].0@ == key;
                        if key == storage_namespace@ {
                            if j != index {
                                if j < index {
                                    assert(self.entries@[j].0@ != self.entries@[index as int].0@);
                                } else {
                                    assert(self.entries@[index as int].0@ != self.entries@[j].0@);
                                }
                            }
                        } else {
                            assert(j != index);
                            assert(self.entries@[j] == old_entries[j]);
                            let k = choose|i: int| 0 <= i < old_entries.len() && old_entries[i].0@ == key;
                            if k != j {
                                if k < j {
                                    assert(old_entries[k].0@ != old_entries[j].0@);
                                } else {
                                    assert(old_entries[j].0@ != old_entries[k].0@);
                                }
                            }
                        }
                    }
                    assert(self@ =~= old(self)@.insert(storage_namespace@, phase));
                }
            },
            None => {
                let mut entries: Vec<(String, WifiSimulatorPhase)> = Vec::new();
                core::mem::swap(&mut entries, &mut self.entries);
                entries.push((storage_namespace.to_owned(), phase));
                self.entries = entries;
                proof {
                    let n = old_entries.len() as int;
                    assert forall|key: Seq<char>| #[trigger] self@.contains_key(key) == old(self)@.insert(
                        storage_namespace@,
                        phase,
                    ).contains_key(key) by {
                        if exists|i: int| 0 <= i < old_entries.len() && old_entries[i].0@ == key {
                            let i = choose|i: int| 0 <= i < old_entries.len() && old_entries[i].0@ == key;
                            assert(self.entries@[i] == old_entries[i]);
                        }
                        if key == storage_namespace@ {
                            assert(self.entries@[n].0@ == key);
                        }
                        if exists|i: int| 0 <= i < self.entries@.len() && self.entries@[i].0@ == key {
                            let i = choose|i: int| 0 <= i < self.entries@.len() && self.entries@[i].0@ == key;
                            if i < n {
                                assert(self.entries@[i] == old_entries[i]);
                            }
                        }
                    }
                    assert(self@.dom() =~= old(self)@.insert(storage_namespace@, phase).dom());
                    assert forall|key: Seq<char>| #[trigger] self@.contains_key(key) implies self@[key]
                        == old(self)@.insert(storage_namespace@, phase)[key] by {
                        let j = choose|i: int| 0 <= i < self.entries@.len() && self.entries@[i].0@ == key;
                        if key == storage_namespace@ {
                            if j < n {
                                assert(self.entries@[j] == old_entries[j]);
                            }
                        } else {
                            assert(j < n);
                            assert(self.entries@[j] == old_entries[j]);
                            let k = choose|i: int| 0 <= i < old_entries.len() && old_entries[i].0@ == key;
                            if k != j {
                                if k < j {
                                    assert(old_entries[k].0@ != old_entries[j].0@);
                                } else {
                                    assert(old_entries[j].0@ != old_entries[k].0@);
                                }
                            }
                        }
                    }
                    assert(self@ =~= old(self)@.insert(storage_namespace@, phase));
                }
            },
        }
    }
}

/// A simulated app's Wi-Fi, identified by its storage namespace.
pub struct WifiSimulatorWasm {
    storage_namespace: &'static str,
}

impl WifiSimulatorWasm {
    /// The namespace the app stores its state under.
    pub closed spec fn spec_namespace(&self) -> Seq<char> {
        self.storage_namespace@
    }

    /// The simulated Wi-Fi of the app with this namespace.
    #[must_use]
    pub fn new(storage_namespace: &'static str) -> (simulator: Self)
        ensures
            simulator.spec_namespace() == storage_namespace@,
    {
        Self { storage_namespace }
    }

    /// Forgets this app's connection.
    pub fn reset(&self, phases: &mut WifiSimulatorPhases)
        ensures
            final(phases)@ == old(phases)@.insert(
                self.spec_namespace(),
                WifiSimulatorPhase::Disconnected,
            ),
    {
        phases.set_phase(self.storage_namespace, WifiSimulatorPhase::Disconnected);
    }

    /// This app's phase.
    pub fn phase(&self, phases: &WifiSimulatorPhases) -> (phase: WifiSimulatorPhase)
        ensures
            phases@.contains_key(self.spec_namespace()) ==> phase == phases@[self.spec_namespace()],
            !phases@.contains_key(self.spec_namespace()) ==> phase
                == WifiSimulatorPhase::Disconnected,
    {
        phases.phase(self.storage_namespace)
    }

    /// Records this app's phase.
    pub fn set_phase(&self, phases: &mut WifiSimulatorPhases, phase: WifiSimulatorPhase)
        ensures
            final(phases)@ == old(phases)@.insert(self.spec_namespace(), phase),
    {
        phases.set_phase(self.storage_namespace, phase);
    }
}

/// The simulated Wi-Fi state is scoped by storage namespace: recording a
/// phase for one app leaves every other app's phase as it was, and the app
/// reads back what was recorded.
pub proof fn law_wifi_phase_is_scoped_by_namespace(
    before: Map<Seq<char>, WifiSimulatorPhase>,
    namespace: Seq<char>,
    other: Seq<char>,
    phase: WifiSimulatorPhase,
)
    requires
        namespace != other,
    ensures
        before.insert(namespace, phase)[namespace] == phase,
        before.insert(namespace, phase).contains_key(other) == before.contains_key(other),
        before.contains_key(other) ==> before.insert(namespace, phase)[other] == before[other],
{
}

} // verus!
