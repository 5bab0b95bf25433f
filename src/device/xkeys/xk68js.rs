// Layout of the 64-byte report, as far as it matters here:
//
// byte 0..1    unused
// byte 2..11   button columns 1 to 10, one bit per button (bit 0 is the top row)
// byte 12..15  another representation of the rotor
// byte 16      continuous wheel: 0x00 inactive, 0x01 right, 0xff left
// byte 17      rotor: 0xf9 left, 0x07 right
// byte 19..21  a running counter
// the rest     unused
use std::collections::HashMap;

use vstd::prelude::*;

use crate::device::{Action, Event};

verus! {

broadcast use vstd::std_specs::hash::group_hash_axioms;

/// Index of the report byte that holds the first button column.
pub const FIRST_COLUMN: usize = 2;

/// Length of one input report.
pub const REPORT_LEN: usize = 64;

/// USB vendor identifier of P.I. Engineering.
pub const VENDOR_ID: u16 = 0x05f3;

/// USB product identifier of the XK-68 Jog-Shuttle.
pub const PRODUCT_ID: u16 = 0x045a;

/// The HID interface that carries the button reports.
pub const INTERFACE_NUMBER: i32 = 0;

/// Number of buttons: ten columns of eight.
pub const BUTTON_COUNT: u32 = 80;

#[derive(Debug)]
pub struct State {}

/// The last observed state of one control.
#[derive(Debug, Clone, Copy, PartialEq, Eq)]
pub enum InterfaceType {
    Button(bool),
    Wheel(i32),
}

impl Default for InterfaceType {
    fn default() -> (r: Self)
        ensures
            r == InterfaceType::Button(false),
    {
        InterfaceType::Button(false)
    }
}

/// Turns raw reports of an X-keys XK-68 Jog-Shuttle into press and release events.
pub struct XK68JS {
    pub state: HashMap<u32, InterfaceType>,
}

/// Whether bit `bit` (0 is the least significant) of `byte` is set.
pub open spec fn bit_of(byte: u8, bit: u8) -> bool {
    byte & (1u8 << bit) != 0
}

/// Whether the button `id` is down in the report `data`: button `id` sits in
/// column `id / 8`, at bit `id % 8` of that column's byte.
pub open spec fn button_down(data: Seq<u8>, id: u32) -> bool {
    bit_of(data[FIRST_COLUMN + id / 8], (id % 8) as u8)
}

pub open spec fn action_for(down: bool) -> Action {
    if down {
        Action::Press
    } else {
        Action::Release
    }
}

/// The event reported for button `id` when its state in `data` is new.
pub open spec fn event_for(data: Seq<u8>, id: u32) -> Event {
    Event { key: id, action: action_for(button_down(data, id)) }
}

/// Whether button `id` reports an event: it is untracked, or tracked as a
/// button whose stored state differs from `data`. A wheel never does.
pub open spec fn changed(state: Map<u32, InterfaceType>, data: Seq<u8>, id: u32) -> bool {
    match state.get(id) {
        None => true,
        Some(InterfaceType::Button(v)) => v != button_down(data, id),
        Some(InterfaceType::Wheel(_)) => false,
    }
}

/// The events for buttons `0 .. n`, in ascending order of identifier.
pub open spec fn events_below(state: Map<u32, InterfaceType>, data: Seq<u8>, n: nat) -> Seq<Event>
    decreases n,
{
    if n == 0 {
        seq![]
    } else {
        let prev = events_below(state, data, (n - 1) as nat);
        if changed(state, data, (n - 1) as u32) {
            prev.push(event_for(data, (n - 1) as u32))
        } else {
            prev
        }
    }
}

/// Whether `id` is below `n` and not tracked as a wheel.
pub open spec fn refreshed(state: Map<u32, InterfaceType>, id: u32, n: nat) -> bool {
    id < n && !(state.get(id) matches Some(InterfaceType::Wheel(_)))
}

/// The state after buttons `0 .. n` have taken their values from `data`.
pub open spec fn state_below(state: Map<u32, InterfaceType>, data: Seq<u8>, n: nat) -> Map<
    u32,
    InterfaceType,
> {
    Map::new(
        |k: u32| state.contains_key(k) || k < n,
        |k: u32|
            if refreshed(state, k, n) {
                InterfaceType::Button(button_down(data, k))
            } else {
                state[k]
            },
    )
}

/// The events that one report produces from a stored state.
pub open spec fn report_events(state: Map<u32, InterfaceType>, data: Seq<u8>) -> Seq<Event> {
    events_below(state, data, BUTTON_COUNT as nat)
}

/// The stored state after one report.
pub open spec fn after_report(state: Map<u32, InterfaceType>, data: Seq<u8>) -> Map<
    u32,
    InterfaceType,
> {
    state_below(state, data, BUTTON_COUNT as nat)
}

/// The state before any report: every button tracked and up.
pub open spec fn initial_state() -> Map<u32, InterfaceType> {
    Map::new(|k: u32| k < BUTTON_COUNT, |k: u32| InterfaceType::Button(false))
}

/// Every tracked button below `BUTTON_COUNT` holds a button state.
pub open spec fn tracks_buttons(state: Map<u32, InterfaceType>) -> bool {
    forall|k: u32|
        k < BUTTON_COUNT && #[trigger] state.contains_key(k) ==> state[k] is Button
}

/// Each event of `events_below(.., n)` names a button below `n`.
proof fn lemma_event_keys_below(state: Map<u32, InterfaceType>, data: Seq<u8>, n: nat)
    ensures
        forall|j: int|
            0 <= j < events_below(state, data, n).len() ==> #[trigger] events_below(
                state,
                data,
                n,
            )[j].key < n,
    decreases n,
{
    if n > 0 {
        lemma_event_keys_below(state, data, (n - 1) as nat);
    }
}

/// Reading a report whose button bits differ from the previous report in
/// button `i` alone yields exactly one event, for `i`, whose action is the
/// new state of that button; no other identifier appears.
pub proof fn lemma_single_bit_change(
    state: Map<u32, InterfaceType>,
    first: Seq<u8>,
    second: Seq<u8>,
    i: u32,
)
    requires
        tracks_buttons(state),
        first.len() >= FIRST_COLUMN + 10,
        second.len() >= FIRST_COLUMN + 10,
        i < BUTTON_COUNT,
        button_down(first, i) != button_down(second, i),
        forall|k: u32|
            k < BUTTON_COUNT && k != i ==> button_down(first, k) == button_down(second, k),
    ensures
        report_events(after_report(state, first), second) == seq![event_for(second, i)],
        event_for(second, i).action == action_for(button_down(second, i)),
{
    lemma_single_bit_events(state, first, second, i, BUTTON_COUNT as nat);
}

proof fn lemma_single_bit_events(
    state: Map<u32, InterfaceType>,
    first: Seq<u8>,
    second: Seq<u8>,
    i: u32,
    n: nat,
)
    requires
        tracks_buttons(state),
        n <= BUTTON_COUNT,
        i < BUTTON_COUNT,
        button_down(first, i) != button_down(second, i),
        forall|k: u32|
            k < BUTTON_COUNT && k != i ==> button_down(first, k) == button_down(second, k),
    ensures
        events_below(after_report(state, first), second, n) == (if i < n {
            seq![event_for(second, i)]
        } else {
            seq![]
        }),
    decreases n,
{
    if n > 0 {
        lemma_single_bit_events(state, first, second, i, (n - 1) as nat);
        let k = (n - 1) as u32;
        let after = after_report(state, first);
        assert(after.contains_key(k));
        if state.contains_key(k) {
            assert(state[k] is Button);
        }
        assert(after[k] == InterfaceType::Button(button_down(first, k)));
        assert(changed(after, second, k) == (k == i));
        if i < n - 1 {
            assert(k != i);
        } else if k == i {
            assert(seq![event_for(second, i)] =~= Seq::<Event>::empty().push(event_for(second, i)));
        }
    }
}

/// A report read twice in a row yields no event the second time.
pub proof fn lemma_same_report_is_quiet(state: Map<u32, InterfaceType>, data: Seq<u8>)
    requires
        data.len() >= FIRST_COLUMN + 10,
    ensures
        report_events(after_report(state, data), data) == Seq::<Event>::empty(),
{
    lemma_quiet_below(state, data, BUTTON_COUNT as nat);
}

proof fn lemma_quiet_below(state: Map<u32, InterfaceType>, data: Seq<u8>, n: nat)
    requires
        n <= BUTTON_COUNT,
    ensures
        events_below(after_report(state, data), data, n) == Seq::<Event>::empty(),
    decreases n,
{
    if n > 0 {
        lemma_quiet_below(state, data, (n - 1) as nat);
        let k = (n - 1) as u32;
        assert(!changed(after_report(state, data), data, k));
    }
}

impl Default for XK68JS {
    fn default() -> (r: Self)
        ensures
            r.state@ == initial_state(),
            tracks_buttons(r.state@),
    {
        let mut state: HashMap<u32, InterfaceType> = HashMap::new();
        let mut id: u32 = 0;
        while id < BUTTON_COUNT
            invariant
                id <= BUTTON_COUNT,
                state@ == Map::new(|k: u32| k < id, |k: u32| InterfaceType::Button(false)),
            decreases BUTTON_COUNT - id,
        {
            state.insert(id, InterfaceType::Button(false));
            assert(state@ =~= Map::new(|k: u32| k < id + 1, |k: u32| InterfaceType::Button(false)));
            id = id + 1;
        }
        assert(state@ =~= initial_state());
        assert(tracks_buttons(state@));
        XK68JS { state }
    }
}

impl XK68JS {
    /// Whether a HID interface with these identifiers is the one this decoder
    /// reads.
    pub fn matches(vendor_id: u16, product_id: u16, interface_number: i32) -> (r: bool)
        ensures
            r == (vendor_id == VENDOR_ID && product_id == PRODUCT_ID && interface_number
                == INTERFACE_NUMBER),
    {
        vendor_id == VENDOR_ID && product_id == PRODUCT_ID && interface_number == INTERFACE_NUMBER
    }

    /// Compares one report with the stored button states: for each button, in
    /// ascending order of identifier, reports a press or release where its
    /// state is new, and stores the state read.
    pub fn process_buffer(&mut self, data: &[u8]) -> (events: Vec<Event>)
        requires
            data@.len() >= FIRST_COLUMN + 10,
        ensures
            events@ == report_events(old(self).state@, data@),
            final(self).state@ == after_report(old(self).state@, data@),
            forall|j: int| 0 <= j < events@.len() ==> #[trigger] events@[j].key < BUTTON_COUNT,
            tracks_buttons(old(self).state@) ==> tracks_buttons(final(self).state@),
    {
        let ghost start = self.state@;
        let mut events: Vec<Event> = Vec::new();
        let mut id: u32 = 0;
        assert(self.state@ =~= state_below(start, data@, 0));
        while id < BUTTON_COUNT
            invariant
                id <= BUTTON_COUNT,
                data@.len() >= FIRST_COLUMN + 10,
                events@ == events_below(start, data@, id as nat),
                self.state@ == state_below(start, data@, id as nat),
            decreases BUTTON_COUNT - id,
        {
            let down = Self::bit_set(data[FIRST_COLUMN + (id / 8) as usize], (id % 8) as u8);
            assert(down == button_down(data@, id));
            match self.state.get(&id) {
                Some(InterfaceType::Button(value)) => {
                    if *value != down {
                        events.push(
                            Event { key: id, action: if down { Action::Press } else { Action::Release } },
                        );
                    }
                    self.state.insert(id, InterfaceType::Button(down));
                },
                Some(InterfaceType::Wheel(_)) => {},
                None => {
                    self.state.insert(id, InterfaceType::Button(down));
                    events.push(
                        Event { key: id, action: if down { Action::Press } else { Action::Release } },
                    );
                },
            }
            assert(self.state@ =~= state_below(start, data@, (id + 1) as nat));
            id = id + 1;
        }
        proof {
            lemma_event_keys_below(start, data@, BUTTON_COUNT as nat);
        }
        events
    }

    /// Whether bit `bit` of `byte` is set.
    fn bit_set(byte: u8, bit: u8) -> (r: bool)
        requires
            bit < 8,
        ensures
            r == bit_of(byte, bit),
    {
        byte & (1u8 << bit) != 0
    }
}

} // verus!
