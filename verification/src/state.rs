//! The game state that shop and overworld-step routines read and change.
use vstd::prelude::*;
use crate::items::Bag;
use crate::ordered::{TextMap, TextSet};
use crate::pokemon::{Party, Pokemon, TimeOfDay};
use crate::text::copy_text;

verus! {

/// The shop a script opened and that buying and selling act on.
#[derive(Debug, PartialEq, Eq)]
pub struct ScriptShopRequest {
    pub mart_type: String,
    pub mart_id: String,
    pub inventory: Vec<String>,
    pub source_script: String,
    pub command_index: usize,
}

/// A record of each shop a script opened.
#[derive(Debug, PartialEq, Eq)]
pub struct ScriptShopRuntimeEvent {
    pub mart_type: String,
    pub mart_id: String,
    pub inventory: Vec<String>,
    pub source_script: String,
    pub command_index: usize,
}

/// Script runtime fields the shop and step routines touch.
#[derive(Debug, PartialEq, Eq)]
pub struct ScriptRuntime {
    pub pending_shop: Option<ScriptShopRequest>,
    pub shop_events: Vec<ScriptShopRuntimeEvent>,
    pub special_phone_call: Option<String>,
}

/// Per-step counters, including the persisted big-endian `wBikeStep` word.
#[derive(Clone, Copy, Debug, PartialEq, Eq, Structural)]
pub struct StepEventCounters {
    pub step_count: u8,
    pub poison_step_count: u8,
    pub happiness_step_count: u8,
    pub bike_step_count: u16,
}

impl StepEventCounters {
    pub open spec fn zero_spec() -> Self {
        StepEventCounters { step_count: 0, poison_step_count: 0, happiness_step_count: 0, bike_step_count: 0 }
    }

    pub fn zero() -> (c: Self)
        ensures
            c == Self::zero_spec(),
    {
        StepEventCounters { step_count: 0, poison_step_count: 0, happiness_step_count: 0, bike_step_count: 0 }
    }
}

/// A Day-Care resident slot.
#[derive(Debug, PartialEq, Eq)]
pub struct DayCareResidentState {
    pub pokemon: Option<Pokemon>,
    /// Whether the resident's caretaker has an active deposit.
    pub active: bool,
}

/// What a Day-Care interaction reports: who was asked, what was attempted, whether it
/// happened, the Pokemon and level concerned, and why not.
#[derive(Debug, PartialEq, Eq)]
pub struct DayCareInteractionState {
    pub caretaker: String,
    pub action: String,
    pub success: bool,
    pub pokemon: Option<String>,
    pub level: Option<u8>,
    pub reason: Option<String>,
}

/// Day-Care counters and residents.
#[derive(Debug, PartialEq, Eq)]
pub struct DayCareState {
    pub man: DayCareResidentState,
    pub lady: DayCareResidentState,
    pub compatibility_score: u8,
    pub egg_present: bool,
    pub steps_until_next_egg: u8,
}

/// PC storage, of which the step routines read the party.
#[derive(Debug, PartialEq, Eq)]
pub struct Storage {
    pub party: Party,
}

/// Seen and caught species.
#[derive(Debug, PartialEq, Eq)]
pub struct Pokedex {
    pub seen: TextSet,
    pub caught: TextSet,
}

/// Named on/off flags.
#[derive(Debug, PartialEq, Eq)]
pub struct FlagSet {
    values: TextMap<bool>,
}

impl FlagSet {
    /// The flags that are on.
    pub closed spec fn view(&self) -> Set<Seq<char>> {
        Set::new(|name: Seq<char>| self.values.view().contains_key(name) && self.values.view()[name])
    }

    pub fn new() -> (f: Self)
        ensures
            f@ == Set::<Seq<char>>::empty(),
    {
        let f = FlagSet { values: TextMap::new() };
        proof {
            assert(f@ =~= Set::<Seq<char>>::empty());
        }
        f
    }

    pub fn is_set(&self, name: &str) -> (b: bool)
        ensures
            b == self@.contains(name@),
    {
        match self.values.get(name) {
            Some(v) => *v,
            None => false,
        }
    }

    /// Turns `name` on or off.
    pub fn set(&mut self, name: &str, on: bool)
        ensures
            final(self)@ == (if on { old(self)@.insert(name@) } else { old(self)@.remove(name@) }),
    {
        self.values.insert(crate::text::copy_text(name), on);
        proof {
            if on {
                assert(self@ =~= old(self)@.insert(name@));
            } else {
                assert(self@ =~= old(self)@.remove(name@));
            }
        }
    }
}

/// Engine and event flags.
#[derive(Debug, PartialEq, Eq)]
pub struct Flags {
    pub engine: FlagSet,
    pub events: FlagSet,
}

/// The game state.
#[derive(Debug, PartialEq, Eq)]
pub struct GameState {
    pub money: u32,
    pub bag: Bag,
    pub script_runtime: ScriptRuntime,
    pub step_events: StepEventCounters,
    pub storage: Storage,
    /// Species of each party slot, kept in step with `storage.party`.
    pub party: Vec<Option<String>>,
    pub repel_steps_remaining: u8,
    pub active_repel_item: Option<String>,
    pub flags: Flags,
    pub pokedex: Pokedex,
    pub player_name: String,
    pub player_id: u16,
    pub player_gender: u8,
    pub time_of_day: TimeOfDay,
    pub day_care: DayCareState,
}

impl GameState {
    /// A fresh game: no money, an empty bag, an empty party and cleared counters.
    pub fn new() -> (s: Self)
        ensures
            s.money == 0,
            s.bag.view() == Map::<Seq<char>, Map<Seq<char>, u16>>::empty(),
            forall|p: Seq<char>| #[trigger] s.bag.stacks(p) == 0,
            s.script_runtime.pending_shop is None,
            s.script_runtime.shop_events@.len() == 0,
            s.script_runtime.special_phone_call is None,
            s.step_events == StepEventCounters::zero_spec(),
            s.storage.party.pokemon@.len() == crate::pokemon::PARTY_LENGTH,
            forall|i: int| 0 <= i < crate::pokemon::PARTY_LENGTH ==> s.storage.party.pokemon@[i] is None,
            s.repel_steps_remaining == 0,
            s.active_repel_item is None,
            s.flags.engine@ == Set::<Seq<char>>::empty(),
            s.flags.events@ == Set::<Seq<char>>::empty(),
            s.pokedex.seen@ == Set::<Seq<char>>::empty(),
            s.pokedex.caught@ == Set::<Seq<char>>::empty(),
            s.day_care.man.pokemon is None,
            !s.day_care.man.active && !s.day_care.lady.active,
            s.day_care.lady.pokemon is None,
            s.day_care.compatibility_score == 0,
            !s.day_care.egg_present,
    {
        GameState {
            money: 0,
            bag: Bag::new(),
            script_runtime: ScriptRuntime {
                pending_shop: None,
                shop_events: Vec::new(),
                special_phone_call: None,
            },
            step_events: StepEventCounters::zero(),
            storage: Storage { party: Party::empty() },
            party: vec![None, None, None, None, None, None],
            repel_steps_remaining: 0,
            active_repel_item: None,
            flags: Flags { engine: FlagSet::new(), events: FlagSet::new() },
            pokedex: Pokedex { seen: TextSet::new(), caught: TextSet::new() },
            player_name: String::new(),
            player_id: 0,
            player_gender: 0,
            time_of_day: TimeOfDay::Day,
            day_care: DayCareState {
                man: DayCareResidentState { pokemon: None, active: false },
                lady: DayCareResidentState { pokemon: None, active: false },
                compatibility_score: 0,
                egg_present: false,
                steps_until_next_egg: 0,
            },
        }
    }

    /// Everything but money and the bag is the same in `other`.
    pub open spec fn same_but_money_and_bag(&self, other: &GameState) -> bool {
        &&& other.script_runtime == self.script_runtime
        &&& self.same_outside_money_bag_runtime(other)
    }

    /// Everything but money, the bag and the script runtime is the same in `other`.
    pub open spec fn same_outside_money_bag_runtime(&self, other: &GameState) -> bool {
        &&& other.step_events == self.step_events
        &&& other.storage == self.storage
        &&& other.party == self.party
        &&& other.repel_steps_remaining == self.repel_steps_remaining
        &&& other.active_repel_item == self.active_repel_item
        &&& other.flags == self.flags
        &&& other.pokedex == self.pokedex
        &&& other.player_name == self.player_name
        &&& other.player_id == self.player_id
        &&& other.player_gender == self.player_gender
        &&& other.time_of_day == self.time_of_day
        &&& other.day_care == self.day_care
    }
}

/// The species of each party slot.
pub open spec fn party_species(party: Seq<Option<Pokemon>>) -> Seq<Option<Seq<char>>> {
    party.map_values(|slot: Option<Pokemon>| match slot {
        Some(p) => Some(p.species.id@),
        None => None,
    })
}

/// The view of the synced species list.
pub open spec fn species_list(list: Seq<Option<String>>) -> Seq<Option<Seq<char>>> {
    list.map_values(|slot: Option<String>| match slot {
        Some(s) => Some(s@),
        None => None,
    })
}

impl Pokedex {
    /// Marks a species as seen and caught.
    pub fn record_caught_species(&mut self, species_id: &str)
        ensures
            final(self).seen@ == old(self).seen@.insert(species_id@),
            final(self).caught@ == old(self).caught@.insert(species_id@),
    {
        self.seen.insert(copy_text(species_id));
        self.caught.insert(copy_text(species_id));
    }
}

impl GameState {
    /// `self` with the synced species list of `other`'s storage, and otherwise `other`.
    pub open spec fn synced_from(&self, other: GameState) -> bool {
        species_list(self.party@) == party_species(other.storage.party.pokemon@)
    }

    /// Rebuilds the synced species list from the storage party.
    pub fn sync_party_from_storage(&mut self)
        ensures
            final(self).synced_from(*final(self)),
            final(self).storage == old(self).storage,
            final(self).money == old(self).money,
            final(self).bag == old(self).bag,
            final(self).script_runtime == old(self).script_runtime,
            final(self).step_events == old(self).step_events,
            final(self).repel_steps_remaining == old(self).repel_steps_remaining,
            final(self).active_repel_item == old(self).active_repel_item,
            final(self).flags == old(self).flags,
            final(self).pokedex == old(self).pokedex,
            final(self).player_name == old(self).player_name,
            final(self).player_id == old(self).player_id,
            final(self).player_gender == old(self).player_gender,
            final(self).time_of_day == old(self).time_of_day,
            final(self).day_care == old(self).day_care,
    {
        let mut list: Vec<Option<String>> = Vec::new();
        let n = self.storage.party.pokemon.len();
        let mut i: usize = 0;
        while i < n
            invariant
                n == self.storage.party.pokemon@.len(),
                i <= n,
                list@.len() == i,
                species_list(list@) =~= party_species(self.storage.party.pokemon@.take(i as int)),
            decreases n - i,
        {
            let slot = match &self.storage.party.pokemon[i] {
                Some(p) => Some(copy_text(p.species.id.as_str())),
                None => None,
            };
            proof {
                let ps = self.storage.party.pokemon@;
                assert(match slot {
                    Some(s) => ps[i as int] matches Some(p) && s@ == p.species.id@,
                    None => ps[i as int] is None,
                });
                assert(ps.take(i + 1) =~= ps.take(i as int).push(ps[i as int]));
            }
            let ghost before = list@;
            list.push(slot);
            proof {
                let ps = self.storage.party.pokemon@;
                assert(list@ == before.push(slot));
                assert forall|k: int| 0 <= k < i + 1 implies #[trigger] species_list(list@)[k]
                    == party_species(ps.take(i + 1))[k] by {
                    if k < i {
                        assert(species_list(before)[k] == party_species(ps.take(i as int))[k]);
                        assert(list@[k] == before[k]);
                    } else {
                        assert(list@[k] == slot);
                        assert(ps.take(i + 1)[k] == ps[i as int]);
                    }
                }
                assert(species_list(list@) =~= party_species(ps.take(i + 1)));
            }
            i += 1;
        }
        proof {
            assert(self.storage.party.pokemon@.take(n as int) =~= self.storage.party.pokemon@);
        }
        self.party = list;
    }

    /// Counts down an active repel after a movement step; when it runs out, the repel item
    /// is handed back and no longer active.
    pub fn tick_repel_step_after_movement(&mut self) -> (expired: Option<String>)
        requires
            old(self).repel_steps_remaining > 0,
        ensures
            final(self).repel_steps_remaining == old(self).repel_steps_remaining - 1,
            final(self).repel_steps_remaining == 0 ==> expired == old(self).active_repel_item
                && final(self).active_repel_item is None,
            final(self).repel_steps_remaining != 0 ==> expired is None
                && final(self).active_repel_item == old(self).active_repel_item,
            *final(self) == (GameState {
                repel_steps_remaining: final(self).repel_steps_remaining,
                active_repel_item: final(self).active_repel_item,
                ..*old(self)
            }),
    {
        self.repel_steps_remaining = self.repel_steps_remaining - 1;
        if self.repel_steps_remaining == 0 {
            self.active_repel_item.take()
        } else {
            None
        }
    }
}

impl Default for GameState {
    fn default() -> (s: Self)
        ensures
            s.money == 0,
            s.bag.view() == Map::<Seq<char>, Map<Seq<char>, u16>>::empty(),
            forall|p: Seq<char>| #[trigger] s.bag.stacks(p) == 0,
            s.script_runtime.pending_shop is None,
            s.script_runtime.shop_events@.len() == 0,
    {
        GameState::new()
    }
}

/// Named currency constants of the pack, such as `MAX_MONEY`.
#[derive(Debug, PartialEq, Eq)]
pub struct CurrencyCatalog(pub TextMap<u32>);

impl CurrencyCatalog {
    pub fn get(&self, name: &str) -> (r: Option<u32>)
        ensures
            match r {
                Some(v) => self.0.view().contains_key(name@) && v == self.0.view()[name@],
                None => !self.0.view().contains_key(name@),
            },
    {
        match self.0.get(name) {
            Some(v) => Some(*v),
            None => None,
        }
    }
}

} // verus!
