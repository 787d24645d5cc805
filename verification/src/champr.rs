//! The settings that are kept between sessions, and the state of the
//! source list that they are made from.

use vstd::prelude::*;
use vstd::string::*;
use crate::selection::{item_views, SourceItem};
use crate::text::{decimal, push_decimal, views};

verus! {

/// The settings that are kept between sessions.
#[derive(Debug, Clone, PartialEq, Eq)]
pub struct Config {
    pub dark_mode: bool,
    pub sources: Vec<String>,
}

impl Default for Config {
    fn default() -> (config: Self)
        ensures
            !config.dark_mode,
            config.sources@.len() == 0,
    {
        Self { dark_mode: false, sources: Vec::new() }
    }
}

/// The views of the entries of a selection.
pub open spec fn entry_views(entries: Seq<(String, bool)>) -> Seq<(Seq<char>, bool)> {
    Seq::new(entries.len(), |i: int| (entries[i].0@, entries[i].1))
}

/// No value has two entries.
pub open spec fn distinct_keys(entries: Seq<(Seq<char>, bool)>) -> bool {
    forall|i: int, j: int| 0 <= i < j < entries.len() ==> entries[i].0 != entries[j].0
}

/// What the entries say of each value: whether its box is ticked.
pub open spec fn as_map(entries: Seq<(Seq<char>, bool)>) -> Map<Seq<char>, bool>
    decreases entries.len(),
{
    if entries.len() == 0 {
        Map::empty()
    } else {
        as_map(entries.drop_last()).insert(entries.last().0, entries.last().1)
    }
}

/// The values whose box is ticked, in the order of the entries.
pub open spec fn ticked(entries: Seq<(Seq<char>, bool)>) -> Seq<Seq<char>>
    decreases entries.len(),
{
    if entries.len() == 0 {
        Seq::empty()
    } else if entries.last().1 {
        ticked(entries.drop_last()).push(entries.last().0)
    } else {
        ticked(entries.drop_last())
    }
}

/// Where the entry of `key` stands, or the number of entries if `key` has none.
pub open spec fn entry_index(entries: Seq<(Seq<char>, bool)>, key: Seq<char>) -> int
    decreases entries.len(),
{
    if entries.len() == 0 {
        0
    } else if entries[0].0 == key {
        0
    } else {
        1 + entry_index(entries.drop_first(), key)
    }
}

/// The entries after the box of `key` was ticked or cleared: the entry
/// of `key` says so now, in its old place; a value without an entry gets
/// one at the end.
pub open spec fn put(entries: Seq<(Seq<char>, bool)>, key: Seq<char>, checked: bool) -> Seq<
    (Seq<char>, bool),
> {
    let at = entry_index(entries, key);
    if at < entries.len() {
        entries.update(at, (key, checked))
    } else {
        entries.push((key, checked))
    }
}

/// The entries after each of the given values was ticked in turn.
pub open spec fn put_all(values: Seq<Seq<char>>) -> Seq<(Seq<char>, bool)>
    decreases values.len(),
{
    if values.len() == 0 {
        Seq::empty()
    } else {
        put(put_all(values.drop_last()), values.last(), true)
    }
}

/// `entry_index` is the least position at which `key` has an entry.
pub proof fn lemma_entry_index(entries: Seq<(Seq<char>, bool)>, key: Seq<char>)
    ensures
        0 <= entry_index(entries, key) <= entries.len(),
        entry_index(entries, key) < entries.len() ==> entries[entry_index(entries, key)].0 == key,
        forall|j: int| 0 <= j < entry_index(entries, key) ==> (#[trigger] entries[j]).0 != key,
    decreases entries.len(),
{
    if entries.len() > 0 && entries[0].0 != key {
        let rest = entries.drop_first();
        lemma_entry_index(rest, key);
        let k = entry_index(rest, key);
        assert forall|j: int| 0 <= j < 1 + k implies (#[trigger] entries[j]).0 != key by {
            if j > 0 {
                assert(rest[j - 1] == entries[j]);
            }
        }
        if k < rest.len() {
            assert(entries[1 + k] == rest[k]);
        }
    }
}

/// Ticking or clearing a box keeps one entry for each value, and changes
/// what the map says of that value and of no other.
pub proof fn lemma_put(entries: Seq<(Seq<char>, bool)>, key: Seq<char>, checked: bool)
    requires
        distinct_keys(entries),
    ensures
        distinct_keys(put(entries, key, checked)),
        as_map(put(entries, key, checked)) == as_map(entries).insert(key, checked),
{
    lemma_entry_index(entries, key);
    let at = entry_index(entries, key);
    if at < entries.len() {
        lemma_map_update(entries, at, checked);
    } else {
        let after = entries.push((key, checked));
        assert(after.drop_last() =~= entries);
        assert forall|i: int, j: int| 0 <= i < j < after.len() implies after[i].0
            != after[j].0 by {
            if j < entries.len() {
                assert(entries[i].0 != entries[j].0);
            } else {
                assert(entries[i].0 != key);
            }
        }
    }
}

/// Ticking values one after the other leaves one entry for each value,
/// and ticked exactly those values.
pub proof fn lemma_put_all(values: Seq<Seq<char>>)
    ensures
        distinct_keys(put_all(values)),
        as_map(put_all(values)) == all_ticked(values),
    decreases values.len(),
{
    if values.len() > 0 {
        lemma_put_all(values.drop_last());
        lemma_put(put_all(values.drop_last()), values.last(), true);
    }
}

/// The selection in which exactly the given values are ticked.
pub open spec fn all_ticked(values: Seq<Seq<char>>) -> Map<Seq<char>, bool>
    decreases values.len(),
{
    if values.len() == 0 {
        Map::empty()
    } else {
        all_ticked(values.drop_last()).insert(values.last(), true)
    }
}

/// The item that stands at position `i` of the list before the source
/// list has arrived: `source {i}` with the value `source-{i}`.
pub open spec fn placeholder(i: nat) -> (Seq<char>, Seq<char>) {
    ("source "@ + decimal(i), "source-"@ + decimal(i))
}

/// The values that have an entry are those that the map knows.
pub proof fn lemma_map_keys(entries: Seq<(Seq<char>, bool)>, key: Seq<char>)
    ensures
        as_map(entries).contains_key(key) <==> exists|i: int|
            0 <= i < entries.len() && (#[trigger] entries[i]).0 == key,
    decreases entries.len(),
{
    if entries.len() > 0 {
        let earlier = entries.drop_last();
        lemma_map_keys(earlier, key);
        if as_map(entries).contains_key(key) {
            if entries.last().0 == key {
                assert(entries[entries.len() - 1].0 == key);
            } else {
                let i = choose|i: int| 0 <= i < earlier.len() && (#[trigger] earlier[i]).0 == key;
                assert(entries[i].0 == key);
            }
        }
        if exists|i: int| 0 <= i < entries.len() && (#[trigger] entries[i]).0 == key {
            let i = choose|i: int| 0 <= i < entries.len() && (#[trigger] entries[i]).0 == key;
            if i < earlier.len() {
                assert(earlier[i].0 == key);
            }
        }
    }
}

/// With one entry for each value, the map says of a value what its entry says.
pub proof fn lemma_map_entry(entries: Seq<(Seq<char>, bool)>, at: int)
    requires
        distinct_keys(entries),
        0 <= at < entries.len(),
    ensures
        as_map(entries).contains_key(entries[at].0),
        as_map(entries)[entries[at].0] == entries[at].1,
    decreases entries.len(),
{
    let earlier = entries.drop_last();
    if at < entries.len() - 1 {
        assert(distinct_keys(earlier)) by {
            assert forall|i: int, j: int| 0 <= i < j < earlier.len() implies earlier[i].0
                != earlier[j].0 by {
                assert(entries[i].0 != entries[j].0);
            }
        }
        lemma_map_entry(earlier, at);
        assert(entries[at].0 != entries[entries.len() - 1].0);
    }
}

/// Changing what the entry of a value says changes what the map says of
/// that value, and nothing else.
pub proof fn lemma_map_update(entries: Seq<(Seq<char>, bool)>, at: int, checked: bool)
    requires
        distinct_keys(entries),
        0 <= at < entries.len(),
    ensures
        as_map(entries.update(at, (entries[at].0, checked))) == as_map(entries).insert(
            entries[at].0,
            checked,
        ),
        distinct_keys(entries.update(at, (entries[at].0, checked))),
    decreases entries.len(),
{
    let key = entries[at].0;
    let changed = entries.update(at, (key, checked));
    let earlier = entries.drop_last();
    if at == entries.len() - 1 {
        assert(changed.drop_last() =~= earlier);
        assert(as_map(changed) =~= as_map(entries).insert(key, checked));
    } else {
        assert(distinct_keys(earlier)) by {
            assert forall|i: int, j: int| 0 <= i < j < earlier.len() implies earlier[i].0
                != earlier[j].0 by {
                assert(entries[i].0 != entries[j].0);
            }
        }
        lemma_map_update(earlier, at, checked);
        assert(changed.drop_last() =~= earlier.update(at, (key, checked)));
        assert(changed.last() == entries.last());
        assert(entries[at].0 != entries[entries.len() - 1].0);
        assert(as_map(changed) =~= as_map(entries).insert(key, checked));
    }
    assert forall|i: int, j: int| 0 <= i < j < changed.len() implies changed[i].0
        != changed[j].0 by {
        assert(entries[i].0 != entries[j].0);
    }
}

/// The state of the source list.
pub struct ChampR {
    pub source_list: Vec<SourceItem>,
    pub selected_sources: Vec<(String, bool)>,
    pub config: Config,
}

impl ChampR {
    /// What the selection says of each value.
    pub open spec fn selection(&self) -> Map<Seq<char>, bool> {
        as_map(entry_views(self.selected_sources@))
    }

    /// The values whose box is ticked, in the order in which the values
    /// were first met.
    pub open spec fn ticked_values(&self) -> Seq<Seq<char>> {
        ticked(entry_views(self.selected_sources@))
    }

    /// Every value has at most one entry.
    pub open spec fn well_formed(&self) -> bool {
        distinct_keys(entry_views(self.selected_sources@))
    }

    /// The state at the start: forty-nine placeholder items, and ticked
    /// exactly the sources that the settings name.
    pub fn new(config: Config) -> (champr: ChampR)
        ensures
            champr.well_formed(),
            champr.config == config,
            item_views(champr.source_list@) == Seq::new(49, |k: int| placeholder((k + 1) as nat)),
            entry_views(champr.selected_sources@) == put_all(views(config.sources@)),
            champr.selection() == all_ticked(views(config.sources@)),
    {
        let mut source_list: Vec<SourceItem> = Vec::new();
        let mut i: usize = 1;
        while i < 50
            invariant
                1 <= i <= 50,
                source_list@.len() == i - 1,
                forall|k: int|
                    0 <= k < source_list@.len() ==> (#[trigger] source_list@[k])@ == placeholder(
                        (k + 1) as nat,
                    ),
            decreases 50 - i,
        {
            let mut name = String::from_str("source ");
            push_decimal(&mut name, i);
            let mut value = String::from_str("source-");
            push_decimal(&mut value, i);
            source_list.push(SourceItem::new(name, value));
            i = i + 1;
        }
        assert(item_views(source_list@) =~= Seq::new(49, |k: int| placeholder((k + 1) as nat)));
        let mut champr = ChampR { source_list, selected_sources: Vec::new(), config };
        let mut n: usize = 0;
        assert(views(champr.config.sources@).take(0) =~= Seq::<Seq<char>>::empty());
        assert(entry_views(champr.selected_sources@) =~= Seq::<(Seq<char>, bool)>::empty());
        while n < champr.config.sources.len()
            invariant
                champr.well_formed(),
                champr.config == config,
                champr.source_list@ == source_list@,
                n <= config.sources@.len(),
                entry_views(champr.selected_sources@) == put_all(
                    views(config.sources@).take(n as int),
                ),
            decreases config.sources@.len() - n,
        {
            let key = champr.config.sources[n].clone();
            proof {
                let all = views(config.sources@);
                assert(all.take(n + 1).drop_last() =~= all.take(n as int));
                assert(all.take(n + 1).last() == key@);
            }
            champr.set_selected(key, true);
            n = n + 1;
        }
        proof {
            assert(views(config.sources@).take(n as int) =~= views(config.sources@));
            lemma_put_all(views(config.sources@));
        }
        champr
    }

    /// Whether every value has at most one entry.
    pub fn is_well_formed(&self) -> (ok: bool)
        ensures
            ok == self.well_formed(),
    {
        let ghost entries = entry_views(self.selected_sources@);
        let mut j: usize = 0;
        while j < self.selected_sources.len()
            invariant
                j <= self.selected_sources@.len(),
                entries == entry_views(self.selected_sources@),
                forall|a: int, b: int| 0 <= a < b < j ==> entries[a].0 != entries[b].0,
            decreases self.selected_sources@.len() - j,
        {
            let mut i: usize = 0;
            while i < j
                invariant
                    i <= j < self.selected_sources@.len(),
                    entries == entry_views(self.selected_sources@),
                    forall|a: int| 0 <= a < i ==> (#[trigger] entries[a]).0 != entries[j as int].0,
                decreases j - i,
            {
                if self.selected_sources[i].0 == self.selected_sources[j].0 {
                    assert(entries[i as int].0 == entries[j as int].0);
                    return false;
                }
                i = i + 1;
            }
            j = j + 1;
        }
        true
    }

    /// Notes that the box of `value` is now ticked (`true`) or clear.
    pub fn set_selected(&mut self, value: String, checked: bool)
        requires
            old(self).well_formed(),
        ensures
            final(self).well_formed(),
            entry_views(final(self).selected_sources@) == put(
                entry_views(old(self).selected_sources@),
                value@,
                checked,
            ),
            final(self).selection() == old(self).selection().insert(value@, checked),
            final(self).source_list == old(self).source_list,
            final(self).config == old(self).config,
    {
        let ghost before = entry_views(self.selected_sources@);
        proof {
            lemma_put(before, value@, checked);
            lemma_entry_index(before, value@);
        }
        let mut i: usize = 0;
        while i < self.selected_sources.len()
            invariant
                i <= self.selected_sources@.len(),
                before == entry_views(self.selected_sources@),
                *self == *old(self),
                distinct_keys(before),
                i <= entry_index(before, value@) <= before.len(),
            decreases self.selected_sources@.len() - i,
        {
            if self.selected_sources[i].0 == value {
                proof {
                    lemma_put(before, value@, checked);
                    lemma_entry_index(before, value@);
                    assert(before[i as int].0 == value@);
                    assert(entry_index(before, value@) == i);
                    assert(entry_views(self.selected_sources@.update(i as int, (value, checked)))
                        =~= before.update(i as int, (value@, checked)));
                }
                self.selected_sources.set(i, (value, checked));
                return ;
            }
            proof {
                lemma_entry_index(before, value@);
                assert(before[i as int].0 != value@);
            }
            i = i + 1;
        }
        proof {
            assert(entry_views(self.selected_sources@.push((value, checked))) =~= before.push(
                (value@, checked),
            ));
        }
        self.selected_sources.push((value, checked));
    }

    /// Whether the box of `value` is ticked.
    pub fn is_checked(&self, value: &String) -> (checked: bool)
        requires
            self.well_formed(),
        ensures
            checked == (self.selection().contains_key(value@) && self.selection()[value@]),
    {
        let ghost entries = entry_views(self.selected_sources@);
        let mut i: usize = 0;
        while i < self.selected_sources.len()
            invariant
                i <= self.selected_sources@.len(),
                entries == entry_views(self.selected_sources@),
                self.well_formed(),
                forall|k: int| 0 <= k < i ==> (#[trigger] entries[k]).0 != value@,
            decreases self.selected_sources@.len() - i,
        {
            if self.selected_sources[i].0 == *value {
                proof {
                    lemma_map_entry(entries, i as int);
                }
                return self.selected_sources[i].1;
            }
            i = i + 1;
        }
        proof {
            lemma_map_keys(entries, value@);
        }
        false
    }

    /// Switches between the dark and the light look.
    pub fn toggle_dark_mode(&mut self)
        ensures
            final(self).config.dark_mode == !old(self).config.dark_mode,
            final(self).config.sources == old(self).config.sources,
            final(self).source_list == old(self).source_list,
            final(self).selection() == old(self).selection(),
            final(self).ticked_values() == old(self).ticked_values(),
            final(self).well_formed() == old(self).well_formed(),
    {
        self.config.dark_mode = !self.config.dark_mode;
    }

    /// The settings to keep: the present look, and the sources whose box
    /// is ticked.
    pub fn config_to_save(&self) -> (config: Config)
        ensures
            config.dark_mode == self.config.dark_mode,
            views(config.sources@) == self.ticked_values(),
    {
        let ghost entries = entry_views(self.selected_sources@);
        let mut sources: Vec<String> = Vec::new();
        let mut i: usize = 0;
        assert(entries.take(0) =~= Seq::<(Seq<char>, bool)>::empty());
        assert(views(sources@) =~= Seq::<Seq<char>>::empty());
        while i < self.selected_sources.len()
            invariant
                i <= self.selected_sources@.len(),
                entries == entry_views(self.selected_sources@),
                views(sources@) == ticked(entries.take(i as int)),
            decreases self.selected_sources@.len() - i,
        {
            proof {
                assert(entries.take(i + 1).drop_last() =~= entries.take(i as int));
                assert(entries.take(i + 1).last() == entries[i as int]);
            }
            if self.selected_sources[i].1 {
                let key = self.selected_sources[i].0.clone();
                proof {
                    assert(views(sources@.push(key)) =~= views(sources@).push(key@));
                }
                sources.push(key);
            }
            i = i + 1;
        }
        assert(entries.take(i as int) =~= entries);
        Config { dark_mode: self.config.dark_mode, sources }
    }
}

} // verus!
