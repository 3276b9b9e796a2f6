//! The build state of every requested image.

use ratatui::text::Text;
use ratatui_image::protocol::Protocol;
use vstd::prelude::*;

use crate::key::{CacheKey, KeyView};

verus! {

/// `ratatui::text::Text`: styled lines of text. Carried through, never read.
#[verifier::external_type_specification]
#[verifier::external_body]
pub struct ExText<'a>(Text<'a>);

/// An image as coloured ASCII art, `cols` columns wide and `rows` rows high.
pub struct AsciiArt {
    pub cols: u16,
    pub rows: u16,
    pub text: Text<'static>,
}

/// How far the build of an image has come.
pub enum CacheState {
    /// Requested from the worker, which has not reported back.
    Loading,
    /// Built for a terminal graphics protocol.
    ReadyGraphics(Protocol),
    /// Built as ASCII art.
    ReadyAscii(AsciiArt),
    /// The build failed.
    Failed,
}

/// A key with its state.
struct CacheEntry {
    key: CacheKey,
    state: CacheState,
}

/// A map from keys to build states.
pub struct Cache {
    entries: Vec<CacheEntry>,
}

/// `key` is that of the entry at `i`.
spec fn at(entries: Seq<CacheEntry>, key: KeyView, i: int) -> bool {
    0 <= i < entries.len() && entries[i].key@ == key
}

spec fn holds(entries: Seq<CacheEntry>, key: KeyView) -> bool {
    exists|i: int| at(entries, key, i)
}

spec fn as_map(entries: Seq<CacheEntry>) -> Map<KeyView, CacheState> {
    Map::new(
        |key: KeyView| holds(entries, key),
        |key: KeyView| entries[choose|i: int| at(entries, key, i)].state,
    )
}

spec fn distinct(entries: Seq<CacheEntry>) -> bool {
    forall|i: int, j: int|
        0 <= i < j < entries.len() ==> (#[trigger] entries[i]).key@ != (#[trigger] entries[j]).key@
}

proof fn lemma_entry_in_map(entries: Seq<CacheEntry>, i: int)
    requires
        distinct(entries),
        0 <= i < entries.len(),
    ensures
        as_map(entries).contains_key(entries[i].key@),
        as_map(entries)[entries[i].key@] == entries[i].state,
{
    let key = entries[i].key@;
    assert(at(entries, key, i));
    let j = choose|j: int| at(entries, key, j);
    assert(at(entries, key, j));
    assert(i == j) by {
        if i < j {
            assert(entries[i].key@ != entries[j].key@);
        } else if j < i {
            assert(entries[j].key@ != entries[i].key@);
        }
    }
}

impl View for Cache {
    type V = Map<KeyView, CacheState>;

    closed spec fn view(&self) -> Map<KeyView, CacheState> {
        as_map(self.entries@)
    }
}

impl Cache {
    /// No key occurs twice.
    pub closed spec fn wf(&self) -> bool {
        distinct(self.entries@)
    }

    /// A cache that holds nothing.
    pub fn new() -> (cache: Cache)
        ensures
            cache.wf(),
            cache@ == Map::<KeyView, CacheState>::empty(),
    {
        let cache = Cache { entries: Vec::new() };
        assert(cache@ =~= Map::<KeyView, CacheState>::empty());
        cache
    }

    /// The position of `key`'s entry.
    fn find(&self, key: &CacheKey) -> (r: Option<usize>)
        requires
            self.wf(),
        ensures
            r matches Some(i) ==> i < self.entries@.len() && self.entries@[i as int].key@ == key@,
            r is None ==> !self@.contains_key(key@),
    {
        let mut i: usize = 0;
        while i < self.entries.len()
            invariant
                i <= self.entries@.len(),
                forall|j: int| 0 <= j < i ==> (#[trigger] self.entries@[j]).key@ != key@,
            decreases self.entries@.len() - i,
        {
            if self.entries[i].key.same_as(key) {
                return Some(i);
            }
            i = i + 1;
        }
        assert(!holds(self.entries@, key@)) by {
            if holds(self.entries@, key@) {
                let j = choose|j: int| at(self.entries@, key@, j);
                assert(at(self.entries@, key@, j));
            }
        }
        None
    }

    /// Whether `key` has a state.
    pub fn contains_key(&self, key: &CacheKey) -> (r: bool)
        requires
            self.wf(),
        ensures
            r == self@.contains_key(key@),
    {
        match self.find(key) {
            Some(i) => {
                proof {
                    lemma_entry_in_map(self.entries@, i as int);
                }
                true
            },
            None => false,
        }
    }

    /// The state of `key`.
    pub fn get(&self, key: &CacheKey) -> (r: Option<&CacheState>)
        requires
            self.wf(),
        ensures
            r is Some <==> self@.contains_key(key@),
            r matches Some(state) ==> *state == self@[key@],
    {
        match self.find(key) {
            Some(i) => {
                proof {
                    lemma_entry_in_map(self.entries@, i as int);
                }
                Some(&self.entries[i].state)
            },
            None => None,
        }
    }

    /// Give a key its state, in place of the one it had.
    pub fn insert(&mut self, key: CacheKey, state: CacheState)
        requires
            old(self).wf(),
        ensures
            final(self).wf(),
            final(self)@ == old(self)@.insert(key@, state),
    {
        let ghost before = self.entries@;
        match self.find(&key) {
            Some(i) => {
                self.entries[i] = CacheEntry { key, state };
                proof {
                    lemma_update(before, i as int, self.entries@[i as int]);
                }
            },
            None => {
                self.entries.push(CacheEntry { key, state });
                proof {
                    lemma_push(before, self.entries@.last());
                }
            },
        }
    }

    /// Take note that a build of `key` was requested: it is loading from now on
    /// if the worker's channel took the request.
    pub fn note_request(&mut self, key: CacheKey, accepted: bool)
        requires
            old(self).wf(),
        ensures
            final(self).wf(),
            final(self)@ == (if accepted {
                old(self)@.insert(key@, CacheState::Loading)
            } else {
                old(self)@
            }),
    {
        if accepted {
            self.insert(key, CacheState::Loading);
        }
    }

    /// Drop every state.
    pub fn clear(&mut self)
        ensures
            final(self).wf(),
            final(self)@ == Map::<KeyView, CacheState>::empty(),
    {
        self.entries.clear();
        assert(self@ =~= Map::<KeyView, CacheState>::empty());
    }

    /// Whether any build is still under way.
    pub fn any_loading(&self) -> (r: bool)
        requires
            self.wf(),
        ensures
            r <==> exists|key: KeyView| #[trigger] self@.contains_key(key) && self@[key] is Loading,
    {
        let mut i: usize = 0;
        while i < self.entries.len()
            invariant
                self.wf(),
                i <= self.entries@.len(),
                forall|j: int| 0 <= j < i ==> !((#[trigger] self.entries@[j]).state is Loading),
            decreases self.entries@.len() - i,
        {
            if matches!(self.entries[i].state, CacheState::Loading) {
                proof {
                    lemma_entry_in_map(self.entries@, i as int);
                }
                return true;
            }
            i = i + 1;
        }
        assert forall|key: KeyView| #[trigger] self@.contains_key(key) implies !(
        self@[key] is Loading) by {
            let j = choose|j: int| at(self.entries@, key, j);
            assert(at(self.entries@, key, j));
            lemma_entry_in_map(self.entries@, j);
        }
        false
    }
}

proof fn lemma_update(entries: Seq<CacheEntry>, i: int, entry: CacheEntry)
    requires
        distinct(entries),
        0 <= i < entries.len(),
        entries[i].key@ == entry.key@,
    ensures
        distinct(entries.update(i, entry)),
        as_map(entries.update(i, entry)) == as_map(entries).insert(entry.key@, entry.state),
{
    let after = entries.update(i, entry);
    assert(distinct(after));
    assert forall|key: KeyView| holds(after, key) == holds(entries, key) by {
        if holds(after, key) {
            let j = choose|j: int| at(after, key, j);
            assert(at(after, key, j));
            assert(at(entries, key, j));
        }
        if holds(entries, key) {
            let j = choose|j: int| at(entries, key, j);
            assert(at(entries, key, j));
            assert(at(after, key, j));
        }
    }
    lemma_entry_in_map(after, i);
    lemma_entry_in_map(entries, i);
    let expected = as_map(entries).insert(entry.key@, entry.state);
    assert forall|key: KeyView| #[trigger] as_map(after).contains_key(key) implies as_map(after)[key]
        == expected[key] by {
        let j = choose|j: int| at(after, key, j);
        assert(at(after, key, j));
        lemma_entry_in_map(after, j);
        if key != entry.key@ {
            assert(j != i);
            assert(after[j] == entries[j]);
            lemma_entry_in_map(entries, j);
        }
    }
    assert(as_map(after) =~= expected);
}

proof fn lemma_push(entries: Seq<CacheEntry>, entry: CacheEntry)
    requires
        distinct(entries),
        !holds(entries, entry.key@),
    ensures
        distinct(entries.push(entry)),
        as_map(entries.push(entry)) == as_map(entries).insert(entry.key@, entry.state),
{
    let after = entries.push(entry);
    let n = entries.len() as int;
    assert(distinct(after)) by {
        assert forall|i: int, j: int| 0 <= i < j < after.len() implies (#[trigger] after[i]).key@ != (
        #[trigger] after[j]).key@ by {
            if j == n {
                assert(after[i] == entries[i]);
                if after[i].key@ == entry.key@ {
                    assert(at(entries, entry.key@, i));
                }
            } else {
                assert(after[i] == entries[i] && after[j] == entries[j]);
            }
        }
    }
    lemma_entry_in_map(after, n);
    let expected = as_map(entries).insert(entry.key@, entry.state);
    assert forall|key: KeyView| as_map(after).contains_key(key) == expected.contains_key(key) by {
        if holds(after, key) {
            let j = choose|j: int| at(after, key, j);
            assert(at(after, key, j));
            if j < n {
                assert(at(entries, key, j));
            }
        }
        if holds(entries, key) {
            let j = choose|j: int| at(entries, key, j);
            assert(at(entries, key, j));
            assert(at(after, key, j));
        }
    }
    assert forall|key: KeyView| #[trigger] as_map(after).contains_key(key) implies as_map(after)[key]
        == expected[key] by {
        let j = choose|j: int| at(after, key, j);
        assert(at(after, key, j));
        lemma_entry_in_map(after, j);
        if j < n {
            assert(after[j] == entries[j]);
            lemma_entry_in_map(entries, j);
            assert(at(entries, key, j));
        }
    }
    assert(as_map(after) =~= expected);
}

} // verus!
