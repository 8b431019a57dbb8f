//! The published-modpack catalogue (`modpacks.json`) and the set of servers
//! with an operation under way.
use vstd::prelude::*;
use crate::text::{chars_of, eq_vec};

verus! {

/// One modpack in the catalogue that the launcher reads.
#[derive(Clone, Debug)]
pub struct ModpackEntry {
    pub title: String,
    pub mc_version: String,
    pub version_id: String,
    pub java_version: u32,
    pub loader_name: String,
    pub loader_url: String,
    pub packwiz_url: String,
    pub image: String,
}

/// The fields of an entry, as values.
pub type EntryView = (Seq<char>, Seq<char>, Seq<char>, u32, Seq<char>, Seq<char>, Seq<char>, Seq<char>);

impl View for ModpackEntry {
    type V = EntryView;

    open spec fn view(&self) -> EntryView {
        (
            self.title@,
            self.mc_version@,
            self.version_id@,
            self.java_version,
            self.loader_name@,
            self.loader_url@,
            self.packwiz_url@,
            self.image@,
        )
    }
}

impl ModpackEntry {
    /// A copy of the entry.
    pub fn duplicate(&self) -> (r: ModpackEntry)
        ensures
            r@ == self@,
    {
        ModpackEntry {
            title: self.title.clone(),
            mc_version: self.mc_version.clone(),
            version_id: self.version_id.clone(),
            java_version: self.java_version,
            loader_name: self.loader_name.clone(),
            loader_url: self.loader_url.clone(),
            packwiz_url: self.packwiz_url.clone(),
            image: self.image.clone(),
        }
    }
}

/// The catalogue of published modpacks, by pack key.
pub struct ModpackDb {
    entries: Vec<(String, ModpackEntry)>,
}

/// The index of the pair of key `k`.
pub open spec fn key_index(es: Seq<(String, ModpackEntry)>, k: Seq<char>) -> int {
    choose|i: int| 0 <= i < es.len() && es[i].0@ == k
}

/// The keys are distinct.
pub open spec fn distinct_keys(es: Seq<(String, ModpackEntry)>) -> bool {
    forall|i: int, j: int| 0 <= i < es.len() && 0 <= j < es.len() && i != j ==> es[i].0@ != es[j].0@
}

/// The catalogue as a map from pack key to entry.
pub open spec fn db_map(es: Seq<(String, ModpackEntry)>) -> Map<Seq<char>, EntryView> {
    Map::new(
        |k: Seq<char>| exists|i: int| 0 <= i < es.len() && es[i].0@ == k,
        |k: Seq<char>| es[key_index(es, k)].1@,
    )
}

impl View for ModpackDb {
    type V = Map<Seq<char>, EntryView>;

    closed spec fn view(&self) -> Map<Seq<char>, EntryView> {
        db_map(self.entries@)
    }
}

/// What reading `k` from a catalogue gives: its entry, or none.
pub open spec fn lookup(m: Map<Seq<char>, EntryView>, k: Seq<char>) -> Option<EntryView> {
    if m.contains_key(k) {
        Some(m[k])
    } else {
        None
    }
}

/// The catalogue after the entry `e` is stored under `k`.
pub open spec fn upserted(m: Map<Seq<char>, EntryView>, k: Seq<char>, e: EntryView) -> Map<
    Seq<char>,
    EntryView,
> {
    m.insert(k, e)
}

/// The catalogue after `k` is removed, and whether it had `k`.
pub open spec fn removed(m: Map<Seq<char>, EntryView>, k: Seq<char>) -> (Map<Seq<char>, EntryView>, bool) {
    (m.remove(k), m.contains_key(k))
}

/// The view of an entry that may be missing.
pub open spec fn entry_opt_view(e: Option<ModpackEntry>) -> Option<EntryView> {
    match e {
        Some(x) => Some(x@),
        None => None,
    }
}

impl ModpackDb {
    /// Every pack key occurs once.
    pub closed spec fn wf(&self) -> bool {
        distinct_keys(self.entries@)
    }

    /// An empty catalogue.
    pub fn new() -> (r: ModpackDb)
        ensures
            r.wf(),
            r@ == Map::<Seq<char>, EntryView>::empty(),
    {
        let r = ModpackDb { entries: Vec::new() };
        assert(r@ =~= Map::<Seq<char>, EntryView>::empty());
        r
    }

    fn find(&self, key: &str) -> (r: Option<usize>)
        requires
            self.wf(),
        ensures
            match r {
                Some(i) => i < self.entries.len() && self.entries@[i as int].0@ == key@
                    && key_index(self.entries@, key@) == i,
                None => !self@.contains_key(key@),
            },
    {
        let k = chars_of(key);
        let mut i: usize = 0;
        while i < self.entries.len()
            invariant
                i <= self.entries.len(),
                k@ == key@,
                self.wf(),
                forall|j: int| 0 <= j < i ==> self.entries@[j].0@ != key@,
            decreases self.entries.len() - i,
        {
            let c = chars_of(self.entries[i].0.as_str());
            if eq_vec(&c, &k) {
                proof {
                    let w = key_index(self.entries@, key@);
                    assert(self.entries@[i as int].0@ == key@);
                    assert(w == i);
                }
                return Some(i);
            }
            i = i + 1;
        }
        None
    }

    /// The entry of `key`.
    pub fn get(&self, key: &str) -> (r: Option<ModpackEntry>)
        requires
            self.wf(),
        ensures
            entry_opt_view(r) == lookup(self@, key@),
    {
        match self.find(key) {
            Some(i) => {
                Some(self.entries[i].1.duplicate())
            },
            None => None,
        }
    }

    /// Adds or replaces the entry of `key`.
    pub fn upsert(&mut self, key: &str, entry: ModpackEntry)
        requires
            old(self).wf(),
        ensures
            final(self).wf(),
            final(self)@ == upserted(old(self)@, key@, entry@),
    {
        match self.find(key) {
            Some(i) => {
                let ghost before = self.entries@;
                let k = String::from_str(key);
                self.entries.set(i, (k, entry));
                proof {
                    let after = self.entries@;
                    assert forall|a: int, b: int|
                        0 <= a < after.len() && 0 <= b < after.len() && a != b implies after[a].0@
                        != after[b].0@ by {
                        if a != i && b != i {
                            assert(after[a] == before[a] && after[b] == before[b]);
                        } else if a == i {
                            assert(after[b] == before[b]);
                        } else {
                            assert(after[a] == before[a]);
                        }
                    }
                    assert forall|q: Seq<char>| #[trigger]
                        db_map(after).contains_key(q) == old(self)@.insert(key@, entry@).contains_key(
                            q,
                        ) by {
                        if db_map(before).contains_key(q) {
                            let w = choose|w: int| 0 <= w < before.len() && before[w].0@ == q;
                            assert(after[w].0@ == q);
                        }
                        if db_map(after).contains_key(q) {
                            let w = choose|w: int| 0 <= w < after.len() && after[w].0@ == q;
                            if w != i {
                                assert(before[w] == after[w]);
                            }
                        }
                    }
                    assert forall|q: Seq<char>| #[trigger] db_map(after).contains_key(q) implies db_map(
                        after,
                    )[q] == old(self)@.insert(key@, entry@)[q] by {
                        let w = key_index(after, q);
                        if q == key@ {
                            assert(after[i as int].0@ == q);
                        } else {
                            assert(w != i);
                            assert(before[w] == after[w]);
                            assert(key_index(before, q) == w);
                        }
                    }
                    assert(db_map(after) =~= old(self)@.insert(key@, entry@));
                }
            },
            None => {
                let ghost before = self.entries@;
                let k = String::from_str(key);
                self.entries.push((k, entry));
                proof {
                    let after = self.entries@;
                    let n = before.len() as int;
                    assert forall|a: int, b: int|
                        0 <= a < after.len() && 0 <= b < after.len() && a != b implies after[a].0@
                        != after[b].0@ by {
                        if a < n && b < n {
                            assert(after[a] == before[a] && after[b] == before[b]);
                        } else if a == n {
                            assert(after[b] == before[b]);
                            assert(!db_map(before).contains_key(key@));
                        } else {
                            assert(after[a] == before[a]);
                            assert(!db_map(before).contains_key(key@));
                        }
                    }
                    assert forall|q: Seq<char>| #[trigger]
                        db_map(after).contains_key(q) == old(self)@.insert(key@, entry@).contains_key(
                            q,
                        ) by {
                        if db_map(before).contains_key(q) {
                            let w = choose|w: int| 0 <= w < before.len() && before[w].0@ == q;
                            assert(after[w].0@ == q);
                        }
                        if q == key@ {
                            assert(after[n].0@ == q);
                        }
                        if db_map(after).contains_key(q) {
                            let w = choose|w: int| 0 <= w < after.len() && after[w].0@ == q;
                            if w != n {
                                assert(before[w] == after[w]);
                            }
                        }
                    }
                    assert forall|q: Seq<char>| #[trigger] db_map(after).contains_key(q) implies db_map(
                        after,
                    )[q] == old(self)@.insert(key@, entry@)[q] by {
                        let w = key_index(after, q);
                        if q == key@ {
                            assert(after[n].0@ == q);
                        } else {
                            assert(w != n);
                            assert(before[w] == after[w]);
                            assert(key_index(before, q) == w);
                        }
                    }
                    assert(db_map(after) =~= old(self)@.insert(key@, entry@));
                }
            },
        }
    }

    /// Removes the entry of `key`; whether there was one.
    pub fn remove(&mut self, key: &str) -> (existed: bool)
        requires
            old(self).wf(),
        ensures
            final(self).wf(),
            (final(self)@, existed) == removed(old(self)@, key@),
    {
        match self.find(key) {
            Some(i) => {
                let ghost before = self.entries@;
                let _ = self.entries.remove(i);
                proof {
                    let after = self.entries@;
                    assert(after =~= before.remove(i as int));
                    assert forall|a: int, b: int|
                        0 <= a < after.len() && 0 <= b < after.len() && a != b implies after[a].0@
                        != after[b].0@ by {
                        let ia = if a < i { a } else { a + 1 };
                        let ib = if b < i { b } else { b + 1 };
                        assert(after[a] == before[ia] && after[b] == before[ib]);
                    }
                    assert forall|q: Seq<char>| #[trigger]
                        db_map(after).contains_key(q) == old(self)@.remove(key@).contains_key(q) by {
                        if db_map(before).contains_key(q) && q != key@ {
                            let w = choose|w: int| 0 <= w < before.len() && before[w].0@ == q;
                            assert(w != i);
                            let a = if w < i { w } else { w - 1 };
                            assert(after[a] == before[w]);
                        }
                        if db_map(after).contains_key(q) {
                            let a = choose|a: int| 0 <= a < after.len() && after[a].0@ == q;
                            let w = if a < i { a } else { a + 1 };
                            assert(after[a] == before[w]);
                            assert(w != i);
                        }
                    }
                    assert forall|q: Seq<char>| #[trigger] db_map(after).contains_key(q) implies db_map(
                        after,
                    )[q] == old(self)@.remove(key@)[q] by {
                        let a = key_index(after, q);
                        let w = if a < i { a } else { a + 1 };
                        assert(after[a] == before[w]);
                        assert(key_index(before, q) == w);
                    }
                    assert(db_map(after) =~= old(self)@.remove(key@));
                }
                true
            },
            None => {
                assert(self@ =~= old(self)@.remove(key@));
                false
            },
        }
    }

    /// The catalogue built from pairs, a later pair of a key replacing an earlier one.
    pub fn from_pairs(pairs: Vec<(String, ModpackEntry)>) -> (r: ModpackDb)
        ensures
            r.wf(),
            r@ == pairs_to_map(pairs@),
    {
        let mut db = ModpackDb::new();
        let mut i: usize = 0;
        while i < pairs.len()
            invariant
                i <= pairs.len(),
                db.wf(),
                db@ == pairs_to_map(pairs@.take(i as int)),
            decreases pairs.len() - i,
        {
            assert(pairs@.take(i + 1).drop_last() =~= pairs@.take(i as int));
            let e = pairs[i].1.duplicate();
            db.upsert(pairs[i].0.as_str(), e);
            i = i + 1;
        }
        assert(pairs@.take(pairs.len() as int) =~= pairs@);
        db
    }

    /// The pairs of the catalogue.
    pub fn to_pairs(&self) -> (r: Vec<(String, ModpackEntry)>)
        requires
            self.wf(),
        ensures
            distinct_keys(r@),
            db_map(r@) == self@,
    {
        let mut out: Vec<(String, ModpackEntry)> = Vec::new();
        let mut i: usize = 0;
        while i < self.entries.len()
            invariant
                i <= self.entries.len(),
                out@.len() == i,
                forall|j: int| 0 <= j < i ==> out@[j].0@ == self.entries@[j].0@ && out@[j].1@
                    == self.entries@[j].1@,
            decreases self.entries.len() - i,
        {
            let k = String::from_str(self.entries[i].0.as_str());
            let e = self.entries[i].1.duplicate();
            out.push((k, e));
            i = i + 1;
        }
        proof {
            assert forall|q: Seq<char>| #[trigger] db_map(out@).contains_key(q) == self@.contains_key(q) by {
                if self@.contains_key(q) {
                    let w = choose|w: int| 0 <= w < self.entries@.len() && self.entries@[w].0@ == q;
                    assert(out@[w].0@ == q);
                }
            }
            assert forall|q: Seq<char>| #[trigger] db_map(out@).contains_key(q) implies db_map(out@)[q]
                == self@[q] by {
                let a = key_index(out@, q);
                assert(key_index(self.entries@, q) == a);
            }
            assert(db_map(out@) =~= self@);
        }
        out
    }
}

/// The map of pairs, a later pair of a key replacing an earlier one.
pub open spec fn pairs_to_map(ps: Seq<(String, ModpackEntry)>) -> Map<Seq<char>, EntryView>
    decreases ps.len(),
{
    if ps.len() == 0 {
        Map::empty()
    } else {
        pairs_to_map(ps.drop_last()).insert(ps.last().0@, ps.last().1@)
    }
}

/// The busy set after `id` is asked for, and whether it was granted (it was
/// free).
pub open spec fn acquired(s: Set<Seq<char>>, id: Seq<char>) -> (Set<Seq<char>>, bool) {
    (s.insert(id), !s.contains(id))
}

/// The busy set after `id` is freed.
pub open spec fn released(s: Set<Seq<char>>, id: Seq<char>) -> Set<Seq<char>> {
    s.remove(id)
}

/// The ids of the servers (or the id `install`) with an operation under way.
pub struct BusySet {
    ids: Vec<String>,
}

impl View for BusySet {
    type V = Set<Seq<char>>;

    closed spec fn view(&self) -> Set<Seq<char>> {
        Set::new(|k: Seq<char>| exists|i: int| 0 <= i < self.ids@.len() && self.ids@[i]@ == k)
    }
}

impl BusySet {
    /// No operation under way.
    pub fn new() -> (r: BusySet)
        ensures
            r@ == Set::<Seq<char>>::empty(),
    {
        let r = BusySet { ids: Vec::new() };
        assert(r@ =~= Set::<Seq<char>>::empty());
        r
    }

    fn position(&self, id: &str) -> (r: Option<usize>)
        ensures
            match r {
                Some(i) => i < self.ids.len() && self.ids@[i as int]@ == id@,
                None => !self@.contains(id@),
            },
    {
        let k = chars_of(id);
        let mut i: usize = 0;
        while i < self.ids.len()
            invariant
                i <= self.ids.len(),
                k@ == id@,
                forall|j: int| 0 <= j < i ==> self.ids@[j]@ != id@,
            decreases self.ids.len() - i,
        {
            let c = chars_of(self.ids[i].as_str());
            if eq_vec(&c, &k) {
                return Some(i);
            }
            i = i + 1;
        }
        None
    }

    /// Whether an operation on `id` is under way.
    pub fn is_busy(&self, id: &str) -> (r: bool)
        ensures
            r == self@.contains(id@),
    {
        self.position(id).is_some()
    }

    /// Marks `id` busy where it was free; false, and nothing changed, where an
    /// operation on it is already under way.
    pub fn try_acquire(&mut self, id: &str) -> (r: bool)
        ensures
            (final(self)@, r) == acquired(old(self)@, id@),
    {
        match self.position(id) {
            Some(_) => {
                assert(self@ =~= old(self)@.insert(id@));
                false
            },
            None => {
                let ghost before = self.ids@;
                self.ids.push(String::from_str(id));
                proof {
                    assert forall|q: Seq<char>| #[trigger] self@.contains(q) == old(self)@.insert(
                        id@,
                    ).contains(q) by {
                        if exists|i: int| 0 <= i < before.len() && before[i]@ == q {
                            let w = choose|w: int| 0 <= w < before.len() && before[w]@ == q;
                            assert(self.ids@[w] == before[w]);
                        }
                        if q == id@ {
                            assert(self.ids@[before.len() as int]@ == q);
                        }
                        if self@.contains(q) {
                            let w = choose|w: int| 0 <= w < self.ids@.len() && self.ids@[w]@ == q;
                            if w < before.len() {
                                assert(self.ids@[w] == before[w]);
                            }
                        }
                    }
                    assert(self@ =~= old(self)@.insert(id@));
                }
                true
            },
        }
    }

    /// Marks `id` free.
    pub fn release(&mut self, id: &str)
        ensures
            final(self)@ == released(old(self)@, id@),
    {
        let k = chars_of(id);
        let ghost before = self.ids@;
        let mut kept: Vec<String> = Vec::new();
        let mut i: usize = 0;
        while i < self.ids.len()
            invariant
                i <= self.ids.len(),
                k@ == id@,
                self.ids@ == before,
                forall|q: Seq<char>|
                    #[trigger] has_id(kept@, q) <==> (q != id@ && has_id(before.take(i as int), q)),
            decreases self.ids.len() - i,
        {
            let c = chars_of(self.ids[i].as_str());
            let ghost kb = kept@;
            let keep = !eq_vec(&c, &k);
            if keep {
                kept.push(self.ids[i].clone());
            }
            proof {
                let t0 = before.take(i as int);
                let t1 = before.take(i + 1);
                assert forall|q: Seq<char>| #[trigger] has_id(kept@, q) <==> (q != id@ && has_id(t1, q)) by {
                    if has_id(kept@, q) {
                        let j = choose|j: int| 0 <= j < kept@.len() && kept@[j]@ == q;
                        if j < kb.len() {
                            assert(kb[j] == kept@[j]);
                            assert(has_id(kb, q));
                            let w = choose|w: int| 0 <= w < t0.len() && t0[w]@ == q;
                            assert(t1[w] == t0[w]);
                        } else {
                            assert(t1[i as int]@ == q);
                        }
                    }
                    if q != id@ && has_id(t1, q) {
                        let w = choose|w: int| 0 <= w < t1.len() && t1[w]@ == q;
                        if w < i {
                            assert(t0[w] == t1[w]);
                            assert(has_id(t0, q));
                            assert(has_id(kb, q));
                            let j = choose|j: int| 0 <= j < kb.len() && kb[j]@ == q;
                            assert(kept@[j] == kb[j]);
                        } else {
                            assert(kept@[kb.len() as int]@ == q);
                        }
                    }
                }
            }
            i = i + 1;
        }
        self.ids = kept;
        proof {
            assert(before.take(before.len() as int) =~= before);
            assert forall|q: Seq<char>| #[trigger] self@.contains(q) == old(self)@.remove(id@).contains(q) by {
                assert(self@.contains(q) == has_id(self.ids@, q));
                assert(old(self)@.contains(q) == has_id(before, q));
            }
            assert(self@ =~= old(self)@.remove(id@));
        }
    }
}

/// Some string of `ids` is `q`.
pub open spec fn has_id(ids: Seq<String>, q: Seq<char>) -> bool {
    exists|j: int| 0 <= j < ids.len() && ids[j]@ == q
}

// ---------------------------------------------------------------------------
// What the catalogue and the busy set keep
// ---------------------------------------------------------------------------

/// Reading a key of the catalogue after an entry was stored under it (`get`
/// after `upsert`) gives that entry.
pub proof fn law_catalogue_get_after_upsert(m: Map<Seq<char>, EntryView>, k: Seq<char>, e: EntryView)
    ensures
        lookup(upserted(m, k, e), k) == Some(e),
{
}

/// Storing an entry (`upsert`) leaves what `get` reads for every other key as
/// it was.
pub proof fn law_catalogue_upsert_keeps_others(
    m: Map<Seq<char>, EntryView>,
    k: Seq<char>,
    e: EntryView,
    other: Seq<char>,
)
    requires
        other != k,
    ensures
        lookup(upserted(m, k, e), other) == lookup(m, other),
{
}

/// Removing a key (`remove`) after storing under it (`upsert`) leaves the
/// catalogue as removing it alone would, and as it was where the key was not
/// there before; the removal reports that the key was there.
pub proof fn law_catalogue_remove_undoes_upsert(m: Map<Seq<char>, EntryView>, k: Seq<char>, e: EntryView)
    ensures
        removed(upserted(m, k, e), k).0 == removed(m, k).0,
        removed(upserted(m, k, e), k).1,
        lookup(m, k) is None ==> removed(upserted(m, k, e), k).0 == m,
{
    assert(m.insert(k, e).remove(k) =~= m.remove(k));
    if !m.contains_key(k) {
        assert(m.remove(k) =~= m);
    }
}

/// Removing a key that `get` does not find changes nothing, and reports that
/// nothing was there.
pub proof fn law_catalogue_remove_absent(m: Map<Seq<char>, EntryView>, k: Seq<char>)
    requires
        lookup(m, k) is None,
    ensures
        removed(m, k) == (m, false),
{
    assert(m.remove(k) =~= m);
}

/// Pairs with distinct keys, read back as a catalogue, give the catalogue they
/// were written from: saving then loading the catalogue gives it back.
pub proof fn law_catalogue_pairs_roundtrip(ps: Seq<(String, ModpackEntry)>)
    requires
        distinct_keys(ps),
    ensures
        pairs_to_map(ps) == db_map(ps),
    decreases ps.len(),
{
    if ps.len() == 0 {
        assert(db_map(ps) =~= Map::<Seq<char>, EntryView>::empty());
    } else {
        let init = ps.drop_last();
        assert(distinct_keys(init)) by {
            assert forall|i: int, j: int|
                0 <= i < init.len() && 0 <= j < init.len() && i != j implies init[i].0@
                != init[j].0@ by {
                assert(init[i] == ps[i] && init[j] == ps[j]);
            }
        }
        law_catalogue_pairs_roundtrip(init);
        let n = ps.len() - 1;
        let lk = ps.last().0@;
        assert forall|q: Seq<char>| #[trigger] db_map(ps).contains_key(q) == db_map(init).insert(
            lk,
            ps.last().1@,
        ).contains_key(q) by {
            if db_map(ps).contains_key(q) && q != lk {
                let w = choose|w: int| 0 <= w < ps.len() && ps[w].0@ == q;
                assert(w != n);
                assert(init[w] == ps[w]);
            }
            if db_map(init).contains_key(q) {
                let w = choose|w: int| 0 <= w < init.len() && init[w].0@ == q;
                assert(ps[w] == init[w]);
            }
            if q == lk {
                assert(ps[n].0@ == q);
            }
        }
        assert forall|q: Seq<char>| #[trigger] db_map(ps).contains_key(q) implies db_map(ps)[q]
            == db_map(init).insert(lk, ps.last().1@)[q] by {
            let a = key_index(ps, q);
            assert(0 <= a < ps.len() && ps[a].0@ == q);
            if q == lk {
                assert(ps[n].0@ == q);
                assert(a == n);
            } else {
                let b = key_index(init, q);
                let w = choose|w: int| 0 <= w < ps.len() && ps[w].0@ == q;
                assert(w != n);
                assert(init[w] == ps[w]);
                assert(0 <= b < init.len() && init[b].0@ == q);
                assert(init[b] == ps[b]);
                assert(a != n);
                assert(a == b);
            }
        }
        assert(db_map(ps) =~= db_map(init).insert(lk, ps.last().1@));
    }
}

/// Once `try_acquire` has been called on an id, a second call on it is
/// refused until it is released.
pub proof fn law_busy_refuses_second(s: Set<Seq<char>>, id: Seq<char>)
    ensures
        !acquired(acquired(s, id).0, id).1,
{
}

/// After `release` of an id, `try_acquire` on it is granted, and on every other
/// id it answers as it did before.
pub proof fn law_busy_release_frees(s: Set<Seq<char>>, id: Seq<char>, other: Seq<char>)
    requires
        other != id,
    ensures
        acquired(released(s, id), id).1,
        acquired(released(s, id), other).1 == acquired(s, other).1,
{
}

/// An operation on a free id, granted by `try_acquire` and ended by `release`,
/// leaves the busy set as it found it.
pub proof fn law_busy_guard_restores(s: Set<Seq<char>>, id: Seq<char>)
    requires
        acquired(s, id).1,
    ensures
        released(acquired(s, id).0, id) == s,
{
    assert(s.insert(id).remove(id) =~= s);
}

} // verus!
