//! The index of checkpoints: names kept unique and in lexicographic order,
//! and its reconciliation with the checkpoint directories found on disk.
use vstd::prelude::*;
use crate::error::AltsError;
use crate::lexical::{less_than, lemma_less_total, lemma_less_transitive, str_less};

verus! {

/// One record of the index: a checkpoint's name and when it was taken.
#[derive(Debug, PartialEq, Eq)]
pub struct Checkpoint {
    pub name: String,
    pub timestamp: String,
}

/// The records as (name, timestamp) pairs.
pub open spec fn entries_of(v: Seq<Checkpoint>) -> Seq<(Seq<char>, Seq<char>)> {
    Seq::new(v.len(), |i: int| (v[i].name@, v[i].timestamp@))
}

pub open spec fn names_of(v: Seq<String>) -> Seq<Seq<char>> {
    Seq::new(v.len(), |i: int| v[i]@)
}

/// Names strictly increasing: unique, and in lexicographic order.
pub open spec fn sorted_by_name(e: Seq<(Seq<char>, Seq<char>)>) -> bool {
    forall|i: int, j: int| 0 <= i < j < e.len() ==> str_less(#[trigger] e[i].0, #[trigger] e[j].0)
}

pub open spec fn has_name(e: Seq<(Seq<char>, Seq<char>)>, k: Seq<char>) -> bool {
    exists|i: int| 0 <= i < e.len() && #[trigger] e[i].0 == k
}

/// The records whose directory is among `present`, in their order.
pub open spec fn kept(e: Seq<(Seq<char>, Seq<char>)>, present: Seq<Seq<char>>) -> Seq<
    (Seq<char>, Seq<char>),
>
    decreases e.len(),
{
    if e.len() == 0 {
        e
    } else if present.contains(e.last().0) {
        kept(e.drop_last(), present).push(e.last())
    } else {
        kept(e.drop_last(), present)
    }
}

/// How many records have no directory among `present`.
pub open spec fn missing_count(e: Seq<(Seq<char>, Seq<char>)>, present: Seq<Seq<char>>) -> nat
    decreases e.len(),
{
    if e.len() == 0 {
        0
    } else if present.contains(e.last().0) {
        missing_count(e.drop_last(), present)
    } else {
        missing_count(e.drop_last(), present) + 1
    }
}

/// The repository's state: the tracked directory and the index of checkpoints.
#[derive(Debug, PartialEq, Eq)]
pub struct Config {
    target_dir: String,
    checkpoints: Vec<Checkpoint>,
}

impl Config {
    /// The name of the tracked directory.
    pub closed spec fn target(&self) -> Seq<char> {
        self.target_dir@
    }

    /// The index, in its order.
    pub closed spec fn entries(&self) -> Seq<(Seq<char>, Seq<char>)> {
        entries_of(self.checkpoints@)
    }

    pub open spec fn wf(&self) -> bool {
        sorted_by_name(self.entries())
    }

    /// A state that tracks `target_dir` and has no checkpoints.
    pub fn new(target_dir: String) -> (r: Config)
        ensures
            r.wf(),
            r.target() == target_dir@,
            r.entries() == Seq::<(Seq<char>, Seq<char>)>::empty(),
    {
        let r = Config { target_dir, checkpoints: Vec::new() };
        assert(r.entries() =~= Seq::<(Seq<char>, Seq<char>)>::empty());
        r
    }

    pub fn target_dir(&self) -> (r: &String)
        ensures
            r@ == self.target(),
    {
        &self.target_dir
    }

    pub fn len(&self) -> (r: usize)
        ensures
            r == self.entries().len(),
    {
        self.checkpoints.len()
    }

    /// Whether the index holds a checkpoint named `name`.
    pub fn contains(&self, name: &String) -> (r: bool)
        ensures
            r == has_name(self.entries(), name@),
    {
        let mut i: usize = 0;
        while i < self.checkpoints.len()
            invariant
                i <= self.checkpoints@.len(),
                forall|j: int| 0 <= j < i ==> self.entries()[j].0 != name@,
            decreases self.checkpoints@.len() - i,
        {
            if self.checkpoints[i].name == *name {
                assert(self.entries()[i as int].0 == name@);
                return true;
            }
            i = i + 1;
        }
        false
    }

    /// Adds the checkpoint `name`, taken at `timestamp`, in its place in the order.
    pub fn insert_checkpoint(&mut self, name: String, timestamp: String)
        requires
            old(self).wf(),
            !has_name(old(self).entries(), name@),
        ensures
            final(self).wf(),
            final(self).target() == old(self).target(),
            final(self).entries().len() == old(self).entries().len() + 1,
            forall|x: (Seq<char>, Seq<char>)|
                #[trigger] final(self).entries().contains(x) <==> (old(self).entries().contains(x)
                    || x == (name@, timestamp@)),
    {
        let ghost e = self.entries();
        let ghost x = (name@, timestamp@);
        let mut i: usize = 0;
        while i < self.checkpoints.len() && less_than(self.checkpoints[i].name.as_str(), name.as_str())
            invariant
                i <= self.checkpoints@.len(),
                e == self.entries(),
                forall|j: int| 0 <= j < i ==> str_less(#[trigger] e[j].0, name@),
            decreases self.checkpoints@.len() - i,
        {
            i = i + 1;
        }
        proof {
            if i < e.len() {
                assert(e[i as int].0 != name@);
                lemma_less_total(e[i as int].0, name@);
                assert forall|j: int| i < j < e.len() implies str_less(name@, #[trigger] e[j].0) by {
                    lemma_less_transitive(name@, e[i as int].0, e[j].0);
                }
            }
        }
        self.checkpoints.insert(i, Checkpoint { name, timestamp });
        let ghost f = self.entries();
        proof {
            assert(f =~= e.insert(i as int, x));
            assert forall|a: int, b: int| 0 <= a < b < f.len() implies str_less(
                #[trigger] f[a].0,
                #[trigger] f[b].0,
            ) by {
                if b < i {
                } else if b == i {
                } else if a < i {
                    lemma_less_transitive(f[a].0, name@, f[b].0);
                } else if a == i {
                } else {
                    assert(f[a] == e[a - 1] && f[b] == e[b - 1]);
                }
            }
            assert forall|y: (Seq<char>, Seq<char>)| #[trigger] f.contains(y) <==> (e.contains(y)
                || y == x) by {
                if f.contains(y) {
                    let k = choose|k: int| 0 <= k < f.len() && f[k] == y;
                    if k < i {
                        assert(e[k] == y);
                    } else if k > i {
                        assert(e[k - 1] == y);
                    }
                }
                if e.contains(y) {
                    let k = choose|k: int| 0 <= k < e.len() && e[k] == y;
                    if k < i {
                        assert(f[k] == y);
                    } else {
                        assert(f[k + 1] == y);
                    }
                }
                if y == x {
                    assert(f[i as int] == y);
                }
            }
        }
    }
}

/// Whether `name` is among `present`.
pub fn name_in(present: &Vec<String>, name: &String) -> (r: bool)
    ensures
        r == names_of(present@).contains(name@),
{
    let mut i: usize = 0;
    while i < present.len()
        invariant
            i <= present@.len(),
            forall|j: int| 0 <= j < i ==> present@[j]@ != name@,
        decreases present@.len() - i,
    {
        if present[i] == *name {
            assert(names_of(present@)[i as int] == name@);
            return true;
        }
        i = i + 1;
    }
    proof {
        if names_of(present@).contains(name@) {
            let k = choose|k: int| 0 <= k < present@.len() && names_of(present@)[k] == name@;
            assert(present@[k]@ == name@);
        }
    }
    false
}

/// A copy of a record.
pub fn copy_checkpoint(c: &Checkpoint) -> (r: Checkpoint)
    ensures
        r.name@ == c.name@,
        r.timestamp@ == c.timestamp@,
{
    Checkpoint { name: c.name.clone(), timestamp: c.timestamp.clone() }
}

/// One line of a listing: a checkpoint, whether its directory exists, and when
/// it was taken.
#[derive(Debug, PartialEq, Eq)]
pub struct ListEntry {
    pub name: String,
    pub exists: bool,
    pub timestamp: String,
}

/// The listing of an index against the directories found on disk.
pub open spec fn listing(e: Seq<(Seq<char>, Seq<char>)>, present: Seq<Seq<char>>) -> Seq<
    (Seq<char>, bool, Seq<char>),
> {
    Seq::new(e.len(), |i: int| (e[i].0, present.contains(e[i].0), e[i].1))
}

pub open spec fn listing_of(v: Seq<ListEntry>) -> Seq<(Seq<char>, bool, Seq<char>)> {
    Seq::new(v.len(), |i: int| (v[i].name@, v[i].exists, v[i].timestamp@))
}

/// The total of the known sizes of the records whose directory exists.
pub open spec fn size_total(
    e: Seq<(Seq<char>, Seq<char>)>,
    present: Seq<Seq<char>>,
    sizes: Seq<Option<u64>>,
) -> nat
    decreases e.len(),
{
    if e.len() == 0 || sizes.len() == 0 {
        0
    } else {
        let rest = size_total(e.drop_last(), present, sizes.drop_last());
        match sizes.last() {
            Some(kb) => if present.contains(e.last().0) {
                rest + kb as nat
            } else {
                rest
            },
            None => rest,
        }
    }
}

/// What a repository holds: its checkpoints, how many of them have their
/// directory and how many do not, and the size of those that have it.
#[derive(Debug, PartialEq, Eq)]
pub struct Summary {
    pub total: usize,
    pub valid: usize,
    pub missing: usize,
    pub total_size_kb: u64,
}

/// The state as a state file stores it, read back: accepted where the names
/// are unique and in order.
pub open spec fn decoded(target: Seq<char>, e: Seq<(Seq<char>, Seq<char>)>) -> Option<
    (Seq<char>, Seq<(Seq<char>, Seq<char>)>),
> {
    if sorted_by_name(e) {
        Some((target, e))
    } else {
        None
    }
}

proof fn lemma_kept_len(e: Seq<(Seq<char>, Seq<char>)>, present: Seq<Seq<char>>)
    ensures
        kept(e, present).len() + missing_count(e, present) == e.len(),
    decreases e.len(),
{
    if e.len() > 0 {
        lemma_kept_len(e.drop_last(), present);
    }
}

impl Config {
    /// Drops from the index every checkpoint whose directory is not among
    /// `present`, keeping the order, and returns how many were dropped.
    pub fn prune(&mut self, present: &Vec<String>) -> (removed: usize)
        requires
            old(self).wf(),
        ensures
            final(self).wf(),
            final(self).target() == old(self).target(),
            final(self).entries() == kept(old(self).entries(), names_of(present@)),
            removed == missing_count(old(self).entries(), names_of(present@)),
    {
        let ghost e = self.entries();
        let ghost p = names_of(present@);
        let mut keep: Vec<Checkpoint> = Vec::new();
        let mut removed: usize = 0;
        let mut i: usize = 0;
        assert(e.take(0) =~= Seq::<(Seq<char>, Seq<char>)>::empty());
        while i < self.checkpoints.len()
            invariant
                i <= self.checkpoints@.len(),
                e == self.entries(),
                sorted_by_name(e),
                p == names_of(present@),
                entries_of(keep@) == kept(e.take(i as int), p),
                removed == missing_count(e.take(i as int), p),
                removed <= i,
                sorted_by_name(entries_of(keep@)),
                forall|a: int, j: int|
                    0 <= a < keep@.len() && i <= j < e.len() ==> str_less(
                        #[trigger] entries_of(keep@)[a].0,
                        #[trigger] e[j].0,
                    ),
            decreases self.checkpoints@.len() - i,
        {
            assert(e.take(i + 1).drop_last() =~= e.take(i as int));
            assert(e.take(i + 1).last() == e[i as int]);
            if name_in(present, &self.checkpoints[i].name) {
                let c = copy_checkpoint(&self.checkpoints[i]);
                let ghost before = entries_of(keep@);
                keep.push(c);
                assert(entries_of(keep@) =~= before.push(e[i as int]));
            } else {
                removed = removed + 1;
            }
            i = i + 1;
        }
        assert(e.take(i as int) =~= e);
        self.checkpoints = keep;
        removed
    }

    /// Each checkpoint of the index, in order, with whether its directory is
    /// among `present`.
    pub fn list(&self, present: &Vec<String>) -> (r: Vec<ListEntry>)
        ensures
            listing_of(r@) == listing(self.entries(), names_of(present@)),
    {
        let mut r: Vec<ListEntry> = Vec::new();
        let mut i: usize = 0;
        while i < self.checkpoints.len()
            invariant
                i <= self.checkpoints@.len(),
                r@.len() == i,
                listing_of(r@) == listing(self.entries(), names_of(present@)).take(i as int),
            decreases self.checkpoints@.len() - i,
        {
            let c = &self.checkpoints[i];
            let exists = name_in(present, &c.name);
            let ghost before_r = r@;
            r.push(ListEntry { name: c.name.clone(), exists, timestamp: c.timestamp.clone() });
            assert(r@ == before_r.push(r@[i as int]));
            assert(listing_of(r@)[i as int] == listing(self.entries(), names_of(present@))[i as int]);
            assert(listing_of(r@) =~= listing(self.entries(), names_of(present@)).take(i + 1));
            i = i + 1;
        }
        assert(listing(self.entries(), names_of(present@)).take(i as int) =~= listing(
            self.entries(),
            names_of(present@),
        ));
        r
    }

    /// Counts the checkpoints with and without their directory among
    /// `present`, and adds up `sizes` (one for each checkpoint, in order,
    /// where known) over those with it; the total stops at `u64::MAX`.
    pub fn describe(&self, present: &Vec<String>, sizes: &Vec<Option<u64>>) -> (r: Summary)
        requires
            sizes@.len() == self.entries().len(),
        ensures
            r.total == self.entries().len(),
            r.valid == kept(self.entries(), names_of(present@)).len(),
            r.missing == missing_count(self.entries(), names_of(present@)),
            r.total_size_kb == if size_total(self.entries(), names_of(present@), sizes@)
                <= u64::MAX {
                size_total(self.entries(), names_of(present@), sizes@)
            } else {
                u64::MAX as nat
            },
    {
        let ghost e = self.entries();
        let ghost p = names_of(present@);
        let mut valid: usize = 0;
        let mut missing: usize = 0;
        let mut total: u64 = 0;
        let mut i: usize = 0;
        while i < self.checkpoints.len()
            invariant
                i <= self.checkpoints@.len(),
                e == self.entries(),
                p == names_of(present@),
                sizes@.len() == e.len(),
                valid == kept(e.take(i as int), p).len(),
                missing == missing_count(e.take(i as int), p),
                valid + missing == i,
                total == if size_total(e.take(i as int), p, sizes@.take(i as int)) <= u64::MAX {
                    size_total(e.take(i as int), p, sizes@.take(i as int))
                } else {
                    u64::MAX as nat
                },
            decreases self.checkpoints@.len() - i,
        {
            proof {
                lemma_kept_len(e.take(i + 1), p);
            }
            assert(e.take(i + 1).drop_last() =~= e.take(i as int));
            assert(sizes@.take(i + 1).drop_last() =~= sizes@.take(i as int));
            assert(e.take(i + 1).last() == e[i as int]);
            assert(sizes@.take(i + 1).last() == sizes@[i as int]);
            if name_in(present, &self.checkpoints[i].name) {
                valid = valid + 1;
                match sizes[i] {
                    Some(kb) => {
                        total = total.saturating_add(kb);
                    },
                    None => {},
                }
            } else {
                missing = missing + 1;
            }
            i = i + 1;
        }
        assert(e.take(i as int) =~= e);
        assert(sizes@.take(i as int) =~= sizes@);
        Summary { total: self.checkpoints.len(), valid, missing, total_size_kb: total }
    }

    /// The records of the index, in order, as a state file stores them.
    pub fn to_parts(&self) -> (r: Vec<Checkpoint>)
        ensures
            entries_of(r@) == self.entries(),
    {
        let mut r: Vec<Checkpoint> = Vec::new();
        let mut i: usize = 0;
        while i < self.checkpoints.len()
            invariant
                i <= self.checkpoints@.len(),
                r@.len() == i,
                entries_of(r@) == self.entries().take(i as int),
            decreases self.checkpoints@.len() - i,
        {
            let c = copy_checkpoint(&self.checkpoints[i]);
            let ghost before_r = r@;
            r.push(c);
            assert(r@ == before_r.push(c));
            assert(entries_of(r@)[i as int] == self.entries()[i as int]);
            assert(entries_of(r@) =~= self.entries().take(i + 1));
            i = i + 1;
        }
        assert(self.entries().take(i as int) =~= self.entries());
        r
    }

    /// Rebuilds a state from what a state file stores: the tracked directory
    /// and the records, whose names must be unique and in order.
    pub fn from_parts(target_dir: String, parts: Vec<Checkpoint>) -> (r: Result<Config, AltsError>)
        ensures
            match r {
                Ok(c) => c.wf() && decoded(target_dir@, entries_of(parts@)) == Some(
                    (c.target(), c.entries()),
                ),
                Err(err) => err == AltsError::CorruptState && decoded(
                    target_dir@,
                    entries_of(parts@),
                ) is None,
            },
    {
        let ghost e = entries_of(parts@);
        let mut i: usize = 1;
        while i < parts.len()
            invariant
                1 <= i,
                e == entries_of(parts@),
                forall|a: int, b: int|
                    0 <= a < b < e.len() && b < i ==> str_less(#[trigger] e[a].0, #[trigger] e[b].0),
            decreases parts@.len() - i,
        {
            if !less_than(parts[i - 1].name.as_str(), parts[i].name.as_str()) {
                assert(!str_less(e[i - 1].0, e[i as int].0));
                return Err(AltsError::CorruptState);
            }
            proof {
                assert forall|a: int| 0 <= a < i implies str_less(#[trigger] e[a].0, e[i as int].0) by {
                    if a < i - 1 {
                        lemma_less_transitive(e[a].0, e[i - 1].0, e[i as int].0);
                    }
                }
            }
            i = i + 1;
        }
        Ok(Config { target_dir, checkpoints: parts })
    }
}

} // verus!
