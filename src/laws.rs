//! Properties that relate several operations on a repository's state.
use vstd::prelude::*;
use crate::index::{Checkpoint, Config, decoded, entries_of, kept, listing, missing_count};

verus! {

proof fn lemma_kept_facts(e: Seq<(Seq<char>, Seq<char>)>, p: Seq<Seq<char>>)
    ensures
        kept(e, p).len() + missing_count(e, p) == e.len(),
        forall|i: int| 0 <= i < kept(e, p).len() ==> p.contains(#[trigger] kept(e, p)[i].0),
        kept(kept(e, p), p) == kept(e, p),
        missing_count(kept(e, p), p) == 0,
    decreases e.len(),
{
    if e.len() > 0 {
        let rest = kept(e.drop_last(), p);
        lemma_kept_facts(e.drop_last(), p);
        if p.contains(e.last().0) {
            let k = rest.push(e.last());
            assert(k.drop_last() =~= rest);
            assert(k.last() == e.last());
            assert forall|i: int| 0 <= i < k.len() implies p.contains(#[trigger] k[i].0) by {
                if i < rest.len() {
                    assert(k[i] == rest[i]);
                }
            }
        }
    }
}

/// Pruning against the directories found on disk leaves exactly the records
/// whose directory is there, as many as there were records less those
/// without one; pruning again against the same directories drops nothing
/// and leaves the index as it is.
pub proof fn lemma_prune_settles(c: Config, present: Seq<Seq<char>>)
    requires
        c.wf(),
    ensures
        kept(c.entries(), present).len() == c.entries().len() - missing_count(
            c.entries(),
            present,
        ),
        forall|i: int|
            0 <= i < kept(c.entries(), present).len() ==> present.contains(
                #[trigger] kept(c.entries(), present)[i].0,
            ),
        missing_count(kept(c.entries(), present), present) == 0,
        kept(kept(c.entries(), present), present) == kept(c.entries(), present),
{
    lemma_kept_facts(c.entries(), present);
}

/// Saving a state and loading it back gives the same state: the records that
/// `Config::to_parts` gives for it (those with the same entries, in order),
/// handed to `Config::from_parts` with its tracked directory, are accepted and
/// rebuild the same tracked directory and index.
pub proof fn lemma_save_load_round_trip(c: Config, parts: Seq<Checkpoint>)
    requires
        c.wf(),
        entries_of(parts) == c.entries(),
    ensures
        decoded(c.target(), entries_of(parts)) == Some((c.target(), c.entries())),
{
}

/// A listing depends on the index and the directories on disk alone: two
/// listings of one index, with nothing changed in between, are equal.
pub proof fn lemma_listing_repeatable(a: Config, b: Config, present: Seq<Seq<char>>)
    requires
        a.target() == b.target(),
        a.entries() == b.entries(),
    ensures
        listing(a.entries(), present) == listing(b.entries(), present),
{
}

} // verus!
