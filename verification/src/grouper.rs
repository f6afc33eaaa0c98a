//! Folding a flat stream of rows into groups.
//!
//! Some listings mix status headings with the rows of finishers: a heading,
//! then the rows that belong under it, then the next heading. The grouper puts
//! each placement under the heading that came last before it. A placement
//! with no heading before it has no group to go to: that is an error, and the
//! fold stops there.

use vstd::prelude::*;

verus! {

/// One element of the stream.
pub enum Entry<S, P> {
    Status(S),
    Placement(P),
}

/// A heading and the placements under it, in stream order.
pub struct Group<S, P> {
    pub status: S,
    pub placements: Vec<P>,
}

/// The groups built so far, in stream order.
pub struct Groups<S, P> {
    pub groups: Vec<Group<S, P>>,
}

/// A placement came before any status heading.
#[derive(Clone, Copy, Debug, PartialEq, Eq, Structural)]
pub struct PlacementBeforeStatus;

/// The groups with `entry` added: a heading opens a new group, a placement
/// joins the last group, and fails if there is none.
pub open spec fn spec_push<S, P>(groups: Seq<(S, Seq<P>)>, entry: Entry<S, P>) -> Option<
    Seq<(S, Seq<P>)>,
> {
    match entry {
        Entry::Status(s) => Some(groups.push((s, Seq::empty()))),
        Entry::Placement(p) => if groups.len() == 0 {
            None
        } else {
            Some(groups.drop_last().push((groups.last().0, groups.last().1.push(p))))
        },
    }
}

/// The groups with `entries` added one after the other, unless one of them
/// fails.
pub open spec fn spec_extend<S, P>(groups: Seq<(S, Seq<P>)>, entries: Seq<Entry<S, P>>) -> Option<
    Seq<(S, Seq<P>)>,
>
    decreases entries.len(),
{
    if entries.len() == 0 {
        Some(groups)
    } else {
        match spec_push(groups, entries[0]) {
            None => None,
            Some(next) => spec_extend(next, entries.drop_first()),
        }
    }
}

impl<S, P> View for Groups<S, P> {
    type V = Seq<(S, Seq<P>)>;

    open spec fn view(&self) -> Seq<(S, Seq<P>)> {
        Seq::new(
            self.groups@.len(),
            |i: int| (self.groups@[i].status, self.groups@[i].placements@),
        )
    }
}

impl<S, P> Groups<S, P> {
    /// No groups.
    pub fn new() -> (g: Groups<S, P>)
        ensures
            g@ == Seq::<(S, Seq<P>)>::empty(),
    {
        let g = Groups { groups: Vec::new() };
        assert(g@ =~= Seq::<(S, Seq<P>)>::empty());
        g
    }

    /// Adds one entry. On failure the groups are unchanged.
    pub fn push(&mut self, entry: Entry<S, P>) -> (r: Result<(), PlacementBeforeStatus>)
        ensures
            match r {
                Ok(()) => spec_push(old(self)@, entry) == Some(final(self)@),
                Err(_) => spec_push(old(self)@, entry) is None && final(self)@ == old(self)@,
            },
    {
        match entry {
            Entry::Status(status) => {
                self.groups.push(Group { status, placements: Vec::new() });
                assert(self@ =~= old(self)@.push((status, Seq::empty())));
                Ok(())
            },
            Entry::Placement(p) => {
                match self.groups.pop() {
                    None => {
                        assert(self@ =~= old(self)@);
                        Err(PlacementBeforeStatus)
                    },
                    Some(last) => {
                        let Group { status, placements } = last;
                        let mut placements = placements;
                        placements.push(p);
                        self.groups.push(Group { status, placements });
                        assert(self@ =~= old(self)@.drop_last().push(
                            (old(self)@.last().0, old(self)@.last().1.push(p)),
                        ));
                        Ok(())
                    },
                }
            },
        }
    }

    /// Adds the entries in order. The fold stops at the first placement that
    /// has no heading before it; the entries before that one stay added.
    #[verifier::loop_isolation(false)]
    pub fn extend(&mut self, entries: Vec<Entry<S, P>>) -> (r: Result<(), PlacementBeforeStatus>)
        ensures
            match r {
                Ok(()) => spec_extend(old(self)@, entries@) == Some(final(self)@),
                Err(_) => {
                    &&& spec_extend(old(self)@, entries@) is None
                    &&& exists|k: int|
                        0 <= k < entries@.len() && #[trigger] spec_extend(
                            old(self)@,
                            entries@.take(k),
                        ) == Some(final(self)@) && spec_push(final(self)@, entries@[k]) is None
                },
            },
    {
        let ghost all = entries@;
        let ghost start = self@;
        let mut done: Ghost<int> = Ghost(0);
        proof {
            assert(all.skip(0) =~= all);
            assert(all.take(0) =~= Seq::<Entry<S, P>>::empty());
        }
        for entry in it: entries
            invariant
                it.seq() == all,
                done@ == it.index(),
                0 <= done@ <= all.len(),
                spec_extend(start, all) == spec_extend(self@, all.skip(done@)),
                spec_extend(start, all.take(done@)) == Some(self@),
        {
            let ghost k = done@;
            let ghost before = self@;
            proof {
                assert(all.skip(k)[0] == entry);
                assert(all.skip(k).drop_first() =~= all.skip(k + 1));
            }
            match self.push(entry) {
                Ok(()) => {
                    proof {
                        lemma_extend_one(start, all.take(k), entry);
                        assert(all.take(k).push(entry) =~= all.take(k + 1));
                        done@ = k + 1;
                    }
                },
                Err(e) => {
                    proof {
                        assert(all.skip(k).len() > 0);
                        assert(spec_extend(before, all.skip(k)) is None);
                        assert(spec_extend(start, all.take(k)) == Some(self@));
                    }
                    return Err(e);
                },
            }
        }
        proof {
            assert(all.skip(all.len() as int) =~= Seq::<Entry<S, P>>::empty());
        }
        Ok(())
    }
}

/// Adding a run of entries and then one more is adding the longer run.
pub proof fn lemma_extend_one<S, P>(
    groups: Seq<(S, Seq<P>)>,
    entries: Seq<Entry<S, P>>,
    entry: Entry<S, P>,
)
    ensures
        spec_extend(groups, entries.push(entry)) == match spec_extend(groups, entries) {
            Some(g) => spec_push(g, entry),
            None => None,
        },
    decreases entries.len(),
{
    let longer = entries.push(entry);
    if entries.len() == 0 {
        assert(longer[0] == entry);
        assert(longer.drop_first() =~= Seq::<Entry<S, P>>::empty());
        match spec_push(groups, entry) {
            Some(g) => {
                assert(spec_extend(g, longer.drop_first()) == Some(g));
            },
            None => {},
        }
    } else {
        assert(longer[0] == entries[0]);
        assert(longer.drop_first() =~= entries.drop_first().push(entry));
        match spec_push(groups, entries[0]) {
            Some(g) => {
                lemma_extend_one(g, entries.drop_first(), entry);
            },
            None => {},
        }
    }
}

/// A stream that starts with a placement cannot be grouped.
pub proof fn lemma_placement_first_fails<S, P>(entries: Seq<Entry<S, P>>)
    requires
        entries.len() > 0,
        entries[0] is Placement,
    ensures
        spec_extend(Seq::<(S, Seq<P>)>::empty(), entries) is None,
{
}

/// Grouping keeps every heading, in order: a stream of headings alone gives
/// one empty group for each.
pub proof fn lemma_status_opens_group<S, P>(groups: Seq<(S, Seq<P>)>, status: S)
    ensures
        spec_push(groups, Entry::<S, P>::Status(status)) == Some(
            groups.push((status, Seq::<P>::empty())),
        ),
{
}

/// An entry with its placement seen through `f`.
pub open spec fn map_entry<S, P, Q>(entry: Entry<S, P>, f: spec_fn(P) -> Q) -> Entry<S, Q> {
    match entry {
        Entry::Status(s) => Entry::Status(s),
        Entry::Placement(p) => Entry::Placement(f(p)),
    }
}

/// Groups with their placements seen through `f`.
pub open spec fn map_groups<S, P, Q>(groups: Seq<(S, Seq<P>)>, f: spec_fn(P) -> Q) -> Seq<
    (S, Seq<Q>),
> {
    Seq::new(groups.len(), |i: int| (groups[i].0, groups[i].1.map_values(f)))
}

/// Adding an entry commutes with viewing the placements.
pub proof fn lemma_push_map<S, P, Q>(
    groups: Seq<(S, Seq<P>)>,
    entry: Entry<S, P>,
    f: spec_fn(P) -> Q,
)
    ensures
        spec_push(map_groups(groups, f), map_entry(entry, f)) == match spec_push(groups, entry) {
            Some(g) => Some(map_groups(g, f)),
            None => None,
        },
{
    match entry {
        Entry::Status(s) => {
            let g = groups.push((s, Seq::<P>::empty()));
            assert(Seq::<P>::empty().map_values(f) =~= Seq::<Q>::empty());
            assert(map_groups(g, f) =~= map_groups(groups, f).push((s, Seq::<Q>::empty())));
        },
        Entry::Placement(p) => {
            if groups.len() > 0 {
                let last = groups.last();
                let g = groups.drop_last().push((last.0, last.1.push(p)));
                let m = map_groups(groups, f);
                assert(last.1.push(p).map_values(f) =~= last.1.map_values(f).push(f(p)));
                assert(map_groups(g, f) =~= m.drop_last().push(
                    (m.last().0, m.last().1.push(f(p))),
                ));
            }
        },
    }
}

} // verus!
