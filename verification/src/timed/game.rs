//! The sessions of a game and the seconds played in each.

use std::collections::BTreeMap;
use vstd::prelude::*;
use vstd::std_specs::btree::*;
use vstd::std_specs::cmp::OrdSpec;
use vstd::std_specs::iter::IteratorSpec;

verus! {

/// A game with the seconds played in each of its sessions, by the number of
/// the session.
pub struct Game {
    pub sessions: BTreeMap<usize, usize>,
}

/// The place of the first row whose session number is zero, or the number
/// of rows where there is none: the rows from there on are not read.
pub open spec fn rows_read(rows: Seq<(usize, usize)>) -> nat
    decreases rows.len(),
{
    if rows.len() == 0 {
        0
    } else if rows[0].0 == 0 {
        0
    } else {
        1 + rows_read(rows.drop_first())
    }
}

/// The sessions with the first `n` rows noted: each row gives the seconds
/// of a session, and a later row for a session replaces an earlier one.
pub open spec fn with_rows(sessions: Map<usize, usize>, rows: Seq<(usize, usize)>, n: nat) -> Map<usize, usize>
    decreases n,
{
    if n == 0 {
        sessions
    } else {
        with_rows(sessions, rows, (n - 1) as nat).insert(rows[n - 1].0, rows[n - 1].1)
    }
}

/// The rows before the first zero are as many as are read.
pub proof fn lemma_rows_read(rows: Seq<(usize, usize)>, n: int)
    requires
        0 <= n <= rows.len(),
        forall|i: int| 0 <= i < n ==> (#[trigger] rows[i]).0 != 0,
        n < rows.len() ==> rows[n].0 == 0,
    ensures
        rows_read(rows) == n,
    decreases rows.len(),
{
    if rows.len() > 0 && n > 0 {
        let rest = rows.drop_first();
        assert forall|i: int| 0 <= i < n - 1 implies (#[trigger] rest[i]).0 != 0 by {
            assert(rest[i] == rows[i + 1]);
        }
        lemma_rows_read(rest, n - 1);
    }
}

impl Game {
    /// A game without sessions.
    pub fn new() -> (r: Self)
        ensures
            r.sessions@ == Map::<usize, usize>::empty(),
    {
        Game { sessions: BTreeMap::new() }
    }

    /// Notes the seconds of the sessions that the rows give, each row a
    /// session number and its seconds, up to the first row whose session
    /// number is zero.
    pub fn record_sessions(&mut self, rows: &Vec<(usize, usize)>)
        ensures
            final(self).sessions@ == with_rows(old(self).sessions@, rows@, rows_read(rows@)),
    {
        broadcast use group_btree_axioms;

        let mut i: usize = 0;
        while i < rows.len()
            invariant
                i <= rows@.len(),
                forall|k: int| 0 <= k < i ==> (#[trigger] rows@[k]).0 != 0,
                self.sessions@ == with_rows(old(self).sessions@, rows@, i as nat),
            decreases rows@.len() - i,
        {
            let (session_number, seconds) = rows[i];
            if session_number == 0 {
                proof {
                    lemma_rows_read(rows@, i as int);
                }
                return ;
            }
            self.sessions.insert(session_number, seconds);
            i += 1;
        }
        proof {
            lemma_rows_read(rows@, i as int);
        }
    }

    /// The seconds of a session, where the session is noted.
    pub fn session_seconds(&self, session_number: usize) -> (r: Option<usize>)
        ensures
            r == (if self.sessions@.contains_key(session_number) {
                Some(self.sessions@[session_number])
            } else {
                None
            }),
    {
        broadcast use group_btree_axioms;

        match self.sessions.get(&session_number) {
            Some(seconds) => Some(*seconds),
            None => None,
        }
    }
}

impl Game {
    /// The sessions with their seconds, one entry for each session, in the
    /// rising order of their numbers.
    pub fn report_sessions(&self) -> (r: Vec<(usize, usize)>)
        ensures
            r@.len() == self.sessions@.dom().len(),
            forall|i: int|
                0 <= i < r@.len() ==> self.sessions@.contains_key((#[trigger] r@[i]).0) && self.sessions@[r@[i].0]
                    == r@[i].1,
            forall|k: usize| #[trigger]
                self.sessions@.contains_key(k) ==> r@.contains((k, self.sessions@[k])),
            forall|i: int, j: int| 0 <= i < j < r@.len() ==> (#[trigger] r@[i]).0 < (#[trigger] r@[j]).0,
    {
        broadcast use group_btree_axioms;

        broadcast use vstd::laws_cmp::group_laws_cmp;

        let mut rows: Vec<(usize, usize)> = Vec::new();
        let iter = self.sessions.iter();
        let ghost keys = iter.remaining().map_values(|kv: (&usize, &usize)| *kv.0);
        proof {
            assert(increasing_seq(keys));
            axiom_increasing_seq_meaning(keys);
            assert forall|i: int, j: int| 0 <= i < j < keys.len() implies (#[trigger] keys[i]) < (
            #[trigger] keys[j]) by {
                assert(keys[i].cmp_spec(&keys[j]) is Less);
            }
        }
        for entry in it: iter
            invariant
                rows@.len() == it.index(),
                forall|i: int| 0 <= i < rows@.len() ==> (#[trigger] rows@[i]) == (*it.seq()[i].0, *it.seq()[i].1),
                keys == it.seq().map_values(|kv: (&usize, &usize)| *kv.0),
                forall|i: int| 0 <= i < rows@.len() ==> (#[trigger] rows@[i]).0 == keys[i],
                forall|i: int, j: int| 0 <= i < j < keys.len() ==> (#[trigger] keys[i]) < (#[trigger] keys[j]),
        {
            let (session_number, seconds) = entry;
            rows.push((*session_number, *seconds));
        }
        proof {
            let all = self.sessions.iter().remaining();
            assert forall|k: usize| #[trigger] self.sessions@.contains_key(k) implies rows@.contains(
                (k, self.sessions@[k]),
            ) by {
                assert(all.contains((&k, &self.sessions@[k])));
                let i = all.index_of((&k, &self.sessions@[k]));
                assert(rows@[i] == (k, self.sessions@[k]));
            }
        }
        rows
    }
}

} // verus!
