//! The list of the best games so far, best first.

use crate::effects::{append_decimal, decimal, emit, views, Effect, EffectView, GameOver};
use vstd::prelude::*;
use vstd::string::StringExecFns;

verus! {

/// Final scores with the names of those who reached them, sorted by score,
/// highest first. Of two equal scores the earlier one comes first.
#[derive(Debug)]
pub struct HighScores {
    scores: Vec<(String, u32)>,
}

/// An entry of the list as contracts see it: a name and a score.
pub type Entry = (Seq<char>, u32);

/// Whether a list of entries is sorted by score, highest first.
pub open spec fn is_descending(entries: Seq<Entry>) -> bool {
    forall|i: int, j: int| 0 <= i < j < entries.len() ==> entries[i].1 >= entries[j].1
}

/// How many entries score at least `score`.
pub open spec fn rank(entries: Seq<Entry>, score: u32) -> nat
    decreases entries.len(),
{
    if entries.len() == 0 {
        0
    } else {
        rank(entries.drop_last(), score) + if entries.last().1 >= score {
            1nat
        } else {
            0nat
        }
    }
}

/// A list with one more entry, put behind all those that score at least as
/// much. On a sorted list this is what appending the entry and sorting the
/// list again, stably and highest first, comes to.
pub open spec fn recorded(entries: Seq<Entry>, name: Seq<char>, score: u32) -> Seq<Entry> {
    entries.insert(rank(entries, score) as int, (name, score))
}

/// The name that every finished game is recorded under.
pub open spec fn player_name() -> Seq<char> {
    "Player"@
}

/// A list after the games that the events report, in their order.
pub open spec fn recorded_all(entries: Seq<Entry>, events: Seq<GameOver>) -> Seq<Entry>
    decreases events.len(),
{
    if events.len() == 0 {
        entries
    } else {
        recorded(recorded_all(entries, events.drop_last()), player_name(), events.last().score)
    }
}

/// How one entry is written in the log.
pub open spec fn entry_text(entry: Entry) -> Seq<char> {
    "(\""@ + entry.0 + "\", "@ + decimal(entry.1 as nat) + ")"@
}

/// The entries of a list as the log shows them, a comma and a space between
/// each two.
pub open spec fn entries_text(entries: Seq<Entry>) -> Seq<char>
    decreases entries.len(),
{
    if entries.len() == 0 {
        Seq::<char>::empty()
    } else if entries.len() == 1 {
        entry_text(entries[0])
    } else {
        entries_text(entries.drop_last()) + ", "@ + entry_text(entries.last())
    }
}

/// The line that reports a list: its entries between square brackets.
pub open spec fn list_line(entries: Seq<Entry>) -> Seq<char> {
    "["@ + entries_text(entries) + "]"@
}

/// What recording the events' games queues: after each game the line that
/// reports the list as it then stands.
pub open spec fn record_lines(entries: Seq<Entry>, events: Seq<GameOver>) -> Seq<EffectView>
    decreases events.len(),
{
    if events.len() == 0 {
        Seq::<EffectView>::empty()
    } else {
        record_lines(entries, events.drop_last()).push(
            EffectView::Log(list_line(recorded_all(entries, events))),
        )
    }
}

/// The rank of a score in a sorted list is where the entries below it begin.
pub proof fn lemma_rank_is_boundary(entries: Seq<Entry>, score: u32, k: int)
    requires
        0 <= k <= entries.len(),
        forall|i: int| 0 <= i < k ==> entries[i].1 >= score,
        forall|i: int| k <= i < entries.len() ==> entries[i].1 < score,
    ensures
        rank(entries, score) == k,
    decreases entries.len(),
{
    if entries.len() > 0 {
        let front = entries.drop_last();
        if k == entries.len() {
            lemma_rank_is_boundary(front, score, k - 1);
        } else {
            lemma_rank_is_boundary(front, score, k);
        }
    }
}

/// In a sorted list the entries before the rank of a score reach it, and
/// those from there on do not.
pub proof fn lemma_rank_splits(entries: Seq<Entry>, score: u32)
    requires
        is_descending(entries),
    ensures
        rank(entries, score) <= entries.len(),
        forall|i: int| 0 <= i < rank(entries, score) ==> entries[i].1 >= score,
        forall|i: int| rank(entries, score) <= i < entries.len() ==> entries[i].1 < score,
    decreases entries.len(),
{
    if entries.len() > 0 {
        let front = entries.drop_last();
        assert(is_descending(front));
        lemma_rank_splits(front, score);
        if entries.last().1 >= score {
            lemma_rank_is_boundary(front, score, front.len() as int);
        }
        let r = rank(entries, score) as int;
        assert forall|i: int| 0 <= i < r implies entries[i].1 >= score by {
            if i < front.len() {
                assert(front[i] == entries[i]);
            }
        }
        assert forall|i: int| r <= i < entries.len() implies entries[i].1 < score by {
            if i < front.len() {
                assert(front[i] == entries[i]);
            }
        }
    }
}

/// Recording a game keeps a sorted list sorted, adds the game's entry to it
/// and takes nothing away.
pub proof fn lemma_recorded_sorted(entries: Seq<Entry>, name: Seq<char>, score: u32)
    requires
        is_descending(entries),
    ensures
        is_descending(recorded(entries, name, score)),
        recorded(entries, name, score).len() == entries.len() + 1,
        recorded(entries, name, score).to_multiset() == entries.to_multiset().insert((name, score)),
{
    lemma_rank_splits(entries, score);
    let k = rank(entries, score) as int;
    let after = recorded(entries, name, score);
    vstd::seq_lib::to_multiset_insert(entries, k, (name, score));
}

/// Recording any number of games keeps a sorted list sorted.
pub proof fn lemma_recorded_all_sorted(entries: Seq<Entry>, events: Seq<GameOver>)
    requires
        is_descending(entries),
    ensures
        is_descending(recorded_all(entries, events)),
        recorded_all(entries, events).len() == entries.len() + events.len(),
    decreases events.len(),
{
    if events.len() > 0 {
        lemma_recorded_all_sorted(entries, events.drop_last());
        lemma_recorded_sorted(
            recorded_all(entries, events.drop_last()),
            player_name(),
            events.last().score,
        );
    }
}

impl View for HighScores {
    type V = Seq<Entry>;

    closed spec fn view(&self) -> Seq<Entry> {
        entries_of(self.scores@)
    }
}

/// The entries that a list of names and scores holds.
pub open spec fn entries_of(scores: Seq<(String, u32)>) -> Seq<Entry> {
    scores.map_values(|e: (String, u32)| (e.0@, e.1))
}

impl Default for HighScores {
    /// The empty list.
    fn default() -> (r: HighScores)
        ensures
            r@ == Seq::<Entry>::empty(),
    {
        let r = HighScores { scores: Vec::new() };
        r
    }
}

impl HighScores {
    #[verifier::type_invariant]
    closed spec fn well_formed(self) -> bool {
        is_descending(self@)
    }

    /// The entries, best first.
    pub fn scores(&self) -> (r: &Vec<(String, u32)>)
        ensures
            entries_of(r@) == self@,
            is_descending(self@),
    {
        proof {
            use_type_invariant(self);
        }
        &self.scores
    }

    /// Records a finished game: its entry goes behind all those that score
    /// at least as much.
    pub fn record(&mut self, name: String, score: u32)
        ensures
            final(self)@ == recorded(old(self)@, name@, score),
            is_descending(final(self)@),
    {
        proof {
            use_type_invariant(&*self);
        }
        let ghost before = self@;
        let mut list: Vec<(String, u32)> = Vec::new();
        core::mem::swap(&mut self.scores, &mut list);
        let count = list.len();
        let mut k: usize = 0;
        while k < count && list[k].1 >= score
            invariant
                k <= count,
                count == list@.len(),
                entries_of(list@) == before,
                forall|i: int| 0 <= i < k ==> before[i].1 >= score,
            decreases count - k,
        {
            k = k + 1;
        }
        proof {
            assert forall|i: int| k <= i < before.len() implies before[i].1 < score by {
                assert(before[k as int].1 >= before[i].1);
            }
            lemma_rank_is_boundary(before, score, k as int);
            lemma_recorded_sorted(before, name@, score);
        }
        list.insert(k, (name, score));
        assert(entries_of(list@) =~= recorded(before, name@, score));
        self.scores = list;
    }

    /// The line that reports the list.
    pub fn render(&self) -> (r: String)
        ensures
            r@ == list_line(self@),
    {
        let mut text = String::from_str("[");
        let count = self.scores.len();
        let mut i: usize = 0;
        let ghost entries = self@;
        while i < count
            invariant
                i <= count,
                count == self.scores@.len(),
                entries == entries_of(self.scores@),
                text@ == "["@ + entries_text(entries.take(i as int)),
            decreases count - i,
        {
            assert(entries.take(i + 1).drop_last() =~= entries.take(i as int));
            if i > 0 {
                text.append(", ");
            }
            text.append("(\"");
            text.append(self.scores[i].0.as_str());
            text.append("\", ");
            append_decimal(&mut text, self.scores[i].1);
            text.append(")");
            i = i + 1;
        }
        assert(entries.take(count as int) =~= entries);
        text.append("]");
        text
    }
}

/// Records the game that each event reports, under the name of the player,
/// and queues after each the line that reports the list.
pub fn update_high_scores(
    events: &Vec<GameOver>,
    high_scores: &mut HighScores,
    effects: &mut Vec<Effect>,
)
    ensures
        final(high_scores)@ == recorded_all(old(high_scores)@, events@),
        is_descending(final(high_scores)@),
        views(final(effects)@) == views(old(effects)@) + record_lines(old(high_scores)@, events@),
{
    let count = events.len();
    let mut i: usize = 0;
    proof {
        assert(views(effects@) =~= views(old(effects)@) + record_lines(
            old(high_scores)@,
            events@.take(0),
        ));
        use_type_invariant(&*high_scores);
    }
    while i < count
        invariant
            i <= count,
            count == events@.len(),
            high_scores@ == recorded_all(old(high_scores)@, events@.take(i as int)),
            is_descending(high_scores@),
            views(effects@) == views(old(effects)@) + record_lines(
                old(high_scores)@,
                events@.take(i as int),
            ),
        decreases count - i,
    {
        proof {
            let seen = events@.take(i + 1);
            assert(seen.drop_last() =~= events@.take(i as int));
        }
        high_scores.record("Player".to_string(), events[i].score);
        emit(effects, Effect::Log(high_scores.render()));
        proof {
            assert(views(effects@) =~= views(old(effects)@) + record_lines(
                old(high_scores)@,
                events@.take(i + 1),
            ));
        }
        i = i + 1;
    }
    assert(events@.take(count as int) =~= events@);
}

} // verus!
