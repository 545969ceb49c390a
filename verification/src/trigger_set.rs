//! The set of configured trigger identifiers. Labels are held in
//! lowercase normal form, without duplicates; only membership matters.

use vstd::prelude::*;
use crate::norm::{lower_seq, to_lowercase, str_eq, lemma_lower_seq_idempotent};

verus! {

/// An immutable, normalized set of trigger labels, built once from the
/// configuration. Its view is the set of normalized character sequences.
pub struct TriggerSet {
    labels: Vec<String>,
}

impl View for TriggerSet {
    type V = Set<Seq<char>>;

    closed spec fn view(&self) -> Set<Seq<char>> {
        self.labels@.map_values(|l: String| l@).to_set()
    }
}

/// Whether a vector of labels holds one equal to the given sequence.
spec fn has_label(labels: Seq<String>, s: Seq<char>) -> bool {
    exists|j: int| 0 <= j < labels.len() && labels[j]@ == s
}

/// Scan for a label equal to `s`.
fn contains_label(labels: &Vec<String>, s: &str) -> (r: bool)
    ensures
        r == has_label(labels@, s@),
{
    let mut i: usize = 0;
    while i < labels.len()
        invariant
            i <= labels@.len(),
            !has_label(labels@.take(i as int), s@),
        decreases labels@.len() - i,
    {
        if str_eq(labels[i].as_str(), s) {
            assert(labels@[i as int]@ == s@);
            return true;
        }
        i += 1;
        proof {
            assert forall|j: int| 0 <= j < i implies labels@.take(i as int)[j]@ != s@ by {
                assert(labels@.take(i as int)[j] == labels@[j]);
            }
        }
    }
    proof {
        assert(labels@.take(labels@.len() as int) =~= labels@);
    }
    false
}

impl TriggerSet {
    /// Every stored label is in normal form (lowercasing it changes
    /// nothing) and no label occurs twice.
    #[verifier::type_invariant]
    spec fn inv(self) -> bool {
        &&& forall|i: int|
            0 <= i < self.labels@.len() ==> #[trigger] self.labels@[i]@ == lower_seq(
                self.labels@[i]@,
            )
        &&& forall|i: int, j: int|
            0 <= i < j < self.labels@.len() ==> self.labels@[i]@ != self.labels@[j]@
    }

    /// Build the set from raw labels: each label is lowercased and
    /// duplicates collapse. Insertion order is irrelevant to the view.
    pub fn new(raw: &Vec<String>) -> (r: TriggerSet)
        ensures
            r@ == raw@.map_values(|l: String| lower_seq(l@)).to_set(),
    {
        let ghost lowered: Seq<Seq<char>> = raw@.map_values(|l: String| lower_seq(l@));
        let mut out: Vec<String> = Vec::new();
        let mut i: usize = 0;
        while i < raw.len()
            invariant
                i <= raw@.len(),
                lowered == raw@.map_values(|l: String| lower_seq(l@)),
                forall|k: int|
                    0 <= k < out@.len() ==> #[trigger] out@[k]@ == lower_seq(out@[k]@),
                forall|k: int, j: int| 0 <= k < j < out@.len() ==> out@[k]@ != out@[j]@,
                forall|x: Seq<char>| has_label(out@, x) <==> lowered.take(i as int).contains(x),
            decreases raw@.len() - i,
        {
            let low = to_lowercase(raw[i].as_str());
            proof {
                lemma_lower_seq_idempotent(raw@[i as int]@);
                assert(lowered[i as int] == lower_seq(raw@[i as int]@));
            }
            let ghost old_out = out@;
            let had = contains_label(&out, low.as_str());
            if !had {
                out.push(low);
            }
            i += 1;
            proof {
                let prev = lowered.take(i as int - 1);
                let cur = lowered.take(i as int);
                assert(low@ == lowered[i as int - 1]);
                assert forall|x: Seq<char>| has_label(out@, x) <==> cur.contains(x) by {
                    if has_label(out@, x) {
                        let j = choose|j: int| 0 <= j < out@.len() && out@[j]@ == x;
                        if j < old_out.len() {
                            assert(old_out[j]@ == x);
                            assert(has_label(old_out, x));
                            assert(prev.contains(x));
                            let k = choose|k: int| 0 <= k < prev.len() && prev[k] == x;
                            assert(cur[k] == x);
                        } else {
                            assert(x == low@);
                            assert(cur[i as int - 1] == x);
                        }
                    }
                    if cur.contains(x) {
                        let j = choose|j: int| 0 <= j < cur.len() && cur[j] == x;
                        if j < i as int - 1 {
                            assert(prev[j] == x);
                            assert(has_label(old_out, x));
                            let k = choose|k: int| 0 <= k < old_out.len() && old_out[k]@ == x;
                            assert(out@[k]@ == x);
                        } else {
                            assert(x == low@);
                            if had {
                                assert(has_label(out@, x));
                            } else {
                                assert(out@[out@.len() - 1]@ == x);
                            }
                        }
                    }
                }
            }
        }
        proof {
            assert(lowered.take(i as int) =~= lowered);
            let m = out@.map_values(|l: String| l@);
            assert forall|x: Seq<char>| m.to_set().contains(x) <==> lowered.to_set().contains(
                x,
            ) by {
                assert(m.contains(x) == has_label(out@, x)) by {
                    if m.contains(x) {
                        let j = choose|j: int| 0 <= j < m.len() && m[j] == x;
                        assert(out@[j]@ == x);
                    }
                    if has_label(out@, x) {
                        let j = choose|j: int| 0 <= j < out@.len() && out@[j]@ == x;
                        assert(m[j] == x);
                    }
                }
            }
            assert(out@.map_values(|l: String| l@).to_set() =~= lowered.to_set());
        }
        TriggerSet { labels: out }
    }

    /// Membership test: the incoming identifier is normalized with the
    /// same folding used at construction, so matching is case-insensitive.
    pub fn contains(&self, s: &str) -> (r: bool)
        ensures
            r == self@.contains(lower_seq(s@)),
    {
        let low = to_lowercase(s);
        let r = contains_label(&self.labels, low.as_str());
        proof {
            let m = self.labels@.map_values(|l: String| l@);
            assert(has_label(self.labels@, low@) == m.contains(low@)) by {
                if has_label(self.labels@, low@) {
                    let j = choose|j: int|
                        0 <= j < self.labels@.len() && self.labels@[j]@ == low@;
                    assert(m[j] == low@);
                }
                if m.contains(low@) {
                    let j = choose|j: int| 0 <= j < m.len() && m[j] == low@;
                    assert(self.labels@[j]@ == low@);
                }
            }
        }
        r
    }

    /// The stored labels, each in normal form. The host uses them to
    /// request one platform binding per configured trigger.
    pub fn labels(&self) -> (r: &Vec<String>)
        ensures
            r@.map_values(|l: String| l@).to_set() == self@,
            forall|i: int| 0 <= i < r@.len() ==> #[trigger] r@[i]@ == lower_seq(r@[i]@),
    {
        proof {
            use_type_invariant(self);
        }
        &self.labels
    }
}

/// Trigger matching is case-insensitive: two identifiers with the same
/// normal form match the same trigger sets.
pub proof fn lemma_match_case_insensitive(ts: TriggerSet, s: Seq<char>, t: Seq<char>)
    requires
        lower_seq(s) == lower_seq(t),
    ensures
        ts@.contains(lower_seq(s)) == ts@.contains(lower_seq(t)),
{
}

/// A normalized identifier and its raw form match the same trigger sets:
/// matching an already-lowercased label behaves like matching the raw one.
pub proof fn lemma_match_normalized(ts: TriggerSet, s: Seq<char>)
    ensures
        ts@.contains(lower_seq(lower_seq(s))) == ts@.contains(lower_seq(s)),
{
    lemma_lower_seq_idempotent(s);
}

} // verus!
