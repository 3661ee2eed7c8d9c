//! The matrix of test configurations.
//!
//! The configurations that are tested come from a list of texts, each of
//! which names features, separated by commas. To run as much as possible in
//! parallel, the list is broken up into sets of one feature each, and a
//! feature that is named twice is run once.

use crate::text::push_dec;
use vstd::prelude::*;
use vstd::string::{StrSliceExecFns, StringExecFns};

verus! {

/// The environment variable that names the features to the test run.
pub open spec fn features_variable() -> Seq<char> {
    "MULTI_FEATURES"@
}

/// A variable of the environment, and the values that it is set to one
/// after the other.
#[derive(Debug, PartialEq, Eq, Hash)]
pub struct FeatureSet {
    /// The environment variable to set.
    pub env: String,
    /// The successive values to set it to.
    pub values: Vec<String>,
}

/// The texts of `values`.
pub open spec fn texts(values: Seq<String>) -> Seq<Seq<char>> {
    Seq::new(values.len(), |i: int| values[i]@)
}

/// The pieces of `text` between its commas: one more than it has commas.
pub open spec fn pieces(text: Seq<char>) -> Seq<Seq<char>>
    decreases text.len(),
{
    if text.len() == 0 {
        seq![Seq::empty()]
    } else {
        let before = pieces(text.drop_last());
        if text.last() == ',' {
            before.push(Seq::empty())
        } else {
            before.update(before.len() - 1, before.last().push(text.last()))
        }
    }
}

/// `values`, each with a space in front of it.
pub open spec fn spaced(values: Seq<Seq<char>>) -> Seq<char>
    decreases values.len(),
{
    if values.len() == 0 {
        Seq::empty()
    } else {
        spaced(values.drop_last()) + seq![' '] + values.last()
    }
}

/// The pieces of all of `elements`, in order.
pub open spec fn all_pieces(elements: Seq<Seq<char>>) -> Seq<Seq<char>>
    decreases elements.len(),
{
    if elements.len() == 0 {
        Seq::empty()
    } else {
        all_pieces(elements.drop_last()) + pieces(elements.last())
    }
}

/// `values` without the repetitions: each value where it comes first.
pub open spec fn firsts(values: Seq<Seq<char>>) -> Seq<Seq<char>>
    decreases values.len(),
{
    if values.len() == 0 {
        Seq::empty()
    } else if values.drop_last().contains(values.last()) {
        firsts(values.drop_last())
    } else {
        firsts(values.drop_last()).push(values.last())
    }
}

/// Leaving out repetitions leaves out no value and adds none.
pub proof fn lemma_firsts_contains(values: Seq<Seq<char>>, value: Seq<char>)
    ensures
        firsts(values).contains(value) <==> values.contains(value),
    decreases values.len(),
{
    if values.len() > 0 {
        let before = values.drop_last();
        lemma_firsts_contains(before, value);
        lemma_firsts_contains(before, values.last());
        if values.contains(value) {
            let i = choose|i: int| 0 <= i < values.len() && values[i] == value;
            if i < before.len() {
                assert(before[i] == value);
                assert(before.contains(value));
            }
        }
        if before.contains(value) {
            let i = choose|i: int| 0 <= i < before.len() && before[i] == value;
            assert(values[i] == value);
        }
        if firsts(before).contains(value) {
            let i = choose|i: int| 0 <= i < firsts(before).len() && firsts(before)[i] == value;
            if !before.contains(values.last()) {
                assert(firsts(values)[i] == value);
            }
        }
        if !before.contains(values.last()) {
            assert(firsts(values).last() == values.last());
            assert(values[values.len() - 1] == values.last());
            if firsts(values).contains(value) {
                let i = choose|i: int| 0 <= i < firsts(values).len() && firsts(values)[i] == value;
                if i < firsts(before).len() {
                    assert(firsts(before)[i] == value);
                }
            }
        }
    }
}

impl FeatureSet {
    /// The feature set that `text` names: the features are its pieces
    /// between commas.
    pub fn decode(text: &str) -> (set: FeatureSet)
        ensures
            set.env@ == features_variable(),
            texts(set.values@) == pieces(text@),
    {
        let mut values: Vec<String> = Vec::new();
        let mut current = String::new();
        let n = text.unicode_len();
        assert(texts(values@).push(current@) =~= pieces(text@.take(0)));
        let mut i: usize = 0;
        while i < n
            invariant
                i <= n,
                n == text@.len(),
                texts(values@).push(current@) == pieces(text@.take(i as int)),
            decreases n - i,
        {
            let c = text.get_char(i);
            proof {
                assert(text@.take(i + 1).drop_last() =~= text@.take(i as int));
                assert(text@.take(i + 1).last() == c);
            }
            let ghost before = texts(values@).push(current@);
            if c == ',' {
                values.push(current);
                current = String::new();
                assert(texts(values@).push(current@) =~= before.push(Seq::empty()));
            } else {
                current.push(c);
                assert(texts(values@).push(current@) =~= before.update(
                    before.len() - 1,
                    before.last().push(c),
                ));
            }
            i = i + 1;
        }
        assert(text@.take(n as int) =~= text@);
        let ghost done = texts(values@).push(current@);
        values.push(current);
        assert(texts(values@) =~= done);
        FeatureSet { env: "MULTI_FEATURES".to_owned(), values }
    }

    /// Convert this feature set into a textual representation: the
    /// variable, a colon, and each value with a space in front of it.
    pub fn textual(&self) -> (text: String)
        ensures
            text@ == self.env@ + seq![':'] + spaced(texts(self.values@)),
    {
        let mut buf = self.env.clone();
        buf.push(':');
        let ghost head = buf@;
        assert(head =~= self.env@ + seq![':']);
        let mut i: usize = 0;
        while i < self.values.len()
            invariant
                i <= self.values.len(),
                buf@ == head + spaced(texts(self.values@).take(i as int)),
            decreases self.values.len() - i,
        {
            let ghost before = buf@;
            buf.push(' ');
            buf.append(self.values[i].as_str());
            proof {
                let now = texts(self.values@).take(i + 1);
                assert(now.drop_last() =~= texts(self.values@).take(i as int));
                assert(now.last() == self.values@[i as int]@);
                assert(buf@ =~= head + spaced(now));
            }
            i = i + 1;
        }
        assert(texts(self.values@).take(self.values@.len() as int) =~= texts(self.values@));
        buf
    }
}

/// Whether `value` is among `seen`.
pub fn is_among(seen: &Vec<String>, value: &String) -> (found: bool)
    ensures
        found == texts(seen@).contains(value@),
{
    let mut i: usize = 0;
    while i < seen.len()
        invariant
            i <= seen.len(),
            forall|k: int| 0 <= k < i ==> texts(seen@)[k] != value@,
        decreases seen.len() - i,
    {
        if seen[i] == *value {
            assert(texts(seen@)[i as int] == value@);
            return true;
        }
        i = i + 1;
    }
    false
}

/// The extracted configurations.
#[derive(Debug)]
pub struct Matrix {
    pub envs: Vec<FeatureSet>,
}

/// The one value of each of `envs`.
pub open spec fn singles(envs: Seq<FeatureSet>) -> Seq<Seq<char>> {
    Seq::new(envs.len(), |i: int| envs[i].values@[0]@)
}

/// Each of `envs` sets the features variable to one value.
pub open spec fn all_single(envs: Seq<FeatureSet>) -> bool {
    forall|i: int|
        0 <= i < envs.len() ==> (#[trigger] envs[i]).values@.len() == 1 && envs[i].env@
            == features_variable()
}

impl Matrix {
    /// The matrix for the texts `elements`: one feature set for each
    /// feature that any of them names, in the order in which the features
    /// are first named. Each test is broken up so that more can run in
    /// parallel.
    pub fn from_elements(elements: &Vec<String>) -> (matrix: Matrix)
        ensures
            all_single(matrix.envs@),
            singles(matrix.envs@) == firsts(all_pieces(texts(elements@))),
    {
        let mut envs: Vec<FeatureSet> = Vec::new();
        let mut all_tests: Vec<String> = Vec::new();
        let mut e: usize = 0;
        assert(texts(elements@).take(0) =~= Seq::<Seq<char>>::empty());
        assert(singles(envs@) =~= Seq::<Seq<char>>::empty());
        assert(texts(all_tests@) =~= Seq::<Seq<char>>::empty());
        while e < elements.len()
            invariant
                e <= elements.len(),
                all_single(envs@),
                texts(all_tests@) == singles(envs@),
                singles(envs@) == firsts(all_pieces(texts(elements@).take(e as int))),
            decreases elements.len() - e,
        {
            let fset = FeatureSet::decode(elements[e].as_str());
            let ghost done = all_pieces(texts(elements@).take(e as int));
            let ghost pcs = pieces(elements@[e as int]@);
            proof {
                assert(texts(elements@).take(e + 1).drop_last() =~= texts(elements@).take(e as int));
                assert(texts(elements@).take(e + 1).last() == elements@[e as int]@);
                assert(done + pcs.take(0) =~= done);
            }
            let mut v: usize = 0;
            while v < fset.values.len()
                invariant
                    v <= fset.values.len(),
                    texts(fset.values@) == pcs,
                    fset.env@ == features_variable(),
                    all_single(envs@),
                    texts(all_tests@) == singles(envs@),
                    singles(envs@) == firsts(done + pcs.take(v as int)),
                decreases fset.values.len() - v,
            {
                let val = fset.values[v].clone();
                proof {
                    let flat = done + pcs.take(v as int);
                    let next = done + pcs.take(v + 1);
                    assert(val@ == pcs[v as int]);
                    assert(next.drop_last() =~= flat);
                    assert(next.last() == val@);
                    lemma_firsts_contains(flat, val@);
                }
                if !is_among(&all_tests, &val) {
                    let ghost before_tests = texts(all_tests@);
                    let ghost before_envs = singles(envs@);
                    all_tests.push(val.clone());
                    let mut one: Vec<String> = Vec::new();
                    one.push(val);
                    envs.push(FeatureSet { env: fset.env.clone(), values: one });
                    assert(texts(all_tests@) =~= before_tests.push(val@));
                    assert(singles(envs@) =~= before_envs.push(val@));
                }
                v = v + 1;
            }
            proof {
                assert(pcs.take(pcs.len() as int) =~= pcs);
            }
            e = e + 1;
        }
        assert(texts(elements@).take(elements@.len() as int) =~= texts(elements@));
        Matrix { envs }
    }
}

/// The line that shows how far the tests have come: how many are running,
/// how many are done, how many were started, and how many there are.
pub open spec fn status_text(running: usize, done: usize, total: usize) -> Seq<char> {
    seq![' '] + crate::text::dec_digits(running as nat) + " running ("@ + crate::text::dec_digits(
        done as nat,
    ) + seq!['/'] + crate::text::dec_digits((running + done) as nat) + seq!['/']
        + crate::text::dec_digits(total as nat) + " done)\r"@
}

/// The line that shows how far the tests have come.
pub fn status_line(running: usize, done: usize, total: usize) -> (line: String)
    requires
        running + done <= usize::MAX,
    ensures
        line@ == status_text(running, done, total),
{
    let mut line = String::new();
    line.push(' ');
    push_dec(&mut line, running);
    line.append(" running (");
    push_dec(&mut line, done);
    line.push('/');
    push_dec(&mut line, running + done);
    line.push('/');
    push_dec(&mut line, total);
    line.append(" done)\r");
    assert(line@ =~= status_text(running, done, total));
    line
}

} // verus!
