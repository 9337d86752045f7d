//! Metric bookkeeping: the named keys, the tagged values, and the ordered
//! name-to-value map the quantifiers write into.
//!
//! Numeric values are carried as exact rationals. The map keeps entries in
//! insertion order with unique names; inserting under a present name
//! replaces its value, so iteration stays deterministic for reports.

use vstd::prelude::*;

verus! {

/// Compares two string slices.
///
/// Relies on str's PartialEq of std: equality of the character sequences.
#[verifier::external_body]
pub fn str_eq(a: &str, b: &str) -> (r: bool)
    ensures
        r == (a@ == b@),
{
    a == b
}

/// An owned copy of a string slice.
pub fn str_to_string(s: &str) -> (r: String)
    ensures
        r@ == s@,
{
    s.to_owned()
}

/// An exact rational number.
#[derive(Clone, Copy, Debug, PartialEq, Eq, Structural)]
pub struct Rational {
    pub num: i128,
    pub den: i128,
}

impl Rational {
    /// Whether the rational is in carried form: a positive denominator.
    pub open spec fn wf(self) -> bool {
        self.den > 0
    }

    /// A rational from a numerator and a positive denominator.
    pub fn new(num: i128, den: i128) -> (r: Rational)
        requires
            den > 0,
        ensures
            r.num == num && r.den == den,
            r.wf(),
    {
        Rational { num, den }
    }
}

/// A metric value: a plain number, a share of one, a text, a truth value, an
/// angle in degrees, a length in thousandths of an em, or a whole number.
#[derive(Clone, Debug)]
pub enum MetricValue {
    Metric(Rational),
    Percentage(Rational),
    Text(String),
    Boolean(bool),
    Angle(Rational),
    PerMille(Rational),
    Integer(i32),
}

/// A named metric with its description and an example of its value.
#[derive(Clone, Debug)]
pub struct MetricKey {
    pub name: String,
    pub description: String,
    pub example_value: MetricValue,
}

/// One recorded metric: its key and its value.
#[derive(Clone, Debug)]
pub struct Metric {
    pub key: MetricKey,
    pub value: MetricValue,
}

/// The ordered name-to-metric map the quantifiers fill.
#[derive(Debug)]
pub struct Results {
    pub entries: Vec<(String, Metric)>,
}

/// The names of the recorded metrics, in insertion order.
pub open spec fn result_names(entries: Seq<(String, Metric)>) -> Seq<Seq<char>> {
    entries.map_values(|e: (String, Metric)| e.0@)
}

/// Whether the recorded names are unique.
pub open spec fn names_unique(entries: Seq<(String, Metric)>) -> bool {
    forall|i: int, j: int|
        0 <= i < j < entries.len() ==> (#[trigger] entries[i]).0@ != (#[trigger] entries[j]).0@
}

/// The metric an entry list records under a name.
pub open spec fn get_of(entries: Seq<(String, Metric)>, name: Seq<char>) -> Option<Metric> {
    if exists|i: int| 0 <= i < entries.len() && (#[trigger] entries[i]).0@ == name {
        let i = choose|i: int| 0 <= i < entries.len() && (#[trigger] entries[i]).0@ == name;
        Some(entries[i].1)
    } else {
        None
    }
}

/// Under unique names, the entry at a matching position is the one the map
/// records.
proof fn lemma_get_at(entries: Seq<(String, Metric)>, i: int, name: Seq<char>)
    requires
        names_unique(entries),
        0 <= i < entries.len(),
        entries[i].0@ == name,
    ensures
        get_of(entries, name) == Some(entries[i].1),
{
    assert(exists|k: int| 0 <= k < entries.len() && (#[trigger] entries[k]).0@ == name);
    let k = choose|k: int| 0 <= k < entries.len() && (#[trigger] entries[k]).0@ == name;
    if k != i {
        if k < i {
            assert(entries[k].0@ != entries[i].0@);
        } else {
            assert(entries[i].0@ != entries[k].0@);
        }
        assert(false);
    }
}

proof fn lemma_get_absent(entries: Seq<(String, Metric)>, name: Seq<char>)
    requires
        forall|k: int| 0 <= k < entries.len() ==> (#[trigger] entries[k]).0@ != name,
    ensures
        get_of(entries, name) is None,
{
}

impl Results {
    /// An empty record.
    pub fn new() -> (r: Results)
        ensures
            r.entries@.len() == 0,
            names_unique(r.entries@),
    {
        Results { entries: Vec::new() }
    }

    /// The position of a name, when it is recorded.
    fn find(&self, name: &str) -> (r: Option<usize>)
        ensures
            match r {
                Some(i) => i < self.entries@.len() && self.entries@[i as int].0@ == name@,
                None => forall|i: int|
                    0 <= i < self.entries@.len() ==> (#[trigger] self.entries@[i]).0@ != name@,
            },
    {
        let mut i: usize = 0;
        while i < self.entries.len()
            invariant
                0 <= i <= self.entries@.len(),
                forall|k: int| 0 <= k < i ==> (#[trigger] self.entries@[k]).0@ != name@,
            decreases self.entries@.len() - i,
        {
            if str_eq(self.entries[i].0.as_str(), name) {
                return Some(i);
            }
            i = i + 1;
        }
        None
    }

    /// Records a metric under its key's name: a fresh name joins at the back,
    /// a present one has its metric replaced in place, so iteration order is
    /// the order of first insertion.
    pub fn add_metric(&mut self, key: &MetricKey, value: MetricValue)
        requires
            names_unique(old(self).entries@),
        ensures
            names_unique(final(self).entries@),
            match get_of(final(self).entries@, key.name@) {
                Some(m) => m.key.name@ == key.name@ && m.value == value,
                None => false,
            },
            forall|n: Seq<char>|
                n != key.name@ ==> #[trigger] get_of(final(self).entries@, n) == get_of(
                    old(self).entries@,
                    n,
                ),
            result_names(final(self).entries@) == if get_of(old(self).entries@, key.name@)
                is Some {
                result_names(old(self).entries@)
            } else {
                result_names(old(self).entries@).push(key.name@)
            },
    {
        let stored_key = MetricKey {
            name: key.name.clone(),
            description: key.description.clone(),
            example_value: value_copy(&key.example_value),
        };
        let m = Metric { key: stored_key, value };
        let ghost before = self.entries@;
        let pos = self.find(key.name.as_str());
        match pos {
            Some(i) => {
                proof {
                    lemma_get_at(before, i as int, key.name@);
                }
                self.entries.remove(i);
                self.entries.insert(i, (key.name.clone(), m));
                let ghost after = self.entries@;
                proof {
                    assert(after =~= before.update(i as int, after[i as int]));
                    assert(after[i as int].0@ == key.name@);
                    assert forall|a: int, b: int|
                        0 <= a < b < after.len() implies (#[trigger] after[a]).0@ != (
                    #[trigger] after[b]).0@ by {
                        assert(before[a].0@ != before[b].0@);
                        assert(after[a].0@ == before[a].0@);
                        assert(after[b].0@ == before[b].0@);
                    }
                    lemma_get_at(after, i as int, key.name@);
                    assert forall|n: Seq<char>| n != key.name@ implies #[trigger] get_of(after, n)
                        == get_of(before, n) by {
                        if exists|k: int| 0 <= k < before.len() && (#[trigger] before[k]).0@ == n {
                            let k = choose|k: int|
                                0 <= k < before.len() && (#[trigger] before[k]).0@ == n;
                            assert(k != i);
                            assert(after[k].0@ == n);
                            lemma_get_at(before, k, n);
                            lemma_get_at(after, k, n);
                        } else {
                            assert forall|k: int|
                                0 <= k < after.len() implies (#[trigger] after[k]).0@ != n by {
                                assert(before[k].0@ != n);
                                assert(after[k].0@ == before[k].0@);
                            }
                            lemma_get_absent(after, n);
                            lemma_get_absent(before, n);
                        }
                    }
                    assert(result_names(after) =~= result_names(before));
                }
            },
            None => {
                self.entries.push((key.name.clone(), m));
                let ghost after = self.entries@;
                proof {
                    lemma_get_absent(before, key.name@);
                    assert(after =~= before.push(after[before.len() as int]));
                    assert(after[before.len() as int].0@ == key.name@);
                    assert forall|a: int, b: int|
                        0 <= a < b < after.len() implies (#[trigger] after[a]).0@ != (
                    #[trigger] after[b]).0@ by {
                        if b < before.len() {
                            assert(before[a].0@ != before[b].0@);
                        } else {
                            assert(after[b].0@ == key.name@);
                            assert(before[a].0@ != key.name@);
                        }
                    }
                    lemma_get_at(after, before.len() as int, key.name@);
                    assert forall|n: Seq<char>| n != key.name@ implies #[trigger] get_of(after, n)
                        == get_of(before, n) by {
                        if exists|k: int| 0 <= k < before.len() && (#[trigger] before[k]).0@ == n {
                            let k = choose|k: int|
                                0 <= k < before.len() && (#[trigger] before[k]).0@ == n;
                            lemma_get_at(before, k, n);
                            lemma_get_at(after, k, n);
                        } else {
                            assert forall|k: int|
                                0 <= k < after.len() implies (#[trigger] after[k]).0@ != n by {
                                if k < before.len() {
                                    assert(before[k].0@ != n);
                                }
                            }
                            lemma_get_absent(after, n);
                            lemma_get_absent(before, n);
                        }
                    }
                    assert(result_names(after) =~= result_names(before).push(key.name@));
                }
            },
        }
    }

    /// Looks a metric up by name.
    pub fn get(&self, name: &str) -> (r: Option<&Metric>)
        requires
            names_unique(self.entries@),
        ensures
            match r {
                Some(m) => get_of(self.entries@, name@) == Some(*m),
                None => get_of(self.entries@, name@) is None,
            },
    {
        let pos = self.find(name);
        match pos {
            Some(i) => {
                proof {
                    lemma_get_at(self.entries@, i as int, name@);
                }
                Some(&self.entries[i].1)
            },
            None => {
                proof {
                    lemma_get_absent(self.entries@, name@);
                }
                None
            },
        }
    }

    /// How many metrics are recorded.
    pub fn len(&self) -> (r: usize)
        ensures
            r == self.entries@.len(),
    {
        self.entries.len()
    }

    /// The recorded names, in insertion order.
    pub fn keys(&self) -> (r: Vec<String>)
        ensures
            r@.map_values(|s: String| s@) == result_names(self.entries@),
    {
        let mut out: Vec<String> = Vec::new();
        let mut i: usize = 0;
        while i < self.entries.len()
            invariant
                0 <= i <= self.entries@.len(),
                out@.len() == i,
                forall|k: int| 0 <= k < i ==> (#[trigger] out@[k])@ == self.entries@[k].0@,
            decreases self.entries@.len() - i,
        {
            out.push(self.entries[i].0.clone());
            i = i + 1;
        }
        proof {
            assert(out@.map_values(|s: String| s@) =~= result_names(self.entries@));
        }
        out
    }
}

/// A copy of a metric value that carries the same text and numbers.
pub fn value_copy(v: &MetricValue) -> (r: MetricValue)
    ensures
        match (v, &r) {
            (MetricValue::Text(a), MetricValue::Text(b)) => a@ == b@,
            (MetricValue::Metric(a), MetricValue::Metric(b)) => a == b,
            (MetricValue::Percentage(a), MetricValue::Percentage(b)) => a == b,
            (MetricValue::Boolean(a), MetricValue::Boolean(b)) => a == b,
            (MetricValue::Angle(a), MetricValue::Angle(b)) => a == b,
            (MetricValue::PerMille(a), MetricValue::PerMille(b)) => a == b,
            (MetricValue::Integer(a), MetricValue::Integer(b)) => a == b,
            _ => false,
        },
{
    match v {
        MetricValue::Metric(a) => MetricValue::Metric(*a),
        MetricValue::Percentage(a) => MetricValue::Percentage(*a),
        MetricValue::Text(s) => MetricValue::Text(s.clone()),
        MetricValue::Boolean(b) => MetricValue::Boolean(*b),
        MetricValue::Angle(a) => MetricValue::Angle(*a),
        MetricValue::PerMille(a) => MetricValue::PerMille(*a),
        MetricValue::Integer(a) => MetricValue::Integer(*a),
    }
}

} // verus!
