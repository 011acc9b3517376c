//! The per-formula configuration: the formula text, the wanted rounding
//! direction of the whole result, and the two classification sets that the
//! analysis consults when a power's base must be compared against one.

use vstd::prelude::*;

verus! {

/// Configuration of one formula analysis.
pub struct FormulaConfig {
    /// The formula to analyze.
    pub formula: String,
    /// Whether the whole formula must round up (`true`) or down (`false`).
    pub round_up: bool,
    /// Canonical texts of sub-expressions known to be below one.
    pub less_than_one: Option<Vec<String>>,
    /// Canonical texts of sub-expressions known to be at least one.
    pub greater_than_one: Option<Vec<String>>,
}

/// The texts held by an optional classification list; an absent list holds
/// none.
pub open spec fn opt_texts(o: Option<Vec<String>>) -> Seq<Seq<char>> {
    match o {
        Option::None => Seq::<Seq<char>>::empty(),
        Option::Some(v) => v@.map_values(|s: String| s@),
    }
}

/// Whether `t` occurs among the texts `ts`.
pub open spec fn has_text(ts: Seq<Seq<char>>, t: Seq<char>) -> bool {
    exists|i: int| 0 <= i < ts.len() && ts[i] == t
}

/// Whether the optional list holds a string whose characters are exactly
/// those of `s`.
pub fn list_contains(list: &Option<Vec<String>>, s: &String) -> (r: bool)
    ensures
        r == has_text(opt_texts(*list), s@),
{
    match list {
        Option::None => false,
        Option::Some(v) => {
            proof {
                assert(opt_texts(*list).len() == v@.len());
                assert(forall|j: int| 0 <= j < v@.len() ==> opt_texts(*list)[j] == v@[j]@);
            }
            let mut i: usize = 0;
            while i < v.len()
                invariant
                    0 <= i <= v@.len(),
                    list matches Option::Some(v2) && v2 == v,
                    opt_texts(*list).len() == v@.len(),
                    forall|j: int| 0 <= j < v@.len() ==> opt_texts(*list)[j] == v@[j]@,
                    forall|j: int| 0 <= j < i ==> v@[j]@ != s@,
                decreases v@.len() - i,
            {
                if s.eq(&v[i]) {
                    assert(opt_texts(*list)[i as int] == s@);
                    return true;
                }
                i = i + 1;
            }
            false
        },
    }
}

impl FormulaConfig {
    /// The texts classified as below one.
    pub open spec fn lt_texts(&self) -> Seq<Seq<char>> {
        opt_texts(self.less_than_one)
    }

    /// The texts classified as at least one.
    pub open spec fn gt_texts(&self) -> Seq<Seq<char>> {
        opt_texts(self.greater_than_one)
    }

    /// A configuration from its four parts.
    pub fn new(
        formula: String,
        round_up: bool,
        less_than_one: Option<Vec<String>>,
        greater_than_one: Option<Vec<String>>,
    ) -> (r: FormulaConfig)
        ensures
            r.formula == formula,
            r.round_up == round_up,
            r.less_than_one == less_than_one,
            r.greater_than_one == greater_than_one,
    {
        FormulaConfig { formula, round_up, less_than_one, greater_than_one }
    }

    /// Records `value` as a canonical text known to be below one.
    pub fn add_less_than_one(&mut self, value: String)
        ensures
            final(self).lt_texts() == old(self).lt_texts().push(value@),
            final(self).gt_texts() == old(self).gt_texts(),
            final(self).formula == old(self).formula,
            final(self).round_up == old(self).round_up,
    {
        let ghost value0 = value;
        let cur = self.less_than_one.take();
        match cur {
            Option::Some(mut values) => {
                values.push(value);
                self.less_than_one = Some(values);
            },
            Option::None => {
                let mut values: Vec<String> = Vec::new();
                values.push(value);
                self.less_than_one = Some(values);
            },
        }
        proof {
            assert(self.lt_texts() =~= old(self).lt_texts().push(value0@));
        }
    }

    /// Records `value` as a canonical text known to be at least one.
    pub fn add_greater_than_one(&mut self, value: String)
        ensures
            final(self).gt_texts() == old(self).gt_texts().push(value@),
            final(self).lt_texts() == old(self).lt_texts(),
            final(self).formula == old(self).formula,
            final(self).round_up == old(self).round_up,
    {
        let ghost value0 = value;
        let cur = self.greater_than_one.take();
        match cur {
            Option::Some(mut values) => {
                values.push(value);
                self.greater_than_one = Some(values);
            },
            Option::None => {
                let mut values: Vec<String> = Vec::new();
                values.push(value);
                self.greater_than_one = Some(values);
            },
        }
        proof {
            assert(self.gt_texts() =~= old(self).gt_texts().push(value0@));
        }
    }
}

impl Default for FormulaConfig {
    /// A sample configuration: a formula exercising every operator, rounding
    /// up, with nothing classified yet.
    fn default() -> (r: FormulaConfig)
        ensures
            r.formula@ == "((a * b)**(e/f)) / (c * d)"@,
            r.round_up == true,
            r.less_than_one is None,
            r.greater_than_one is None,
    {
        FormulaConfig {
            formula: "((a * b)**(e/f)) / (c * d)".to_owned(),
            round_up: true,
            less_than_one: None,
            greater_than_one: None,
        }
    }
}

} // verus!
