//! The persisted configuration record: the formula text, the wanted rounding
//! direction, and the classification sets that survive between runs. The
//! caller loads it from and stores it back to its on-disk form; the analysis
//! only reads the sets and the caller appends what it learns.

use vstd::prelude::*;

use crate::formula_config::opt_texts;

verus! {

/// The persisted configuration of a formula analysis.
pub struct Config {
    /// The formula to analyze.
    pub formula: String,
    /// Whether the whole formula must round up (`true`) or down (`false`).
    pub round_up: bool,
    /// Canonical texts of sub-expressions known to be below one.
    pub less_than_one: Option<Vec<String>>,
    /// Canonical texts of sub-expressions known to be at least one.
    pub greater_than_one: Option<Vec<String>>,
}

impl Config {
    /// The texts classified as below one.
    pub open spec fn lt_texts(&self) -> Seq<Seq<char>> {
        opt_texts(self.less_than_one)
    }

    /// The texts classified as at least one.
    pub open spec fn gt_texts(&self) -> Seq<Seq<char>> {
        opt_texts(self.greater_than_one)
    }

    /// Records `value` as a canonical text known to be below one.
    pub fn add_less_than_one(&mut self, value: String)
        ensures
            final(self).lt_texts() == old(self).lt_texts().push(value@),
            final(self).gt_texts() == old(self).gt_texts(),
            final(self).formula == old(self).formula,
            final(self).round_up == old(self).round_up,
    {
        let ghost value0 = value;
        let cur = self.less_than_one.take();
        match cur {
            Option::Some(mut values) => {
                values.push(value);
                self.less_than_one = Some(values);
            },
            Option::None => {
                let mut values: Vec<String> = Vec::new();
                values.push(value);
                self.less_than_one = Some(values);
            },
        }
        proof {
            assert(self.lt_texts() =~= old(self).lt_texts().push(value0@));
        }
    }

    /// Records `value` as a canonical text known to be at least one.
    pub fn add_greater_than_one(&mut self, value: String)
        ensures
            final(self).gt_texts() == old(self).gt_texts().push(value@),
            final(self).lt_texts() == old(self).lt_texts(),
            final(self).formula == old(self).formula,
            final(self).round_up == old(self).round_up,
    {
        let ghost value0 = value;
        let cur = self.greater_than_one.take();
        match cur {
            Option::Some(mut values) => {
                values.push(value);
                self.greater_than_one = Some(values);
            },
            Option::None => {
                let mut values: Vec<String> = Vec::new();
                values.push(value);
                self.greater_than_one = Some(values);
            },
        }
        proof {
            assert(self.gt_texts() =~= old(self).gt_texts().push(value0@));
        }
    }
}

impl Default for Config {
    /// A sample configuration: a formula exercising every operator, rounding
    /// up, with nothing classified yet.
    fn default() -> (r: Config)
        ensures
            r.formula@ == "((a * b)**(e/f)) / (c * d)"@,
            r.round_up == true,
            r.less_than_one is None,
            r.greater_than_one is None,
    {
        Config {
            formula: "((a * b)**(e/f)) / (c * d)".to_owned(),
            round_up: true,
            less_than_one: None,
            greater_than_one: None,
        }
    }
}

} // verus!
