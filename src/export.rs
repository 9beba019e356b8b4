use vstd::prelude::*;

use crate::models::{find_entry, lookup, CardMetadata};

verus! {

/// The cell written for a field: its value in the row, or empty.
pub open spec fn cell_of(row: Seq<(String, String)>, name: Seq<char>) -> Seq<char> {
    match lookup(row, name) {
        Some(v) => v,
        None => Seq::empty(),
    }
}

impl CardMetadata {
    /// One exported line for `row`: a cell per field in declaration order,
    /// holding the row's value for that field or nothing.
    pub fn export_record(&self, row: &Vec<(String, String)>) -> (r: Vec<String>)
        ensures
            r@.len() == self.fields@.len(),
            forall|i: int|
                0 <= i < r@.len() ==> #[trigger] r@[i]@ == cell_of(row@, self.fields@[i].name@),
    {
        let mut r: Vec<String> = Vec::new();
        let mut i: usize = 0;
        while i < self.fields.len()
            invariant
                i <= self.fields@.len(),
                r@.len() == i,
                forall|j: int|
                    0 <= j < i ==> #[trigger] r@[j]@ == cell_of(row@, self.fields@[j].name@),
            decreases self.fields@.len() - i,
        {
            match find_entry(row, &self.fields[i].name) {
                Some(k) => r.push(row[k].1.clone()),
                None => r.push(String::new()),
            }
            i = i + 1;
        }
        r
    }
}

} // verus!
