use vstd::prelude::*;

use crate::models::{find_entry, lookup, names_of, CardMetadata, FieldSpec};

verus! {

/// What extraction has gathered after the first fields: column names, their
/// values, and the natural-key column if one was taken.
pub type Gathered = (Seq<Seq<char>>, Seq<Seq<char>>, Option<Seq<char>>);

/// Extraction over the first `n` fields of `fields`: `None` once a required
/// field is missing from `record`.
pub open spec fn extract_upto(fields: Seq<FieldSpec>, record: Seq<(String, String)>, n: int) -> Option<
    Gathered,
>
    decreases n,
{
    if n <= 0 {
        Some((Seq::empty(), Seq::empty(), None))
    } else {
        match extract_upto(fields, record, n - 1) {
            None => None,
            Some(g) => {
                let f = fields[n - 1];
                match lookup(record, f.name@) {
                    None => if f.spec_required() {
                        None
                    } else {
                        Some(g)
                    },
                    Some(v) => Some(
                        (
                            g.0.push(f.name@),
                            g.1.push(v),
                            if f.spec_is_key() {
                                Some(f.name@)
                            } else {
                                g.2
                            },
                        ),
                    ),
                }
            },
        }
    }
}

/// The columns, values and natural-key column taken from `record`, or `None`
/// where the record is rejected.
pub open spec fn extract_spec(fields: Seq<FieldSpec>, record: Seq<(String, String)>) -> Option<
    (Seq<Seq<char>>, Seq<Seq<char>>, Seq<char>),
> {
    if fields.len() == 0 {
        None
    } else {
        match extract_upto(fields, record, fields.len() as int) {
            None => None,
            Some(g) => match g.2 {
                None => None,
                Some(k) => if g.0.len() == 0 {
                    None
                } else {
                    Some((g.0, g.1, k))
                },
            },
        }
    }
}

/// A rejected prefix stays rejected as more fields are read.
proof fn lemma_rejection_persists(
    fields: Seq<FieldSpec>,
    record: Seq<(String, String)>,
    m: int,
    n: int,
)
    requires
        m <= n,
        extract_upto(fields, record, m) is None,
    ensures
        extract_upto(fields, record, n) is None,
    decreases n - m,
{
    if m < n {
        lemma_rejection_persists(fields, record, m, n - 1);
    }
}

/// A record that holds a value for every not-null field is never rejected
/// on the way, and the natural key is taken exactly when its field has been read.
proof fn lemma_complete_prefix(
    fields: Seq<FieldSpec>,
    record: Seq<(String, String)>,
    j: int,
    n: int,
)
    requires
        0 <= j < fields.len(),
        0 <= n <= fields.len(),
        forall|i: int| 0 <= i < fields.len() ==> (fields[i].spec_is_key() <==> i == j),
        forall|i: int|
            0 <= i < fields.len() && fields[i].spec_is_not_null() ==> lookup(
                record,
                fields[i].name@,
            ) is Some,
        lookup(record, fields[j].name@) is Some,
    ensures
        extract_upto(fields, record, n) is Some,
        extract_upto(fields, record, n).unwrap().2 == (if n > j {
            Some(fields[j].name@)
        } else {
            None
        }),
        n > j ==> extract_upto(fields, record, n).unwrap().0.len() > 0,
    decreases n,
{
    if n > 0 {
        lemma_complete_prefix(fields, record, j, n - 1);
    }
}

/// For a schema with exactly one natural-key field, a record that holds a
/// value for every not-null field and for the natural key is accepted, and
/// the natural-key column of the result is that field.
pub proof fn lemma_extract_finds_natural_key(
    fields: Seq<FieldSpec>,
    record: Seq<(String, String)>,
    j: int,
)
    requires
        0 <= j < fields.len(),
        forall|i: int| 0 <= i < fields.len() ==> (fields[i].spec_is_key() <==> i == j),
        forall|i: int|
            0 <= i < fields.len() && fields[i].spec_is_not_null() ==> lookup(
                record,
                fields[i].name@,
            ) is Some,
        lookup(record, fields[j].name@) is Some,
    ensures
        extract_spec(fields, record) is Some,
        extract_spec(fields, record).unwrap().2 == fields[j].name@,
{
    lemma_complete_prefix(fields, record, j, fields.len() as int);
}

/// A record without a value for a field that is not null and not
/// auto-increment is rejected.
pub proof fn lemma_missing_required_rejects(
    fields: Seq<FieldSpec>,
    record: Seq<(String, String)>,
    j: int,
)
    requires
        0 <= j < fields.len(),
        fields[j].spec_required(),
        lookup(record, fields[j].name@) is None,
    ensures
        extract_spec(fields, record) is None,
{
    assert(extract_upto(fields, record, j + 1) is None);
    lemma_rejection_persists(fields, record, j + 1, fields.len() as int);
}

impl CardMetadata {
    /// Takes from `record` the values of the declared fields, in declaration
    /// order, together with the natural-key column. The record is rejected
    /// (`None`) when a field that is not null and not auto-increment has no
    /// value in it, and when no natural-key field has a value.
    pub fn get_data_from_record(&self, record: &Vec<(String, String)>) -> (r: Option<
        (Vec<String>, Vec<String>, String),
    >)
        ensures
            match r {
                Some(t) => extract_spec(self.fields@, record@) == Some(
                    (names_of(t.0@), names_of(t.1@), t.2@),
                ),
                None => extract_spec(self.fields@, record@) is None,
            },
    {
        if self.fields.len() == 0 {
            return None;
        }
        let mut cols: Vec<String> = Vec::new();
        let mut vals: Vec<String> = Vec::new();
        let mut key: Option<String> = None;
        let mut i: usize = 0;
        while i < self.fields.len()
            invariant
                i <= self.fields@.len(),
                extract_upto(self.fields@, record@, i as int) == Some(
                    (
                        names_of(cols@),
                        names_of(vals@),
                        match key {
                            Some(k) => Some(k@),
                            None => None::<Seq<char>>,
                        },
                    ),
                ),
            decreases self.fields@.len() - i,
        {
            let field = &self.fields[i];
            match find_entry(record, &field.name) {
                Some(j) => {
                    let ghost c0 = cols@;
                    let ghost v0 = vals@;
                    if field.is_key() {
                        key = Some(field.name.clone());
                    }
                    cols.push(field.name.clone());
                    vals.push(record[j].1.clone());
                    assert(names_of(cols@) =~= names_of(c0).push(field.name@));
                    assert(names_of(vals@) =~= names_of(v0).push(record@[j as int].1@));
                },
                None => {
                    if field.is_not_null() && !field.is_auto_increment() {
                        proof {
                            lemma_rejection_persists(
                                self.fields@,
                                record@,
                                i + 1,
                                self.fields@.len() as int,
                            );
                        }
                        return None;
                    }
                },
            }
            i = i + 1;
        }
        match key {
            None => None,
            Some(k) => {
                if cols.len() == 0 {
                    None
                } else {
                    Some((cols, vals, k))
                }
            },
        }
    }
}

} // verus!
