use vstd::prelude::*;
use vstd::string::StringExecFns;

use crate::models::{
    distinct_names, find_column, find_entry, lookup, names_of, position, position_from,
    CardMetadata, FieldSpec,
};

verus! {

/// A working record: column names and their values, position by position.
pub type Working = (Seq<Seq<char>>, Seq<Seq<char>>);

/// The image markup put around the value of an image field.
pub open spec fn wrap_image(v: Seq<char>) -> Seq<char> {
    "<img src=\""@ + v + "\">"@
}

/// The value written into a presence flag.
pub open spec fn flag_true() -> Seq<char> {
    "1"@
}

/// The text that field `f` would have annotated in the working record `w`
/// while `annotations` holds no reading for it.
pub open spec fn pending_step(f: FieldSpec, w: Working, annotations: Seq<(String, String)>) -> Option<
    Seq<char>,
> {
    if position(w.0, f.name@) is None && !f.spec_is_image() {
        match f.spec_autoruby() {
            Some(t) => match position(w.0, t) {
                Some(q) => if lookup(annotations, w.1[q]) is None {
                    Some(w.1[q])
                } else {
                    None
                },
                None => None,
            },
            None => None,
        }
    } else {
        None
    }
}

/// The rule of field `f` applied to the working record `w`. Readings are
/// taken from `annotations` (text, reading); a text without an entry there
/// gets no derived annotation.
pub open spec fn derive_step(f: FieldSpec, w: Working, annotations: Seq<(String, String)>) -> Working {
    let (cols, vals) = w;
    match position(cols, f.name@) {
        Some(p) => if f.spec_is_image() {
            (cols, vals.update(p, wrap_image(vals[p])))
        } else {
            w
        },
        None => if f.spec_is_image() {
            w
        } else {
            match f.spec_autoruby() {
                Some(t) => match position(cols, t) {
                    None => w,
                    Some(q) => match lookup(annotations, vals[q]) {
                        None => w,
                        Some(a) => if a == vals[q] {
                            w
                        } else {
                            (cols.push(f.name@), vals.push(a))
                        },
                    },
                },
                None => match f.spec_true_if_exists() {
                    Some(t) => match position(cols, t) {
                        None => w,
                        Some(q) => if vals[q].len() > 0 {
                            (cols.push(f.name@), vals.push(flag_true()))
                        } else {
                            w
                        },
                    },
                    None => w,
                },
            }
        },
    }
}

/// The working record after the rules of the first `n` fields.
pub open spec fn derive_upto(
    fields: Seq<FieldSpec>,
    w: Working,
    annotations: Seq<(String, String)>,
    n: int,
) -> Working
    decreases n,
{
    if n <= 0 {
        w
    } else {
        derive_step(fields[n - 1], derive_upto(fields, w, annotations, n - 1), annotations)
    }
}

/// The first text that the rules of the first `n` fields wanted annotated
/// and found no reading for in `annotations`.
pub open spec fn pending_upto(
    fields: Seq<FieldSpec>,
    w: Working,
    annotations: Seq<(String, String)>,
    n: int,
) -> Option<Seq<char>>
    decreases n,
{
    if n <= 0 {
        None
    } else {
        match pending_upto(fields, w, annotations, n - 1) {
            Some(t) => Some(t),
            None => pending_step(fields[n - 1], derive_upto(fields, w, annotations, n - 1), annotations),
        }
    }
}

/// The working record after one pass of all rules, or `None` where it
/// ends up empty.
pub open spec fn derive_spec(fields: Seq<FieldSpec>, w: Working, annotations: Seq<(String, String)>) -> Option<
    Working,
> {
    let r = derive_upto(fields, w, annotations, fields.len() as int);
    if r.0.len() == 0 || r.1.len() == 0 {
        None
    } else {
        Some(r)
    }
}

/// `<img src="v">`
fn image_markup(v: &String) -> (r: String)
    ensures
        r@ == wrap_image(v@),
{
    let mut s = String::from_str("<img src=\"");
    s.append(v.as_str());
    s.append("\">");
    s
}

impl CardMetadata {
    /// One pass of the rules over the working record `(cols, vals)`; also
    /// gives the first text that wanted a reading and found none.
    fn run_rules(
        &self,
        cols: &mut Vec<String>,
        vals: &mut Vec<String>,
        annotations: &Vec<(String, String)>,
    ) -> (pending: Option<String>)
        requires
            old(cols)@.len() == old(vals)@.len(),
        ensures
            final(cols)@.len() == final(vals)@.len(),
            (names_of(final(cols)@), names_of(final(vals)@)) == derive_upto(
                self.fields@,
                (names_of(old(cols)@), names_of(old(vals)@)),
                annotations@,
                self.fields@.len() as int,
            ),
            match pending {
                Some(t) => pending_upto(
                    self.fields@,
                    (names_of(old(cols)@), names_of(old(vals)@)),
                    annotations@,
                    self.fields@.len() as int,
                ) == Some(t@),
                None => pending_upto(
                    self.fields@,
                    (names_of(old(cols)@), names_of(old(vals)@)),
                    annotations@,
                    self.fields@.len() as int,
                ) is None,
            },
    {
        let ghost w0: Working = (names_of(cols@), names_of(vals@));
        let mut pending: Option<String> = None;
        let mut i: usize = 0;
        while i < self.fields.len()
            invariant
                i <= self.fields@.len(),
                cols@.len() == vals@.len(),
                (names_of(cols@), names_of(vals@)) == derive_upto(
                    self.fields@,
                    w0,
                    annotations@,
                    i as int,
                ),
                match pending {
                    Some(t) => pending_upto(self.fields@, w0, annotations@, i as int) == Some(t@),
                    None => pending_upto(self.fields@, w0, annotations@, i as int) is None,
                },
            decreases self.fields@.len() - i,
        {
            let field = &self.fields[i];
            let ghost c0 = cols@;
            let ghost v0 = vals@;
            let ghost w: Working = (names_of(c0), names_of(v0));
            let image = field.is_image();
            match find_column(cols, &field.name) {
                Some(p) => {
                    if image {
                        let wrapped = image_markup(&vals[p]);
                        vals.set(p, wrapped);
                        assert(names_of(vals@) =~= names_of(v0).update(
                            p as int,
                            wrap_image(v0[p as int]@),
                        ));
                    }
                },
                None => {
                    if !image {
                        match field.autoruby() {
                            Some(target) => {
                                match find_column(cols, &target) {
                                    Some(q) => {
                                        assert(w.1[q as int] == v0[q as int]@);
                                        match find_entry(annotations, &vals[q]) {
                                            Some(k) => {
                                                if !(annotations[k].1 == vals[q]) {
                                                    cols.push(field.name.clone());
                                                    vals.push(annotations[k].1.clone());
                                                    assert(names_of(cols@) =~= names_of(c0).push(
                                                        field.name@,
                                                    ));
                                                    assert(names_of(vals@) =~= names_of(v0).push(
                                                        annotations@[k as int].1@,
                                                    ));
                                                }
                                            },
                                            None => {
                                                if pending.is_none() {
                                                    pending = Some(vals[q].clone());
                                                }
                                            },
                                        }
                                    },
                                    None => {},
                                }
                            },
                            None => {
                                match field.true_if_exists() {
                                    Some(target) => {
                                        match find_column(cols, &target) {
                                            Some(q) => {
                                                assert(w.1[q as int] == v0[q as int]@);
                                                if !vals[q].as_str().is_empty() {
                                                    cols.push(field.name.clone());
                                                    vals.push(String::from_str("1"));
                                                    assert(names_of(cols@) =~= names_of(c0).push(
                                                        field.name@,
                                                    ));
                                                    assert(names_of(vals@) =~= names_of(v0).push(
                                                        flag_true(),
                                                    ));
                                                }
                                            },
                                            None => {},
                                        }
                                    },
                                    None => {},
                                }
                            },
                        }
                    }
                },
            }
            i = i + 1;
        }
        pending
    }

    /// Applies the derivation rules once, field by field in declaration
    /// order, to the columns `fields` with values `values`: image fields
    /// that are present get the image markup; an absent field with an
    /// annotation rule gets the reading of its source (from `annotations`)
    /// where that differs from the source; an absent presence flag gets
    /// `"1"` where its source is present and not empty. `None` where
    /// nothing is left.
    pub fn preprocess_data(
        &self,
        fields: &Vec<String>,
        values: &Vec<String>,
        annotations: &Vec<(String, String)>,
    ) -> (r: Option<(Vec<String>, Vec<String>)>)
        requires
            fields@.len() == values@.len(),
        ensures
            match r {
                Some(t) => derive_spec(
                    self.fields@,
                    (names_of(fields@), names_of(values@)),
                    annotations@,
                ) == Some((names_of(t.0@), names_of(t.1@))),
                None => derive_spec(
                    self.fields@,
                    (names_of(fields@), names_of(values@)),
                    annotations@,
                ) is None,
            },
    {
        let mut cols = fields.clone();
        let mut vals = values.clone();
        assert(cols@ == fields@);
        let _ = self.run_rules(&mut cols, &mut vals, annotations);
        if cols.len() == 0 || vals.len() == 0 {
            return None;
        }
        Some((cols, vals))
    }

    /// The first text that `preprocess_data` would annotate on these inputs
    /// and for which `annotations` holds no reading; `None` once every
    /// reading the pass asks for is there.
    pub fn pending_annotation(
        &self,
        fields: &Vec<String>,
        values: &Vec<String>,
        annotations: &Vec<(String, String)>,
    ) -> (r: Option<String>)
        requires
            fields@.len() == values@.len(),
        ensures
            match r {
                Some(t) => pending_upto(
                    self.fields@,
                    (names_of(fields@), names_of(values@)),
                    annotations@,
                    self.fields@.len() as int,
                ) == Some(t@),
                None => pending_upto(
                    self.fields@,
                    (names_of(fields@), names_of(values@)),
                    annotations@,
                    self.fields@.len() as int,
                ) is None,
            },
    {
        let mut cols = fields.clone();
        let mut vals = values.clone();
        assert(cols@ == fields@);
        self.run_rules(&mut cols, &mut vals, annotations)
    }
}

} // verus!

verus! {

/// `position` finds the first occurrence, and `None` means there is none.
proof fn lemma_position_from(s: Seq<Seq<char>>, x: Seq<char>, i: int)
    requires
        0 <= i <= s.len(),
    ensures
        match position_from(s, x, i) {
            Some(p) => i <= p < s.len() && s[p] == x && forall|j: int| i <= j < p ==> s[j] != x,
            None => forall|j: int| i <= j < s.len() ==> s[j] != x,
        },
    decreases s.len() - i,
{
    if i < s.len() {
        lemma_position_from(s, x, i + 1);
    }
}

proof fn lemma_position(s: Seq<Seq<char>>, x: Seq<char>)
    ensures
        match position(s, x) {
            Some(p) => 0 <= p < s.len() && s[p] == x && forall|j: int| 0 <= j < p ==> s[j] != x,
            None => forall|j: int| 0 <= j < s.len() ==> s[j] != x,
        },
{
    lemma_position_from(s, x, 0);
}

/// Looking `x` up in an extension of `s` finds what it found in `s`, and
/// nothing when neither `s` nor the added part holds `x`.
proof fn lemma_position_extended(s: Seq<Seq<char>>, t: Seq<Seq<char>>, x: Seq<char>)
    requires
        s.len() <= t.len(),
        s == t.subrange(0, s.len() as int),
    ensures
        position(s, x) is Some ==> position(t, x) == position(s, x),
        position(s, x) is None && (forall|k: int| s.len() <= k < t.len() ==> t[k] != x)
            ==> position(t, x) is None,
{
    lemma_position(s, x);
    lemma_position(t, x);
    assert forall|k: int| 0 <= k < s.len() implies s[k] == t[k] by {
        assert(s[k] == t.subrange(0, s.len() as int)[k]);
    }
}

/// No column of `cols` is named after an image field.
pub open spec fn no_image_column(fields: Seq<FieldSpec>, cols: Seq<Seq<char>>) -> bool {
    forall|i: int, k: int|
        0 <= i < fields.len() && fields[i].spec_is_image() && 0 <= k < cols.len() ==> cols[k]
            != fields[i].name@
}

/// Every derivation rule reads a field declared before the field it fills.
pub open spec fn sources_declared_first(fields: Seq<FieldSpec>) -> bool {
    forall|i: int, m: int|
        0 <= i <= m < fields.len() ==> fields[i].spec_autoruby() != Some(fields[m].name@)
            && fields[i].spec_true_if_exists() != Some(fields[m].name@)
}

/// A rule either leaves the record alone or appends its own field.
proof fn lemma_step_shape(f: FieldSpec, w: Working, annotations: Seq<(String, String)>)
    requires
        w.0.len() == w.1.len(),
        f.spec_is_image() ==> forall|k: int| 0 <= k < w.0.len() ==> w.0[k] != f.name@,
    ensures
        ({
            let r = derive_step(f, w, annotations);
            r == w || (r.0 == w.0.push(f.name@) && r.1.len() == w.1.len() + 1 && r.1.subrange(
                0,
                w.1.len() as int,
            ) == w.1 && position(w.0, f.name@) is None && !f.spec_is_image())
        }),
{
    lemma_position(w.0, f.name@);
    let r = derive_step(f, w, annotations);
    if r != w {
        assert(r.1.subrange(0, w.1.len() as int) =~= w.1);
    }
}

/// Along the pass the record keeps equal lengths and no image column.
proof fn lemma_pass_shape(
    fields: Seq<FieldSpec>,
    w: Working,
    annotations: Seq<(String, String)>,
    n: int,
)
    requires
        0 <= n <= fields.len(),
        w.0.len() == w.1.len(),
        distinct_names(fields),
        no_image_column(fields, w.0),
    ensures
        derive_upto(fields, w, annotations, n).0.len() == derive_upto(
            fields,
            w,
            annotations,
            n,
        ).1.len(),
        no_image_column(fields, derive_upto(fields, w, annotations, n).0),
    decreases n,
{
    if n > 0 {
        lemma_pass_shape(fields, w, annotations, n - 1);
        let s = derive_upto(fields, w, annotations, n - 1);
        lemma_step_shape(fields[n - 1], s, annotations);
        let r = derive_upto(fields, w, annotations, n);
        if r != s {
            assert forall|i: int, k: int|
                0 <= i < fields.len() && fields[i].spec_is_image() && 0 <= k < r.0.len() implies r.0[k]
                != fields[i].name@ by {
                if k == s.0.len() {
                    assert(i != n - 1);
                }
            }
        }
    }
}

/// The record after `n` rules is a prefix of the record after `m` rules, and
/// what lies beyond it are names of the fields `n..m`.
proof fn lemma_pass_growth(
    fields: Seq<FieldSpec>,
    w: Working,
    annotations: Seq<(String, String)>,
    n: int,
    m: int,
)
    requires
        0 <= n <= m <= fields.len(),
        w.0.len() == w.1.len(),
        distinct_names(fields),
        no_image_column(fields, w.0),
    ensures
        ({
            let a = derive_upto(fields, w, annotations, n);
            let b = derive_upto(fields, w, annotations, m);
            &&& a.0.len() <= b.0.len()
            &&& a.0 == b.0.subrange(0, a.0.len() as int)
            &&& a.1 == b.1.subrange(0, a.1.len() as int)
            &&& forall|k: int|
                #![trigger b.0[k]]
                a.0.len() <= k < b.0.len() ==> exists|j: int|
                    n <= j < m && b.0[k] == #[trigger] fields[j].name@
        }),
    decreases m - n,
{
    let a = derive_upto(fields, w, annotations, n);
    if n == m {
        assert(a.0 =~= a.0.subrange(0, a.0.len() as int));
        lemma_pass_shape(fields, w, annotations, n);
        assert(a.1 =~= a.1.subrange(0, a.1.len() as int));
    } else {
        lemma_pass_growth(fields, w, annotations, n, m - 1);
        lemma_pass_shape(fields, w, annotations, m - 1);
        lemma_pass_shape(fields, w, annotations, n);
        let s = derive_upto(fields, w, annotations, m - 1);
        let b = derive_upto(fields, w, annotations, m);
        lemma_step_shape(fields[m - 1], s, annotations);
        if b != s {
            assert(a.0 =~= b.0.subrange(0, a.0.len() as int)) by {
                assert(a.0 =~= s.0.subrange(0, a.0.len() as int));
            }
            assert(a.1 =~= b.1.subrange(0, a.1.len() as int)) by {
                assert(a.1 =~= s.1.subrange(0, a.1.len() as int));
                assert(s.1 =~= b.1.subrange(0, s.1.len() as int));
            }
            assert forall|k: int| #![trigger b.0[k]] a.0.len() <= k < b.0.len() implies exists|j: int|
                n <= j < m && b.0[k] == #[trigger] fields[j].name@ by {
                if k == s.0.len() {
                    assert(b.0[k] == fields[m - 1].name@);
                } else {
                    assert(b.0[k] == s.0[k]);
                }
            }
        }
    }
}

/// After a whole pass the rule of field `n` changes nothing more.
proof fn lemma_rule_settled(
    fields: Seq<FieldSpec>,
    w: Working,
    annotations: Seq<(String, String)>,
    n: int,
)
    requires
        0 <= n < fields.len(),
        w.0.len() == w.1.len(),
        distinct_names(fields),
        no_image_column(fields, w.0),
        sources_declared_first(fields),
    ensures
        ({
            let o = derive_upto(fields, w, annotations, fields.len() as int);
            derive_step(fields[n], o, annotations) == o
        }),
{
    let len = fields.len() as int;
    let f = fields[n];
    let s = derive_upto(fields, w, annotations, n);
    let s1 = derive_upto(fields, w, annotations, n + 1);
    let o = derive_upto(fields, w, annotations, len);
    lemma_pass_shape(fields, w, annotations, n);
    lemma_pass_shape(fields, w, annotations, len);
    lemma_pass_growth(fields, w, annotations, n, len);
    lemma_pass_growth(fields, w, annotations, n + 1, len);
    lemma_step_shape(f, s, annotations);
    lemma_position(o.0, f.name@);
    lemma_position_extended(s.0, o.0, f.name@);
    if position(o.0, f.name@) is None && !f.spec_is_image() {
        // the rule did not fire in the pass, or its column would be in `o`
        if s1 != s {
            assert(s1.0[s.0.len() as int] == f.name@);
            assert(o.0[s.0.len() as int] == s1.0[s.0.len() as int]);
        }
        assert(s1 == s);
        let src = if f.spec_autoruby() is Some {
            f.spec_autoruby()
        } else {
            f.spec_true_if_exists()
        };
        if src is Some {
            let t = src.unwrap();
            assert forall|k: int| s.0.len() <= k < o.0.len() implies o.0[k] != t by {
                let j = choose|j: int| n <= j < len && o.0[k] == #[trigger] fields[j].name@;
            }
            lemma_position_extended(s.0, o.0, t);
            lemma_position(s.0, t);
            if position(s.0, t) is Some {
                let q = position(s.0, t).unwrap();
                assert(o.1[q] == s.1[q]) by {
                    assert(s.1 == o.1.subrange(0, s.1.len() as int));
                }
            }
        }
    }
}

/// Running the pass over the first `n` rules again on its own result
/// changes nothing.
proof fn lemma_second_pass(
    fields: Seq<FieldSpec>,
    w: Working,
    annotations: Seq<(String, String)>,
    n: int,
)
    requires
        0 <= n <= fields.len(),
        w.0.len() == w.1.len(),
        distinct_names(fields),
        no_image_column(fields, w.0),
        sources_declared_first(fields),
    ensures
        ({
            let o = derive_upto(fields, w, annotations, fields.len() as int);
            derive_upto(fields, o, annotations, n) == o
        }),
    decreases n,
{
    if n > 0 {
        lemma_second_pass(fields, w, annotations, n - 1);
        lemma_rule_settled(fields, w, annotations, n - 1);
    }
}

/// Deriving twice is deriving once: on a record with no image column, for a
/// schema whose field names are distinct and whose rules read fields
/// declared before the fields they fill, a second pass over the result of
/// the first (with the same readings) returns it unchanged.
pub proof fn lemma_derive_idempotent(
    fields: Seq<FieldSpec>,
    w: Working,
    annotations: Seq<(String, String)>,
)
    requires
        w.0.len() == w.1.len(),
        distinct_names(fields),
        no_image_column(fields, w.0),
        sources_declared_first(fields),
    ensures
        derive_spec(fields, w, annotations) matches Some(o) ==> derive_spec(fields, o, annotations)
            == Some(o),
{
    lemma_second_pass(fields, w, annotations, fields.len() as int);
}

/// Along the pass the columns of `w` stay in place, and the value of the
/// first column named after image field `j` is wrapped once, by rule `j`.
proof fn lemma_image_prefix(
    fields: Seq<FieldSpec>,
    w: Working,
    annotations: Seq<(String, String)>,
    j: int,
    p: int,
    n: int,
)
    requires
        0 <= j < fields.len(),
        0 <= n <= fields.len(),
        fields[j].spec_is_image(),
        distinct_names(fields),
        w.0.len() == w.1.len(),
        position(w.0, fields[j].name@) == Some(p),
    ensures
        ({
            let s = derive_upto(fields, w, annotations, n);
            &&& s.0.len() == s.1.len()
            &&& w.0.len() <= s.0.len()
            &&& s.0.subrange(0, w.0.len() as int) == w.0
            &&& position(s.0, fields[j].name@) == Some(p)
            &&& s.1[p] == (if n > j {
                wrap_image(w.1[p])
            } else {
                w.1[p]
            })
        }),
    decreases n,
{
    lemma_position(w.0, fields[j].name@);
    if n == 0 {
        assert(w.0.subrange(0, w.0.len() as int) =~= w.0);
    } else {
        lemma_image_prefix(fields, w, annotations, j, p, n - 1);
        let s = derive_upto(fields, w, annotations, n - 1);
        let r = derive_upto(fields, w, annotations, n);
        let f = fields[n - 1];
        lemma_position(s.0, f.name@);
        lemma_position(s.0, fields[j].name@);
        assert(s.0[p] == fields[j].name@);
        if r.0 != s.0 {
            assert(r.0 == s.0.push(f.name@));
            assert(r.0.subrange(0, w.0.len() as int) =~= s.0.subrange(0, w.0.len() as int));
            assert(r.0.subrange(0, s.0.len() as int) =~= s.0);
            lemma_position_extended(s.0, r.0, fields[j].name@);
        }
        if n - 1 != j {
            assert(f.name@ != fields[j].name@);
        }
    }
}

/// Image markup is applied exactly once: after one pass, the value of an
/// image field that the record holds is its input value wrapped once.
pub proof fn lemma_image_wrapped_once(
    fields: Seq<FieldSpec>,
    w: Working,
    annotations: Seq<(String, String)>,
    j: int,
)
    requires
        0 <= j < fields.len(),
        fields[j].spec_is_image(),
        distinct_names(fields),
        w.0.len() == w.1.len(),
        position(w.0, fields[j].name@) is Some,
    ensures
        ({
            let p = position(w.0, fields[j].name@).unwrap();
            derive_spec(fields, w, annotations) matches Some(o) && o.0[p] == fields[j].name@
                && o.1[p] == wrap_image(w.1[p])
        }),
{
    let p = position(w.0, fields[j].name@).unwrap();
    lemma_image_prefix(fields, w, annotations, j, p, fields.len() as int);
    lemma_position(w.0, fields[j].name@);
    let o = derive_upto(fields, w, annotations, fields.len() as int);
    assert(o.0[p] == o.0.subrange(0, w.0.len() as int)[p]);
}

} // verus!
