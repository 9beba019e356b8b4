use vstd::prelude::*;
use vstd::string::StringExecFns;

verus! {

/// Storage type of a column.
#[derive(Clone, Copy, Debug, PartialEq, Eq, Structural)]
pub enum FieldType {
    String,
    Text,
    Boolean,
    Integer,
}

impl Default for FieldType {
    fn default() -> (r: FieldType)
        ensures
            r == FieldType::String,
    {
        FieldType::String
    }
}

/// One column of the card table: its name, storage type and the traits
/// given to it as `(tag, argument)` entries (`("Key", "")`,
/// `("Autoruby", "word")`, ...).
#[derive(Clone, Debug)]
pub struct FieldSpec {
    pub name: String,
    pub field_type: FieldType,
    pub metadata: Vec<(String, String)>,
}

/// The whole schema: a table name and its fields in declaration order.
#[derive(Clone, Debug)]
pub struct CardMetadata {
    pub name: String,
    pub fields: Vec<FieldSpec>,
}

/// Renders one reading annotation as ` base[reading] `.
#[derive(Clone, Copy, Debug)]
pub struct SimpleFormat;

/// The value stored under `k` in a list of `(key, value)` entries, searching
/// from position `i`: the first entry whose key is `k` wins.
pub open spec fn lookup_from(entries: Seq<(String, String)>, k: Seq<char>, i: int) -> Option<
    Seq<char>,
>
    decreases entries.len() - i,
{
    if i < 0 || i >= entries.len() {
        None
    } else if entries[i].0@ == k {
        Some(entries[i].1@)
    } else {
        lookup_from(entries, k, i + 1)
    }
}

/// The value stored under `k` in a list of `(key, value)` entries.
pub open spec fn lookup(entries: Seq<(String, String)>, k: Seq<char>) -> Option<Seq<char>> {
    lookup_from(entries, k, 0)
}

/// The text held by each string of `v`.
pub open spec fn names_of(v: Seq<String>) -> Seq<Seq<char>> {
    v.map_values(|s: String| s@)
}

/// First position at or after `i` of `x` among the column names `s`.
pub open spec fn position_from(s: Seq<Seq<char>>, x: Seq<char>, i: int) -> Option<int>
    decreases s.len() - i,
{
    if i < 0 || i >= s.len() {
        None
    } else if s[i] == x {
        Some(i)
    } else {
        position_from(s, x, i + 1)
    }
}

/// First position of `x` among the column names `s`.
pub open spec fn position(s: Seq<Seq<char>>, x: Seq<char>) -> Option<int> {
    position_from(s, x, 0)
}

pub open spec fn primary_key_tag() -> Seq<char> {
    "Primary Key"@
}

pub open spec fn key_tag() -> Seq<char> {
    "Key"@
}

pub open spec fn auto_increment_tag() -> Seq<char> {
    "Auto Increment"@
}

pub open spec fn not_null_tag() -> Seq<char> {
    "Not Null"@
}

pub open spec fn unique_tag() -> Seq<char> {
    "Unique"@
}

pub open spec fn image_tag() -> Seq<char> {
    "Image"@
}

pub open spec fn autoruby_tag() -> Seq<char> {
    "Autoruby"@
}

pub open spec fn true_if_exists_tag() -> Seq<char> {
    "True If Exists"@
}

/// Finds the first entry whose key is `k`.
pub fn find_entry(entries: &Vec<(String, String)>, k: &String) -> (r: Option<usize>)
    ensures
        match r {
            Some(i) => i < entries@.len() && entries@[i as int].0@ == k@ && lookup(entries@, k@)
                == Some(entries@[i as int].1@),
            None => lookup(entries@, k@) is None,
        },
{
    let mut i: usize = 0;
    while i < entries.len()
        invariant
            i <= entries@.len(),
            lookup(entries@, k@) == lookup_from(entries@, k@, i as int),
        decreases entries@.len() - i,
    {
        if entries[i].0 == *k {
            return Some(i);
        }
        i = i + 1;
    }
    None
}

/// Finds the first column named `x`.
pub fn find_column(cols: &Vec<String>, x: &String) -> (r: Option<usize>)
    ensures
        match r {
            Some(p) => p < cols@.len() && cols@[p as int]@ == x@ && position(names_of(cols@), x@)
                == Some(p as int),
            None => position(names_of(cols@), x@) is None,
        },
{
    let mut i: usize = 0;
    while i < cols.len()
        invariant
            i <= cols@.len(),
            position(names_of(cols@), x@) == position_from(names_of(cols@), x@, i as int),
        decreases cols@.len() - i,
    {
        if cols[i] == *x {
            return Some(i);
        }
        i = i + 1;
    }
    None
}

impl FieldSpec {
    pub open spec fn has_tag(&self, tag: Seq<char>) -> bool {
        lookup(self.metadata@, tag) is Some
    }

    pub open spec fn spec_is_primary_key(&self) -> bool {
        self.has_tag(primary_key_tag())
    }

    pub open spec fn spec_is_key(&self) -> bool {
        self.has_tag(key_tag())
    }

    pub open spec fn spec_is_auto_increment(&self) -> bool {
        self.has_tag(auto_increment_tag())
    }

    pub open spec fn spec_is_not_null(&self) -> bool {
        self.has_tag(not_null_tag())
    }

    pub open spec fn spec_is_unique(&self) -> bool {
        self.has_tag(unique_tag())
    }

    pub open spec fn spec_is_image(&self) -> bool {
        self.has_tag(image_tag())
    }

    /// The field that an annotation of this field is derived from.
    pub open spec fn spec_autoruby(&self) -> Option<Seq<char>> {
        lookup(self.metadata@, autoruby_tag())
    }

    /// The field whose presence this flag field records.
    pub open spec fn spec_true_if_exists(&self) -> Option<Seq<char>> {
        lookup(self.metadata@, true_if_exists_tag())
    }

    /// A value for this field must come with every record.
    pub open spec fn spec_required(&self) -> bool {
        self.spec_is_not_null() && !self.spec_is_auto_increment()
    }

    fn has_tag_exec(&self, tag: &str) -> (r: bool)
        ensures
            r == self.has_tag(tag@),
    {
        let t = String::from_str(tag);
        find_entry(&self.metadata, &t).is_some()
    }

    fn tag_value(&self, tag: &str) -> (r: Option<String>)
        ensures
            match r {
                Some(v) => lookup(self.metadata@, tag@) == Some(v@),
                None => lookup(self.metadata@, tag@) is None,
            },
    {
        let t = String::from_str(tag);
        match find_entry(&self.metadata, &t) {
            Some(i) => Some(self.metadata[i].1.clone()),
            None => None,
        }
    }

    pub fn is_primary_key(&self) -> (r: bool)
        ensures
            r == self.spec_is_primary_key(),
    {
        self.has_tag_exec("Primary Key")
    }

    pub fn is_key(&self) -> (r: bool)
        ensures
            r == self.spec_is_key(),
    {
        self.has_tag_exec("Key")
    }

    pub fn is_auto_increment(&self) -> (r: bool)
        ensures
            r == self.spec_is_auto_increment(),
    {
        self.has_tag_exec("Auto Increment")
    }

    pub fn is_not_null(&self) -> (r: bool)
        ensures
            r == self.spec_is_not_null(),
    {
        self.has_tag_exec("Not Null")
    }

    pub fn is_unique(&self) -> (r: bool)
        ensures
            r == self.spec_is_unique(),
    {
        self.has_tag_exec("Unique")
    }

    pub fn is_image(&self) -> (r: bool)
        ensures
            r == self.spec_is_image(),
    {
        self.has_tag_exec("Image")
    }

    /// Name of the field whose annotation fills this one, if any.
    pub fn autoruby(&self) -> (r: Option<String>)
        ensures
            match r {
                Some(v) => self.spec_autoruby() == Some(v@),
                None => self.spec_autoruby() is None,
            },
    {
        self.tag_value("Autoruby")
    }

    /// Name of the field whose presence this flag records, if any.
    pub fn true_if_exists(&self) -> (r: Option<String>)
        ensures
            match r {
                Some(v) => self.spec_true_if_exists() == Some(v@),
                None => self.spec_true_if_exists() is None,
            },
    {
        self.tag_value("True If Exists")
    }
}

/// Field names are pairwise distinct.
pub open spec fn distinct_names(fields: Seq<FieldSpec>) -> bool {
    forall|i: int, j: int|
        0 <= i < fields.len() && 0 <= j < fields.len() && i != j ==> fields[i].name@
            != fields[j].name@
}

/// Some field of `fields` is named `t`.
pub open spec fn names_field(fields: Seq<FieldSpec>, t: Seq<char>) -> bool {
    exists|k: int| 0 <= k < fields.len() && fields[k].name@ == t
}

/// A usable schema: exactly one natural-key field, distinct field names, and
/// every derivation rule naming a field of the schema.
pub open spec fn valid_schema(fields: Seq<FieldSpec>) -> bool {
    &&& exists|j: int|
        0 <= j < fields.len() && fields[j].spec_is_key() && forall|i: int|
            0 <= i < fields.len() && fields[i].spec_is_key() ==> i == j
    &&& distinct_names(fields)
    &&& forall|i: int|
        0 <= i < fields.len() ==> (#[trigger] fields[i].spec_autoruby() matches Some(t)
            ==> names_field(fields, t)) && (fields[i].spec_true_if_exists() matches Some(t)
            ==> names_field(fields, t))
}

impl CardMetadata {
    /// Whether some field is named `t`.
    pub fn has_field(&self, t: &String) -> (r: bool)
        ensures
            r == names_field(self.fields@, t@),
    {
        let mut k: usize = 0;
        while k < self.fields.len()
            invariant
                k <= self.fields@.len(),
                forall|m: int| 0 <= m < k ==> self.fields@[m].name@ != t@,
            decreases self.fields@.len() - k,
        {
            if self.fields[k].name == *t {
                return true;
            }
            k = k + 1;
        }
        false
    }

    /// Checks the schema: `true` exactly when it has one natural-key field,
    /// distinct field names, and every derivation rule names one of its
    /// fields.
    pub fn validate(&self) -> (r: bool)
        ensures
            r == valid_schema(self.fields@),
    {
        let n = self.fields.len();
        let mut j: usize = 0;
        while j < n && !self.fields[j].is_key()
            invariant
                n == self.fields@.len(),
                j <= n,
                forall|i: int| 0 <= i < j ==> !self.fields@[i].spec_is_key(),
            decreases n - j,
        {
            j = j + 1;
        }
        if j == n {
            return false;
        }
        let mut i: usize = j + 1;
        while i < n
            invariant
                n == self.fields@.len(),
                j < i <= n,
                self.fields@[j as int].spec_is_key(),
                forall|m: int| 0 <= m < j ==> !self.fields@[m].spec_is_key(),
                forall|m: int| j < m < i ==> !self.fields@[m].spec_is_key(),
            decreases n - i,
        {
            if self.fields[i].is_key() {
                return false;
            }
            i = i + 1;
        }
        let mut a: usize = 0;
        while a < n
            invariant
                n == self.fields@.len(),
                a <= n,
                forall|x: int, y: int|
                    0 <= x < a && 0 <= y < n && x != y ==> self.fields@[x].name@
                        != self.fields@[y].name@,
            decreases n - a,
        {
            let mut b: usize = 0;
            while b < n
                invariant
                    n == self.fields@.len(),
                    a < n,
                    b <= n,
                    forall|x: int, y: int|
                        0 <= x < a && 0 <= y < n && x != y ==> self.fields@[x].name@
                            != self.fields@[y].name@,
                    forall|y: int|
                        0 <= y < b && y != a ==> self.fields@[a as int].name@
                            != self.fields@[y].name@,
                decreases n - b,
            {
                if b != a && self.fields[a].name == self.fields[b].name {
                    return false;
                }
                b = b + 1;
            }
            a = a + 1;
        }
        let mut c: usize = 0;
        while c < n
            invariant
                n == self.fields@.len(),
                c <= n,
                forall|x: int|
                    0 <= x < c ==> (#[trigger] self.fields@[x].spec_autoruby() matches Some(t)
                        ==> names_field(self.fields@, t)) && (
                    self.fields@[x].spec_true_if_exists() matches Some(t) ==> names_field(
                        self.fields@,
                        t,
                    )),
            decreases n - c,
        {
            match self.fields[c].autoruby() {
                Some(t) => {
                    if !self.has_field(&t) {
                        return false;
                    }
                },
                None => {},
            }
            match self.fields[c].true_if_exists() {
                Some(t) => {
                    if !self.has_field(&t) {
                        return false;
                    }
                },
                None => {},
            }
            c = c + 1;
        }
        true
    }

    /// The first field that carries the natural key.
    pub fn get_main_key(&self) -> (r: &FieldSpec)
        requires
            exists|i: int| 0 <= i < self.fields@.len() && self.fields@[i].spec_is_key(),
        ensures
            r.spec_is_key(),
            exists|i: int|
                0 <= i < self.fields@.len() && self.fields@[i] == *r && forall|j: int|
                    0 <= j < i ==> !self.fields@[j].spec_is_key(),
    {
        let mut i: usize = 0;
        while i < self.fields.len()
            invariant
                i <= self.fields@.len(),
                exists|k: int| i <= k < self.fields@.len() && self.fields@[k].spec_is_key(),
                forall|j: int| 0 <= j < i ==> !self.fields@[j].spec_is_key(),
            decreases self.fields@.len() - i,
        {
            if self.fields[i].is_key() {
                return &self.fields[i];
            }
            i = i + 1;
        }
        &self.fields[0]
    }
}

impl SimpleFormat {
    /// ` base[text] `: the reading set in brackets after its base text.
    pub fn format(&self, base: &str, text: &str) -> (r: String)
        ensures
            r@ == " "@ + base@ + "["@ + text@ + "] "@,
    {
        let mut s = String::from_str(" ");
        s.append(base);
        s.append("[");
        s.append(text);
        s.append("] ");
        s
    }
}

} // verus!
