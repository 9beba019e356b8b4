use vstd::prelude::*;
use vstd::string::{StrSliceExecFns, StringExecFns};

verus! {

/// `s` with each line break written as `<br>`.
pub open spec fn br_lines(s: Seq<char>) -> Seq<char>
    decreases s.len(),
{
    if s.len() == 0 {
        s
    } else {
        br_lines(s.drop_last()) + (if s.last() == '\n' {
            "<br>"@
        } else {
            seq![s.last()]
        })
    }
}

/// `s` without the `<br>` marks at its end.
pub open spec fn trim_br(s: Seq<char>) -> Seq<char>
    decreases s.len(),
{
    if s.len() >= 4 && s.subrange(s.len() - 4, s.len() as int) == "<br>"@ {
        trim_br(s.subrange(0, s.len() - 4))
    } else {
        s
    }
}

/// The text of a stored cell as it is exported: line breaks become `<br>`,
/// and those at the end are dropped.
pub fn cell_text(raw: &str) -> (r: String)
    ensures
        r@ == trim_br(br_lines(raw@)),
{
    proof {
        reveal_strlit("<br>");
    }
    let n = raw.unicode_len();
    let mut out = String::new();
    let mut i: usize = 0;
    while i < n
        invariant
            n == raw@.len(),
            i <= n,
            out@ == br_lines(raw@.subrange(0, i as int)),
        decreases n - i,
    {
        assert(raw@.subrange(0, i + 1).drop_last() =~= raw@.subrange(0, i as int));
        let c = raw.get_char(i);
        if c == '\n' {
            out.append("<br>");
        } else {
            let one = raw.substring_char(i, i + 1);
            assert(one@ =~= seq![c]);
            out.append(one);
        }
        i = i + 1;
    }
    assert(raw@.subrange(0, n as int) =~= raw@);
    let full = out.as_str();
    let mut len = full.unicode_len();
    assert(full@.subrange(0, len as int) =~= full@);
    while len >= 4 && String::from_str(full.substring_char(len - 4, len)) == String::from_str("<br>")
        invariant
            len <= full@.len(),
            trim_br(full@) == trim_br(full@.subrange(0, len as int)),
        decreases len,
    {
        assert(full@.subrange(0, len as int).subrange(len - 4, len as int) =~= full@.subrange(
            len - 4,
            len as int,
        ));
        assert(full@.subrange(0, len as int).subrange(0, len - 4) =~= full@.subrange(
            0,
            len - 4,
        ));
        len = len - 4;
    }
    proof {
        if len >= 4 {
            assert(full@.subrange(0, len as int).subrange(len - 4, len as int) =~= full@.subrange(
                len - 4,
                len as int,
            ));
        }
    }
    String::from_str(full.substring_char(0, len))
}

} // verus!
