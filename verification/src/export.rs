//! Escaping of the fields of a record for line-oriented output.

use crate::text::{chars_string, str_chars};
use vstd::prelude::*;

verus! {

/// Whether a field has to be quoted: it holds a comma, a quotation mark or
/// a line feed.
pub open spec fn needs_quotes(s: Seq<char>) -> bool {
    s.contains(',') || s.contains('"') || s.contains('\n')
}

/// `s` with every quotation mark written twice.
pub open spec fn doubled_quotes(s: Seq<char>) -> Seq<char>
    decreases s.len(),
{
    if s.len() == 0 {
        Seq::empty()
    } else if s.last() == '"' {
        doubled_quotes(s.drop_last()).push('"').push('"')
    } else {
        doubled_quotes(s.drop_last()).push(s.last())
    }
}

/// A field as it stands in a line of comma-separated values.
pub open spec fn csv_text(s: Seq<char>) -> Seq<char> {
    if needs_quotes(s) {
        seq!['"'] + doubled_quotes(s) + seq!['"']
    } else {
        s
    }
}

/// A field as it stands in a line of tab-separated values: tabs and line
/// feeds are replaced by spaces.
pub open spec fn tsv_text(s: Seq<char>) -> Seq<char> {
    Seq::new(
        s.len(),
        |i: int|
            if s[i] == '\t' || s[i] == '\n' {
                ' '
            } else {
                s[i]
            },
    )
}

/// A field for a line of comma-separated values.
pub fn csv_escape(field: &str) -> (r: String)
    ensures
        r@ == csv_text(field@),
{
    let v = str_chars(field);
    let mut quoted: Vec<char> = Vec::new();
    quoted.push('"');
    let mut needs = false;
    let mut i: usize = 0;
    while i < v.len()
        invariant
            i <= v.len(),
            needs == needs_quotes(v@.take(i as int)),
            quoted@ == seq!['"'] + doubled_quotes(v@.take(i as int)),
        decreases v.len() - i,
    {
        let c = v[i];
        let ghost before = v@.take(i as int);
        let ghost after = v@.take(i + 1);
        proof {
            assert(after.drop_last() =~= before);
            assert(after.last() == c);
            assert(after =~= before.push(c));
            assert forall|x: char| after.contains(x) <==> (before.contains(x) || x == c) by {
                if before.contains(x) {
                    let k = choose|k: int| 0 <= k < before.len() && before[k] == x;
                    assert(after[k] == x);
                }
                if x == c {
                    assert(after[i as int] == x);
                }
            }
        }
        if c == ',' || c == '"' || c == '\n' {
            needs = true;
        }
        if c == '"' {
            quoted.push('"');
            quoted.push('"');
            proof {
                assert(quoted@ =~= seq!['"'] + doubled_quotes(after));
            }
        } else {
            quoted.push(c);
            proof {
                assert(quoted@ =~= seq!['"'] + doubled_quotes(after));
            }
        }
        i += 1;
    }
    proof {
        assert(v@.take(v.len() as int) =~= v@);
    }
    if needs {
        quoted.push('"');
        proof {
            assert(quoted@ =~= seq!['"'] + doubled_quotes(v@) + seq!['"']);
        }
        chars_string(&quoted)
    } else {
        chars_string(&v)
    }
}

/// A field for a line of tab-separated values.
pub fn tsv_escape(field: &str) -> (r: String)
    ensures
        r@ == tsv_text(field@),
{
    let v = str_chars(field);
    let mut out: Vec<char> = Vec::new();
    let mut i: usize = 0;
    while i < v.len()
        invariant
            i <= v.len(),
            out@ == tsv_text(v@.take(i as int)),
        decreases v.len() - i,
    {
        let c = v[i];
        if c == '\t' || c == '\n' {
            out.push(' ');
        } else {
            out.push(c);
        }
        proof {
            assert(out@ =~= tsv_text(v@.take(i + 1)));
        }
        i += 1;
    }
    proof {
        assert(v@.take(v.len() as int) =~= v@);
    }
    chars_string(&out)
}

} // verus!
