//! Parsing of environment file contents: newline-separated `KEY=VALUE`
//! assignments. Blank lines are skipped; any other line without a `=` is a
//! parse error, reported by its line index.

use vstd::prelude::*;
use vstd::string::*;
use crate::text::{find_from, first_index_of, lemma_first_index_of_at};
use crate::envmap::{EnvEntry, EnvEntryV, EnvValue, EnvValueV};

verus! {

/// The lines of `s`, split at `'\n'`. The empty content has no lines, and a
/// trailing newline does not open a final empty line.
pub open spec fn split_lines_spec(s: Seq<char>) -> Seq<Seq<char>>
    decreases s.len(),
    via split_lines_spec_decreases
{
    if s.len() == 0 {
        Seq::empty()
    } else {
        let k = first_index_of(s, '\n');
        if k == s.len() {
            seq![s]
        } else {
            seq![s.subrange(0, k)] + split_lines_spec(s.subrange(k + 1, s.len() as int))
        }
    }
}

#[via_fn]
proof fn split_lines_spec_decreases(s: Seq<char>) {
    crate::text::lemma_first_index_of_props(s, '\n');
}

/// A line parses when it is blank or carries a `=`.
pub open spec fn line_ok(l: Seq<char>) -> bool {
    l.len() == 0 || first_index_of(l, '=') < l.len()
}

/// The binding a non-blank line gives: the name before the first `=`, the
/// text value after it.
pub open spec fn line_entry(l: Seq<char>) -> EnvEntryV {
    EnvEntryV {
        name: l.subrange(0, first_index_of(l, '=')),
        value: EnvValueV::Text(l.subrange(first_index_of(l, '=') + 1, l.len() as int)),
    }
}

pub open spec fn lines_ok(ls: Seq<Seq<char>>) -> bool {
    forall|i: int| 0 <= i < ls.len() ==> line_ok(ls[i])
}

/// The index of the first line that does not parse; `ls.len()` if all do.
pub open spec fn first_bad_line(ls: Seq<Seq<char>>) -> int
    decreases ls.len(),
{
    if ls.len() == 0 {
        0
    } else if !line_ok(ls[0]) {
        0
    } else {
        1 + first_bad_line(ls.drop_first())
    }
}

pub proof fn lemma_first_bad_line_at(ls: Seq<Seq<char>>, k: int)
    requires
        0 <= k < ls.len(),
        !line_ok(ls[k]),
        forall|j: int| 0 <= j < k ==> line_ok(ls[j]),
    ensures
        first_bad_line(ls) == k,
    decreases ls.len(),
{
    if k > 0 {
        assert(forall|j: int| 0 <= j < k - 1 ==> ls.drop_first()[j] == ls[j + 1]);
        lemma_first_bad_line_at(ls.drop_first(), k - 1);
    }
}

/// The bindings given by the non-blank lines, in order.
pub open spec fn lines_entries(ls: Seq<Seq<char>>) -> Seq<EnvEntryV>
    decreases ls.len(),
{
    if ls.len() == 0 {
        Seq::empty()
    } else if ls[0].len() == 0 {
        lines_entries(ls.drop_first())
    } else {
        seq![line_entry(ls[0])] + lines_entries(ls.drop_first())
    }
}

/// Splits `s` at `'\n'`, matching `split_lines_spec`.
pub fn split_lines(s: &str) -> (r: Vec<String>)
    ensures
        r.deep_view() == split_lines_spec(s@),
    decreases s@.len(),
{
    let n = s.unicode_len();
    if n == 0 {
        let r: Vec<String> = Vec::new();
        proof {
            assert(r.deep_view() =~= split_lines_spec(s@));
        }
        return r;
    }
    let k = find_from(s, 0, '\n');
    proof {
        lemma_first_index_of_at(s@, '\n', k as int);
    }
    if k == n {
        let mut r: Vec<String> = Vec::new();
        r.push(String::from_str(s));
        proof {
            assert(r.deep_view() =~= split_lines_spec(s@));
        }
        r
    } else {
        let head = s.substring_char(0, k);
        let tail = s.substring_char(k + 1, n);
        let mut r = split_lines(tail);
        r.insert(0, String::from_str(head));
        proof {
            assert(r.deep_view() =~= seq![head@] + split_lines_spec(tail@));
            assert(r.deep_view() =~= split_lines_spec(s@));
        }
        r
    }
}

/// Parses environment file contents into bindings. Returns the bindings of
/// the non-blank lines, or the index of the first line that does not parse.
pub fn parse_env_content(s: &str) -> (r: Result<Vec<EnvEntry>, usize>)
    ensures
        lines_ok(split_lines_spec(s@)) ==> (r matches Ok(v) && v.deep_view() == lines_entries(
            split_lines_spec(s@),
        )),
        !lines_ok(split_lines_spec(s@)) ==> (r matches Err(i) && i == first_bad_line(
            split_lines_spec(s@),
        )),
{
    let lines = split_lines(s);
    let ghost lds = lines.deep_view();
    let n = lines.len();
    let mut out: Vec<EnvEntry> = Vec::new();
    let mut i: usize = 0;
    proof {
        assert(lds.skip(0) =~= lds);
    }
    while i < n
        invariant
            lds == lines.deep_view(),
            lds == split_lines_spec(s@),
            n == lines@.len(),
            i <= n,
            forall|j: int| 0 <= j < i ==> line_ok(lds[j]),
            lines_entries(lds) == out.deep_view() + lines_entries(lds.skip(i as int)),
        decreases n - i,
    {
        proof {
            assert(lds.skip(i as int)[0] == lds[i as int]);
            assert(lds.skip(i as int).drop_first() =~= lds.skip(i + 1));
            assert(lds[i as int] == lines@[i as int]@);
        }
        let ln = lines[i].as_str();
        let m = ln.unicode_len();
        if m == 0 {
            i += 1;
            continue;
        }
        let k = find_from(ln, 0, '=');
        proof {
            lemma_first_index_of_at(ln@, '=', k as int);
        }
        if k == m {
            proof {
                lemma_first_bad_line_at(lds, i as int);
            }
            return Err(i);
        }
        let name = String::from_str(ln.substring_char(0, k));
        let value = String::from_str(ln.substring_char(k + 1, m));
        let e = EnvEntry { name, value: EnvValue::Text(value) };
        proof {
            assert(e@.name =~= line_entry(lds[i as int]).name);
            assert(e@ == line_entry(lds[i as int]));
        }
        let ghost pre = out.deep_view();
        out.push(e);
        proof {
            assert(out.deep_view() =~= pre + seq![line_entry(lds[i as int])]);
            assert(out.deep_view() + lines_entries(lds.skip(i + 1)) =~= lines_entries(lds));
        }
        i += 1;
    }
    proof {
        assert(lds.skip(n as int) =~= Seq::<Seq<char>>::empty());
        assert(out.deep_view() =~= lines_entries(lds));
    }
    Ok(out)
}

} // verus!
