//! Ingestion of the external label table.
//!
//! Labels arrive as UTF-8 text, one label per line: either a tab-separated
//! pair of a hexadecimal hash and a path, or a bare path.  Lines that fit
//! neither shape are skipped.  Every surviving path is filed under the
//! hash-40 of the path itself, which makes name-map consistency hold by
//! construction.

use vstd::prelude::*;

use vstd::string::StrSliceExecFns;

verus! {

/// First position at or after `pos` holding a newline, or the length of `s`.
pub open spec fn line_end(s: Seq<char>, pos: int) -> int
    decreases s.len() - pos,
{
    if pos < 0 || pos >= s.len() {
        s.len() as int
    } else if s[pos] == '\n' {
        pos
    } else {
        line_end(s, pos + 1)
    }
}

/// First position at or after `pos` holding a tab, or the length of `s`.
pub open spec fn tab_end(s: Seq<char>, pos: int) -> int
    decreases s.len() - pos,
{
    if pos < 0 || pos >= s.len() {
        s.len() as int
    } else if s[pos] == '\t' {
        pos
    } else {
        tab_end(s, pos + 1)
    }
}

/// Whether `c` is a hexadecimal digit.
pub open spec fn is_hex_digit(c: char) -> bool {
    (48 <= c as u32 && c as u32 <= 57) || (97 <= c as u32 && c as u32 <= 102) || (65 <= c as u32
        && c as u32 <= 70)
}

/// Whether every character of `s` is a hexadecimal digit.
pub open spec fn all_hex(s: Seq<char>) -> bool {
    forall|j: int| 0 <= j < s.len() ==> is_hex_digit(#[trigger] s[j])
}

/// The path one label line carries: the line itself for the bare-path shape,
/// the part after the tab for the hash-tab-path shape (the hash must be 1 to
/// 16 hexadecimal digits and no second tab may follow), `None` for an empty
/// or malformed line.
pub open spec fn parse_label_line(line: Seq<char>) -> Option<Seq<char>> {
    if line.len() == 0 {
        None
    } else {
        let t = tab_end(line, 0);
        if t == line.len() {
            Some(line)
        } else if 1 <= t <= 16 && all_hex(line.subrange(0, t)) && tab_end(line, t + 1)
            == line.len() {
            Some(line.subrange(t + 1, line.len() as int))
        } else {
            None
        }
    }
}

/// Every path the label text carries from position `pos` on, in order.
pub open spec fn parsed_from(s: Seq<char>, pos: int) -> Seq<Seq<char>>
    decreases s.len() - pos + 1,
        via parsed_from_decreases
{
    if pos < 0 || pos >= s.len() {
        Seq::empty()
    } else {
        let e = line_end(s, pos);
        let rest = parsed_from(s, e + 1);
        match parse_label_line(s.subrange(pos, e)) {
            Some(p) => seq![p] + rest,
            None => rest,
        }
    }
}

#[via_fn]
proof fn parsed_from_decreases(s: Seq<char>, pos: int) {
    if 0 <= pos && pos < s.len() {
        lemma_line_end_bounds(s, pos);
    }
}

/// Every path the label text carries, in order.
pub open spec fn parsed_labels(s: Seq<char>) -> Seq<Seq<char>> {
    parsed_from(s, 0)
}

proof fn lemma_line_end_bounds(s: Seq<char>, pos: int)
    requires
        0 <= pos <= s.len(),
    ensures
        pos <= line_end(s, pos) <= s.len(),
    decreases s.len() - pos,
{
    if pos < s.len() && s[pos] != '\n' {
        lemma_line_end_bounds(s, pos + 1);
    }
}

/// Scans for the end of the line starting at `pos`.
fn find_line_end(s: &str, n: usize, pos: usize) -> (r: usize)
    requires
        n == s@.len(),
        pos <= n,
    ensures
        r == line_end(s@, pos as int),
        pos <= r <= n,
{
    let mut e = pos;
    while e < n
        invariant
            pos <= e <= n == s@.len(),
            line_end(s@, pos as int) == line_end(s@, e as int),
        decreases n - e,
    {
        if s.get_char(e) == '\n' {
            return e;
        }
        e = e + 1;
    }
    e
}

/// Scans for the first tab of `line` at or after `pos`.
fn find_tab(line: &str, n: usize, pos: usize) -> (r: usize)
    requires
        n == line@.len(),
        pos <= n,
    ensures
        r == tab_end(line@, pos as int),
        pos <= r <= n,
{
    let mut e = pos;
    while e < n
        invariant
            pos <= e <= n == line@.len(),
            tab_end(line@, pos as int) == tab_end(line@, e as int),
        decreases n - e,
    {
        if line.get_char(e) == '\t' {
            return e;
        }
        e = e + 1;
    }
    e
}

/// Parses one label line; `None` for an empty or malformed line.
fn parse_line(line: &str) -> (r: Option<String>)
    ensures
        match r {
            Some(p) => parse_label_line(line@) == Some(p@),
            None => parse_label_line(line@) is None,
        },
{
    let n = line.unicode_len();
    if n == 0 {
        return None;
    }
    let t = find_tab(line, n, 0);
    if t == n {
        return Some(line.to_owned());
    }
    if t < 1 || t > 16 {
        return None;
    }
    let mut j: usize = 0;
    while j < t
        invariant
            0 <= j <= t < n == line@.len(),
            t == tab_end(line@, 0),
            1 <= t <= 16,
            forall|k: int| 0 <= k < j ==> is_hex_digit(#[trigger] line@[k]),
        decreases t - j,
    {
        let c = line.get_char(j) as u32;
        if !((48 <= c && c <= 57) || (97 <= c && c <= 102) || (65 <= c && c <= 70)) {
            proof {
                assert(!is_hex_digit(line@[j as int]));
                assert(line@.subrange(0, t as int)[j as int] == line@[j as int]);
                assert(!all_hex(line@.subrange(0, t as int)));
            }
            return None;
        }
        j = j + 1;
    }
    proof {
        assert forall|k: int| 0 <= k < t implies is_hex_digit(
            #[trigger] line@.subrange(0, t as int)[k],
        ) by {
            assert(line@.subrange(0, t as int)[k] == line@[k]);
        }
    }
    let second = find_tab(line, n, t + 1);
    if second != n {
        return None;
    }
    let path = line.substring_char(t + 1, n).to_owned();
    proof {
        assert(path@ =~= line@.subrange(t + 1, n as int));
    }
    Some(path)
}

/// Splits the label text into lines and parses each; the result holds, in
/// order, exactly the paths well-formed lines carry.
pub fn parse_labels(labels: &str) -> (r: Vec<String>)
    ensures
        r@.map_values(|p: String| p@) == parsed_labels(labels@),
{
    let n = labels.unicode_len();
    let mut result: Vec<String> = Vec::new();
    let mut pos: usize = 0;
    proof {
        assert(result@.map_values(|p: String| p@) =~= Seq::<Seq<char>>::empty());
    }
    while pos < n
        invariant
            0 <= pos <= n == labels@.len(),
            parsed_labels(labels@) == result@.map_values(|p: String| p@) + parsed_from(
                labels@,
                pos as int,
            ),
        decreases n - pos,
    {
        let ghost done = result@.map_values(|p: String| p@);
        let e = find_line_end(labels, n, pos);
        let line = labels.substring_char(pos, e);
        proof {
            assert(line@ =~= labels@.subrange(pos as int, e as int));
        }
        match parse_line(line) {
            Some(p) => {
                let ghost pv = p@;
                result.push(p);
                proof {
                    assert(result@.map_values(|q: String| q@) =~= done.push(pv));
                    assert(done.push(pv) + parsed_from(labels@, e + 1) =~= done + (seq![pv]
                        + parsed_from(labels@, e + 1)));
                }
            },
            None => {},
        }
        if e >= n {
            pos = n;
        } else {
            pos = e + 1;
        }
    }
    proof {
        assert(parsed_labels(labels@) =~= result@.map_values(|p: String| p@));
    }
    result
}

} // verus!
