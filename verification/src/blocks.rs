//! Reassembly of `VEVENT` blocks from the lines of a calendar export.
//!
//! A block opens at a line whose trimmed text is exactly
//! `BEGIN:VEVENT` and closes at a line whose trimmed text is exactly
//! `END:VEVENT`; its interior lines are joined with `\n`, with the
//! begin and end lines included.  Lines outside any block are ignored.

use vstd::prelude::*;

verus! {

use crate::grammar::to_char_vec;
use vstd::string::StrSliceExecFns;
use vstd::string::StringExecFns;

/// A whitespace character, for line trimming.
pub open spec fn is_ws_char(c: char) -> bool {
    c == ' ' || c == '\t' || c == '\r' || c == '\n'
}

/// `s` with its leading whitespace removed.
pub open spec fn trim_front(s: Seq<char>) -> Seq<char>
    decreases s.len(),
{
    if s.len() > 0 && is_ws_char(s[0]) {
        trim_front(s.drop_first())
    } else {
        s
    }
}

/// `s` with its trailing whitespace removed.
pub open spec fn trim_back(s: Seq<char>) -> Seq<char>
    decreases s.len(),
{
    if s.len() > 0 && is_ws_char(s.last()) {
        trim_back(s.drop_last())
    } else {
        s
    }
}

/// `s` with whitespace removed from both ends.
pub open spec fn trimmed(s: Seq<char>) -> Seq<char> {
    trim_back(trim_front(s))
}

proof fn lemma_trim_front_subrange(s: Seq<char>, a: int)
    requires
        0 <= a <= s.len(),
        forall|j: int| 0 <= j < a ==> is_ws_char(#[trigger] s[j]),
        a < s.len() ==> !is_ws_char(s[a]),
    ensures
        trim_front(s) == s.subrange(a, s.len() as int),
    decreases a,
{
    if a == 0 {
        assert(s.subrange(0, s.len() as int) =~= s);
    } else {
        let t = s.drop_first();
        assert forall|j: int| 0 <= j < a - 1 implies is_ws_char(#[trigger] t[j]) by {
            assert(t[j] == s[j + 1]);
        }
        lemma_trim_front_subrange(t, a - 1);
        assert(t.subrange(a - 1, t.len() as int) =~= s.subrange(a, s.len() as int));
    }
}

proof fn lemma_trim_back_subrange(s: Seq<char>, b: int)
    requires
        0 <= b <= s.len(),
        forall|j: int| b <= j < s.len() ==> is_ws_char(#[trigger] s[j]),
        b > 0 ==> !is_ws_char(s[b - 1]),
    ensures
        trim_back(s) == s.subrange(0, b),
    decreases s.len() - b,
{
    if b == s.len() {
        assert(s.subrange(0, s.len() as int) =~= s);
    } else {
        let t = s.drop_last();
        assert forall|j: int| b <= j < t.len() implies is_ws_char(#[trigger] t[j]) by {
            assert(t[j] == s[j]);
        }
        lemma_trim_back_subrange(t, b);
        assert(t.subrange(0, b) =~= s.subrange(0, b));
    }
}

fn ws_char(c: char) -> (b: bool)
    ensures
        b == is_ws_char(c),
{
    c == ' ' || c == '\t' || c == '\r' || c == '\n'
}

/// Checks whether `line`, with whitespace trimmed from both ends,
/// equals `lit`.
pub fn line_trimmed_is(line: &str, lit: &str) -> (r: bool)
    ensures
        r == (trimmed(line@) == lit@),
{
    let s = to_char_vec(line);
    let n = s.len();
    let mut a: usize = 0;
    while a < n && ws_char(s[a])
        invariant
            a <= n,
            n == s@.len(),
            forall|j: int| 0 <= j < a ==> is_ws_char(#[trigger] s@[j]),
        decreases n - a,
    {
        a = a + 1;
    }
    let mut b: usize = n;
    while b > a && ws_char(s[b - 1])
        invariant
            a <= b <= n,
            n == s@.len(),
            forall|j: int| b <= j < n ==> is_ws_char(#[trigger] s@[j]),
        decreases b,
    {
        b = b - 1;
    }
    proof {
        lemma_trim_front_subrange(s@, a as int);
        let u = s@.subrange(a as int, n as int);
        assert forall|j: int| b - a <= j < u.len() implies is_ws_char(#[trigger] u[j]) by {
            assert(u[j] == s@[a + j]);
        }
        assert(b > a ==> !is_ws_char(u[b - a - 1])) by {
            if b > a {
                assert(u[b - a - 1] == s@[b - 1]);
            }
        }
        lemma_trim_back_subrange(u, b - a);
        assert(u.subrange(0, b - a) =~= s@.subrange(a as int, b as int));
        assert(trimmed(line@) == s@.subrange(a as int, b as int));
    }
    let m = lit.unicode_len();
    if m != b - a {
        return false;
    }
    let mut j: usize = 0;
    while j < m
        invariant
            j <= m,
            a + m == b,
            b <= s@.len(),
            m == lit@.len(),
            trimmed(line@) == s@.subrange(a as int, b as int),
            forall|i: int| 0 <= i < j ==> s@[a + i] == lit@[i],
        decreases m - j,
    {
        if s[a + j] != lit.get_char(j) {
            proof {
                assert(s@.subrange(a as int, b as int)[j as int] == s@[a + j]);
            }
            return false;
        }
        j = j + 1;
    }
    proof {
        assert(s@.subrange(a as int, b as int) =~= lit@);
    }
    true
}

/// One step of the block scan: how one line changes the collected
/// blocks, the block text under assembly, and the inside-a-block flag.
pub open spec fn scan_step(
    st: (Seq<Seq<char>>, Seq<char>, bool),
    line: Seq<char>,
) -> (Seq<Seq<char>>, Seq<char>, bool) {
    if trimmed(line) == "BEGIN:VEVENT"@ {
        (st.0, line + "\n"@, true)
    } else if trimmed(line) == "END:VEVENT"@ {
        (st.0.push(st.1 + line), st.1 + line, false)
    } else if st.2 {
        (st.0, st.1 + line + "\n"@, true)
    } else {
        st
    }
}

/// The scan state after reading all of `lines`, starting outside any
/// block with an empty buffer.
pub open spec fn scan_lines(lines: Seq<Seq<char>>) -> (Seq<Seq<char>>, Seq<char>, bool)
    decreases lines.len(),
{
    if lines.len() == 0 {
        (Seq::empty(), Seq::empty(), false)
    } else {
        scan_step(scan_lines(lines.drop_last()), lines.last())
    }
}

/// The blocks the scan of `lines` collects, in source order.
pub open spec fn scan_blocks(lines: Seq<Seq<char>>) -> Seq<Seq<char>> {
    scan_lines(lines).0
}

/// Reassembles the `VEVENT` blocks of a calendar export from its
/// lines (each line given without its terminator): every block runs
/// from a `BEGIN:VEVENT` line to an `END:VEVENT` line, its lines
/// joined with `\n`, and lines outside any block are dropped.
pub fn assemble_blocks(lines: &Vec<String>) -> (r: Vec<String>)
    ensures
        r@.map_values(|b: String| b@) == scan_blocks(lines@.map_values(|l: String| l@)),
{
    let ghost vs = lines@.map_values(|l: String| l@);
    let mut blocks: Vec<String> = Vec::new();
    let mut cur: String = String::new();
    let mut inside: bool = false;
    let mut i: usize = 0;
    while i < lines.len()
        invariant
            i <= lines@.len(),
            vs == lines@.map_values(|l: String| l@),
            vs.len() == lines@.len(),
            blocks@.map_values(|b: String| b@) =~= scan_lines(vs.take(i as int)).0,
            cur@ == scan_lines(vs.take(i as int)).1,
            inside == scan_lines(vs.take(i as int)).2,
        decreases lines@.len() - i,
    {
        proof {
            assert(vs.take(i + 1).drop_last() =~= vs.take(i as int));
            assert(vs.take(i + 1).last() == vs[i as int]);
        }
        let line = &lines[i];
        if line_trimmed_is(line.as_str(), "BEGIN:VEVENT") {
            inside = true;
            cur = line.as_str().to_owned();
            cur.append("\n");
        } else if line_trimmed_is(line.as_str(), "END:VEVENT") {
            cur.append(line.as_str());
            inside = false;
            blocks.push(cur.clone());
            proof {
                assert(blocks@.map_values(|b: String| b@) =~= scan_lines(vs.take(i + 1)).0);
            }
        } else if inside {
            cur.append(line.as_str());
            cur.append("\n");
        }
        i = i + 1;
    }
    proof {
        assert(vs.take(vs.len() as int) =~= vs);
    }
    blocks
}

} // verus!
