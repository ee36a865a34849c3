//! The lines of a text, the non-blank ones numbered (a multi-document text
//! holds one document per line), and checking written text before it is
//! saved: the text must read back as YAML, a multi-document text line by
//! line.

use vstd::prelude::*;
use crate::editor::scalar::{trim, trim_text};
use crate::text::{chars_of, push_char, str_to_string};

verus! {

/// Whether serde_yaml reads `text` as a YAML value.
pub uninterp spec fn serde_yaml_accepts(text: Seq<char>) -> bool;

/// Whether serde_yaml reads `text` as a YAML value.
///
/// Trusted: calls `serde_yaml::from_str::<serde_yaml::Value>` and tells
/// whether it succeeded. The result is named `serde_yaml_accepts`.
#[verifier::external_body]
fn yaml_text_parses(text: &str) -> (r: bool)
    ensures
        r == serde_yaml_accepts(text@),
{
    serde_yaml::from_str::<serde_yaml::Value>(text).is_ok()
}

/// A finished line without the `\r` of a `\r\n` ending.
pub open spec fn strip_cr(l: Seq<char>) -> Seq<char> {
    if l.len() > 0 && l.last() == '\r' { l.drop_last() } else { l }
}

/// After the first `i` characters of `s`: the lines ended by a `\n`, and
/// the characters of the line not ended yet.
pub open spec fn lines_scan(s: Seq<char>, i: nat) -> (Seq<Seq<char>>, Seq<char>)
    decreases i,
{
    if i == 0 || i > s.len() {
        (Seq::empty(), Seq::empty())
    } else {
        let (done, cur) = lines_scan(s, (i - 1) as nat);
        if s[i - 1] == '\n' {
            (done.push(strip_cr(cur)), Seq::empty())
        } else {
            (done, cur.push(s[i - 1]))
        }
    }
}

/// The lines of `s` as `str::lines` gives them: split at `\n`, a `\r`
/// before the `\n` dropped, no empty line after a final `\n`.
pub open spec fn text_lines(s: Seq<char>) -> Seq<Seq<char>> {
    let (done, cur) = lines_scan(s, s.len());
    if cur.len() > 0 { done.push(cur) } else { done }
}

/// The index of the first of the first `n` of `lines` that serde_yaml does
/// not read.
pub open spec fn first_rejected_in(lines: Seq<Seq<char>>, n: nat) -> Option<int>
    decreases n,
{
    if n == 0 || n > lines.len() {
        None
    } else {
        match first_rejected_in(lines, (n - 1) as nat) {
            Some(i) => Some(i),
            None => if serde_yaml_accepts(lines[n - 1]) { None } else { Some(n - 1) },
        }
    }
}

/// The index of the first of `lines` that serde_yaml does not read.
pub open spec fn first_rejected(lines: Seq<Seq<char>>) -> Option<int> {
    first_rejected_in(lines, lines.len())
}

proof fn lemma_first_rejected_stays(lines: Seq<Seq<char>>, m: nat, n: nat)
    requires
        m <= n <= lines.len(),
        first_rejected_in(lines, m) is Some,
    ensures
        first_rejected_in(lines, n) == first_rejected_in(lines, m),
    decreases n - m,
{
    if m < n {
        lemma_first_rejected_stays(lines, m, (n - 1) as nat);
    }
}

/// The views of some strings.
pub open spec fn strings_view(v: Seq<String>) -> Seq<Seq<char>> {
    v.map_values(|l: String| l@)
}

/// The lines of `text` (see `text_lines`).
pub fn lines_of(text: &str) -> (r: Vec<String>)
    ensures
        strings_view(r@) == text_lines(text@),
{
    let c = chars_of(text);
    let ghost s = text@;
    let mut out: Vec<String> = Vec::new();
    let mut line = String::new();
    let mut i: usize = 0;
    while i < c.len()
        invariant
            c@ == s,
            i <= s.len(),
            strings_view(out@) == lines_scan(s, i as nat).0,
            line@ == lines_scan(s, i as nat).1,
        decreases s.len() - i,
    {
        let ghost before = lines_scan(s, i as nat);
        if c[i] == '\n' {
            let mut finished = String::new();
            let lc = chars_of(line.as_str());
            let mut k: usize = 0;
            let end: usize = if lc.len() > 0 && lc[lc.len() - 1] == '\r' { lc.len() - 1 } else { lc.len() };
            while k < end
                invariant
                    end <= lc@.len(),
                    k <= end,
                    finished@ == lc@.take(k as int),
                decreases end - k,
            {
                push_char(&mut finished, lc[k]);
                assert(finished@ =~= lc@.take(k + 1));
                k = k + 1;
            }
            assert(finished@ =~= strip_cr(before.1));
            out.push(finished);
            assert(strings_view(out@) =~= before.0.push(strip_cr(before.1)));
            line = String::new();
        } else {
            push_char(&mut line, c[i]);
        }
        i = i + 1;
    }
    if !line.as_str().is_empty() {
        let ghost done = strings_view(out@);
        out.push(line);
        assert(strings_view(out@) =~= done.push(lines_scan(s, s.len()).1));
    }
    out
}

/// The non-blank lines among the first `n` of `lines`, each with its
/// number (from 1).
pub open spec fn nonblank_lines(lines: Seq<Seq<char>>, n: nat) -> Seq<(nat, Seq<char>)>
    decreases n,
{
    if n == 0 || n > lines.len() {
        Seq::empty()
    } else {
        let prev = nonblank_lines(lines, (n - 1) as nat);
        if trim(lines[n - 1]).len() == 0 {
            prev
        } else {
            prev.push((n, lines[n - 1]))
        }
    }
}

/// The view of numbered lines.
pub open spec fn numbered_view(v: Seq<(usize, String)>) -> Seq<(nat, Seq<char>)> {
    v.map_values(|p: (usize, String)| (p.0 as nat, p.1@))
}

/// The documents of a text holding one per line: its non-blank lines, with
/// their numbers (from 1).
pub fn document_lines(content: &str) -> (r: Vec<(usize, String)>)
    ensures
        numbered_view(r@) == nonblank_lines(text_lines(content@), text_lines(content@).len()),
{
    let lines = lines_of(content);
    let ghost l = text_lines(content@);
    let mut out: Vec<(usize, String)> = Vec::new();
    let mut j: usize = 0;
    while j < lines.len()
        invariant
            strings_view(lines@) == l,
            j <= lines@.len(),
            numbered_view(out@) == nonblank_lines(l, j as nat),
        decreases lines@.len() - j,
    {
        assert(l[j as int] == lines@[j as int]@);
        let t = trim_text(lines[j].as_str());
        if !t.as_str().is_empty() {
            let ghost before = numbered_view(out@);
            out.push((j + 1, str_to_string(lines[j].as_str())));
            assert(numbered_view(out@) =~= before.push(((j + 1) as nat, l[j as int])));
        }
        j = j + 1;
    }
    out
}

/// Whether text about to be saved reads back: a multi-document text line
/// by line, failing with the number (from 1) of the first line that does
/// not; any other text as a whole, failing with none.
pub fn check_saved_text(text: &str, multi: bool) -> (r: Result<(), Option<usize>>)
    ensures
        !multi ==> (r is Ok <==> serde_yaml_accepts(text@)) && (r is Err ==> r == Err::<(), Option<usize>>(None)),
        multi ==> match first_rejected(text_lines(text@)) {
            None => r is Ok,
            Some(i) => r matches Err(Some(x)) && x == i + 1,
        },
{
    if !multi {
        return if yaml_text_parses(text) { Ok(()) } else { Err(None) };
    }
    let lines = lines_of(text);
    let ghost l = text_lines(text@);
    let mut j: usize = 0;
    while j < lines.len()
        invariant
            multi,
            l == text_lines(text@),
            strings_view(lines@) == l,
            j <= lines@.len(),
            first_rejected_in(l, j as nat) is None,
        decreases lines@.len() - j,
    {
        assert(l[j as int] == lines@[j as int]@);
        if !yaml_text_parses(lines[j].as_str()) {
            proof {
                assert(!serde_yaml_accepts(l[j as int]));
                lemma_first_rejected_stays(l, (j + 1) as nat, l.len());
            }
            return Err(Some(j + 1));
        }
        j = j + 1;
    }
    Ok(())
}

} // verus!
