//! Character-level helpers: the text of a string as a sequence of `char`s,
//! cutting it into lines and into space-separated words.

use vstd::prelude::*;

verus! {

/// The texts held by a sequence of strings.
pub open spec fn texts(v: Seq<String>) -> Seq<Seq<char>> {
    Seq::new(v.len(), |i: int| v[i]@)
}

/// The text of an optional string.
pub open spec fn opt_text(s: Option<String>) -> Option<Seq<char>> {
    match s {
        Some(t) => Some(t@),
        None => None,
    }
}

/// The texts of a list whose items may be no strings.
pub open spec fn opt_texts(v: Seq<Option<String>>) -> Seq<Option<Seq<char>>> {
    Seq::new(v.len(), |i: int| opt_text(v[i]))
}

/// The texts of the items that are strings, in order.
pub open spec fn present_texts(items: Seq<Option<Seq<char>>>) -> Seq<Seq<char>>
    decreases items.len(),
{
    if items.len() == 0 {
        Seq::empty()
    } else {
        match items.last() {
            Some(t) => present_texts(items.drop_last()).push(t),
            None => present_texts(items.drop_last()),
        }
    }
}

/// The characters of `s`, in order.
pub fn chars_of(s: &str) -> (out: Vec<char>)
    ensures
        out@ == s@,
{
    let mut out: Vec<char> = Vec::new();
    for c in it: s.chars()
        invariant
            out@ == it.seq().take(it.index()),
            it.seq() == s@,
    {
        out.push(c);
    }
    out
}

/// Where `c` first occurs in `s`; the length of `s` where it does not occur.
pub open spec fn first_at(s: Seq<char>, c: char) -> nat
    decreases s.len(),
{
    if s.len() == 0 || s[0] == c {
        0
    } else {
        1 + first_at(s.drop_first(), c)
    }
}

/// `first_at` is the one position that holds `c` with no `c` before it.
pub proof fn lemma_first_at(s: Seq<char>, c: char, k: int)
    requires
        0 <= k <= s.len(),
        forall|j: int| 0 <= j < k ==> s[j] != c,
        k < s.len() ==> s[k] == c,
    ensures
        first_at(s, c) == k,
    decreases s.len(),
{
    if k > 0 {
        let t = s.drop_first();
        assert forall|j: int| 0 <= j < k - 1 implies t[j] != c by {
            assert(t[j] == s[j + 1]);
        }
        lemma_first_at(t, c, k - 1);
    }
}

/// The pieces of `s` between occurrences of `c`: one more piece than there
/// are occurrences, so the empty text has the one empty piece.
pub open spec fn split_on(s: Seq<char>, c: char) -> Seq<Seq<char>>
    decreases s.len(),
{
    let k = first_at(s, c) as int;
    if k >= s.len() {
        seq![s]
    } else {
        seq![s.take(k)] + split_on(s.skip(k + 1), c)
    }
}

/// A line without the carriage return that stood before its line feed.
pub open spec fn strip_cr(line: Seq<char>) -> Seq<char> {
    if line.len() > 0 && line.last() == '\r' {
        line.drop_last()
    } else {
        line
    }
}

/// The lines of `s`. A line ends at a line feed, or at a carriage return
/// directly followed by one; neither belongs to the line. The end of the text
/// ends the last line as it stands, and opens no empty line after a final
/// line feed.
pub open spec fn lines_of(s: Seq<char>) -> Seq<Seq<char>>
    decreases s.len(),
{
    let k = first_at(s, '\n') as int;
    if s.len() == 0 {
        Seq::empty()
    } else if k >= s.len() {
        seq![s]
    } else {
        seq![strip_cr(s.take(k))] + lines_of(s.skip(k + 1))
    }
}

/// Whether two strings hold the same text.
pub fn same_text(a: &str, b: &str) -> (same: bool)
    ensures
        same == (a@ == b@),
{
    let x = chars_of(a);
    let y = chars_of(b);
    if x.len() != y.len() {
        return false;
    }
    let mut i: usize = 0;
    while i < x.len()
        invariant
            i <= x.len(),
            x.len() == y.len(),
            x@ == a@,
            y@ == b@,
            forall|j: int| 0 <= j < i ==> x[j] == y[j],
        decreases x.len() - i,
    {
        if x[i] != y[i] {
            return false;
        }
        i += 1;
    }
    assert(x@ =~= y@);
    true
}

/// Cuts `s` at every occurrence of `c`.
pub fn split(s: &str, c: char) -> (out: Vec<String>)
    ensures
        texts(out@) == split_on(s@, c),
{
    let cs = chars_of(s);
    let n = cs.len();
    let mut out: Vec<String> = Vec::new();
    let mut start: usize = 0;
    let mut i: usize = 0;
    proof {
        assert(s@.skip(0) == s@);
        assert(texts(out@) + split_on(s@, c) == split_on(s@, c));
    }
    while i < n
        invariant
            cs@ == s@,
            n == cs.len(),
            start <= i <= n,
            forall|j: int| start <= j < i ==> cs[j] != c,
            split_on(s@, c) == texts(out@) + split_on(s@.skip(start as int), c),
        decreases n - i,
    {
        if cs[i] == c {
            let piece = s.substring_char(start, i).to_owned();
            proof {
                let rest = s@.skip(start as int);
                let k = i - start;
                assert forall|j: int| 0 <= j < k implies rest[j] != c by {
                    assert(rest[j] == cs[start + j]);
                }
                lemma_first_at(rest, c, k);
                assert(rest.take(k) == s@.subrange(start as int, i as int));
                assert(rest.skip(k + 1) == s@.skip(i + 1));
                assert(texts(out@.push(piece)) == texts(out@) + seq![piece@]);
            }
            out.push(piece);
            start = i + 1;
        }
        i += 1;
    }
    let piece = s.substring_char(start, n).to_owned();
    proof {
        let rest = s@.skip(start as int);
        assert forall|j: int| 0 <= j < n - start implies rest[j] != c by {
            assert(rest[j] == cs[start + j]);
        }
        lemma_first_at(rest, c, n - start);
        assert(rest == s@.subrange(start as int, n as int));
        assert(texts(out@.push(piece)) == texts(out@) + seq![piece@]);
    }
    out.push(piece);
    out
}

/// Cuts `s` into its lines.
pub fn lines(s: &str) -> (out: Vec<String>)
    ensures
        texts(out@) == lines_of(s@),
{
    let cs = chars_of(s);
    let n = cs.len();
    let mut out: Vec<String> = Vec::new();
    let mut start: usize = 0;
    let mut i: usize = 0;
    proof {
        assert(s@.skip(0) == s@);
        assert(texts(out@) + lines_of(s@) == lines_of(s@));
    }
    while i < n
        invariant
            cs@ == s@,
            n == cs.len(),
            start <= i <= n,
            forall|j: int| start <= j < i ==> cs[j] != '\n',
            lines_of(s@) == texts(out@) + lines_of(s@.skip(start as int)),
        decreases n - i,
    {
        if cs[i] == '\n' {
            let end = if i > start && cs[i - 1] == '\r' {
                i - 1
            } else {
                i
            };
            let piece = s.substring_char(start, end).to_owned();
            proof {
                let rest = s@.skip(start as int);
                let k = i - start;
                assert forall|j: int| 0 <= j < k implies rest[j] != '\n' by {
                    assert(rest[j] == cs[start + j]);
                }
                lemma_first_at(rest, '\n', k);
                assert(rest.take(k) == s@.subrange(start as int, i as int));
                assert(strip_cr(rest.take(k)) == piece@);
                assert(rest.skip(k + 1) == s@.skip(i + 1));
                assert(texts(out@.push(piece)) == texts(out@) + seq![piece@]);
            }
            out.push(piece);
            start = i + 1;
        }
        i += 1;
    }
    proof {
        let rest = s@.skip(start as int);
        assert forall|j: int| 0 <= j < n - start implies rest[j] != '\n' by {
            assert(rest[j] == cs[start + j]);
        }
        lemma_first_at(rest, '\n', n - start);
    }
    if start < n {
        let piece = s.substring_char(start, n).to_owned();
        proof {
            assert(s@.skip(start as int) == s@.subrange(start as int, n as int));
            assert(texts(out@.push(piece)) == texts(out@) + seq![piece@]);
        }
        out.push(piece);
    } else {
        assert(texts(out@) + Seq::<Seq<char>>::empty() == texts(out@));
    }
    out
}

/// The items that are strings, in order.
pub fn present_strings(items: &Vec<Option<String>>) -> (out: Vec<String>)
    ensures
        texts(out@) == present_texts(opt_texts(items@)),
{
    let mut out: Vec<String> = Vec::new();
    let mut i: usize = 0;
    assert(opt_texts(items@).take(0) =~= Seq::empty());
    assert(texts(out@) =~= Seq::empty());
    while i < items.len()
        invariant
            i <= items.len(),
            texts(out@) == present_texts(opt_texts(items@).take(i as int)),
        decreases items.len() - i,
    {
        proof {
            let next = opt_texts(items@).take(i + 1);
            assert(next.drop_last() =~= opt_texts(items@).take(i as int));
            assert(next.last() == opt_text(items[i as int]));
        }
        match &items[i] {
            Some(s) => {
                let ghost before = out@;
                out.push(s.clone());
                assert(texts(out@) =~= texts(before).push(s@));
            },
            None => {},
        }
        i += 1;
    }
    assert(opt_texts(items@).take(i as int) =~= opt_texts(items@));
    out
}

} // verus!
