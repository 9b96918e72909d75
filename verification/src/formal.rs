//! The formal extractor: finds fenced YAML blocks in a comment, reads a
//! submission out of each, and files the submissions by name.

use crate::entry::{merged, parsed_entry, rendered, Entry, EntryView};
use crate::pattern::{compile, regex_matches, regex_source, regex_valid};
use crate::text::{lines, lines_of, opt_text, same_text, texts};
use crate::weekly::Extractor;
use vstd::prelude::*;
use vstd::string::StringExecFns;

verus! {

/// What marks a line that opens a block: a code fence tagged `yaml` or
/// `yml`. The tag stands right behind the three backticks, or behind letters
/// out of `:space:`; a blank between them is no part of the pattern.
pub const FENCE_OPEN: &'static str = r"```[:space:]*(yaml|yml)";

/// What marks a line that closes a block: a code fence anywhere in it.
pub const FENCE_CLOSE: &'static str = r"```";

/// Whether both fence patterns compile.
pub open spec fn fences_valid() -> bool {
    regex_valid(FENCE_OPEN@) && regex_valid(FENCE_CLOSE@)
}

/// Whether a line opens a block. An opening line counts as opening even
/// though the closing pattern matches it too.
pub open spec fn opens_block(line: Seq<char>) -> bool {
    regex_matches(FENCE_OPEN@, line)
}

/// Whether a line closes a block.
pub open spec fn closes_block(line: Seq<char>) -> bool {
    regex_matches(FENCE_CLOSE@, line)
}

/// Whether some submission in the table goes by `name`.
pub open spec fn holds(entries: Seq<EntryView>, name: Seq<char>) -> bool {
    exists|i: int| 0 <= i < entries.len() && entries[i].name == name
}

/// A table of submissions is in order when no name is empty and none occurs
/// twice.
pub open spec fn table_ok(entries: Seq<EntryView>) -> bool {
    &&& forall|i: int| 0 <= i < entries.len() ==> (#[trigger] entries[i]).name.len() > 0
    &&& forall|i: int, j: int|
        0 <= i < j < entries.len() ==> (#[trigger] entries[i]).name != (#[trigger] entries[j]).name
}

/// The table after `e` was filed: merged into the submission of the same
/// name where there is one, and put last where there is none.
pub open spec fn with_entry(entries: Seq<EntryView>, e: EntryView) -> Seq<EntryView> {
    if holds(entries, e.name) {
        Seq::new(
            entries.len(),
            |i: int|
                if entries[i].name == e.name {
                    merged(entries[i], e)
                } else {
                    entries[i]
                },
        )
    } else {
        entries.push(e)
    }
}

/// The table after a block of YAML text was read: unchanged where the block
/// describes no submission.
pub open spec fn with_block(entries: Seq<EntryView>, yaml: Seq<char>) -> Seq<EntryView> {
    match parsed_entry(yaml) {
        Some(e) => with_entry(entries, e),
        None => entries,
    }
}

/// The submissions one after the other, as they stand in the digest.
pub open spec fn formal_digest(entries: Seq<EntryView>) -> Seq<char>
    decreases entries.len(),
{
    if entries.len() == 0 {
        Seq::empty()
    } else {
        formal_digest(entries.drop_last()) + rendered(entries.last())
    }
}

/// Filing a submission keeps the table in order, and takes nothing out of
/// it: every submission stays where it was, under its name, and the table
/// grows by one exactly when the name is new.
pub proof fn lemma_with_entry_ok(entries: Seq<EntryView>, e: EntryView)
    requires
        table_ok(entries),
        e.name.len() > 0,
    ensures
        table_ok(with_entry(entries, e)),
        holds(with_entry(entries, e), e.name),
        with_entry(entries, e).len() == if holds(entries, e.name) {
            entries.len()
        } else {
            entries.len() + 1
        },
        forall|i: int|
            0 <= i < entries.len() ==> (#[trigger] with_entry(entries, e)[i]).name
                == entries[i].name,
{
    let after = with_entry(entries, e);
    if holds(entries, e.name) {
        let k = choose|k: int| 0 <= k < entries.len() && entries[k].name == e.name;
        assert(after[k].name == e.name);
        assert forall|i: int| 0 <= i < after.len() implies (#[trigger] after[i]).name
            == entries[i].name by {}
    } else {
        assert(after[entries.len() as int].name == e.name);
        assert forall|i: int, j: int| 0 <= i < j < after.len() implies (#[trigger] after[i]).name
            != (#[trigger] after[j]).name by {
            if j == entries.len() {
                assert(entries[i].name != e.name);
            }
        }
    }
}

/// Where a scan through a comment stands: the block text gathered since the
/// last opening fence, and whether a block is open.
pub ghost struct FenceView {
    pub buffer: Seq<char>,
    pub in_block: bool,
}

/// The scan after one more line. An opening fence empties the buffer and
/// opens a block; a closing fence ends the block and keeps the buffer; any
/// other line joins the buffer, with a line feed, while a block is open.
pub open spec fn fed(f: FenceView, line: Seq<char>, opens: bool, closes: bool) -> FenceView {
    if opens {
        FenceView { buffer: Seq::empty(), in_block: true }
    } else if closes {
        FenceView { buffer: f.buffer, in_block: false }
    } else if f.in_block {
        FenceView { buffer: f.buffer + line + "\n"@, in_block: true }
    } else {
        f
    }
}

/// The block text that a line hands over for reading: the buffer, at a
/// closing fence.
pub open spec fn closed_block(f: FenceView, opens: bool, closes: bool) -> Option<Seq<char>> {
    if !opens && closes {
        Some(f.buffer)
    } else {
        None
    }
}

/// A scan through a comment: the fence state, the table, and whether some
/// block has described a submission.
pub ghost struct Scan {
    pub fence: FenceView,
    pub entries: Seq<EntryView>,
    pub consumed: bool,
}

/// The scan before the first line.
pub open spec fn scan_start(entries: Seq<EntryView>) -> Scan {
    Scan {
        fence: FenceView { buffer: Seq::empty(), in_block: false },
        entries: entries,
        consumed: false,
    }
}

/// The scan after one more line: the fence moves on, and a block that the
/// line closes is read and filed.
pub open spec fn scan_line(s: Scan, line: Seq<char>) -> Scan {
    let opens = opens_block(line);
    let closes = closes_block(line);
    Scan {
        fence: fed(s.fence, line, opens, closes),
        entries: match closed_block(s.fence, opens, closes) {
            Some(block) => with_block(s.entries, block),
            None => s.entries,
        },
        consumed: match closed_block(s.fence, opens, closes) {
            Some(block) => s.consumed || parsed_entry(block).is_some(),
            None => s.consumed,
        },
    }
}

/// The scan after all of `lines`.
pub open spec fn scan_lines(s: Scan, lines: Seq<Seq<char>>) -> Scan
    decreases lines.len(),
{
    if lines.len() == 0 {
        s
    } else {
        scan_line(scan_lines(s, lines.drop_last()), lines.last())
    }
}

/// A scan that ends with nothing claimed has left its table alone, and had
/// claimed nothing when it began.
pub proof fn lemma_unclaimed_scan(s: Scan, lines: Seq<Seq<char>>)
    requires
        !scan_lines(s, lines).consumed,
    ensures
        !s.consumed,
        scan_lines(s, lines).entries == s.entries,
    decreases lines.len(),
{
    if lines.len() > 0 {
        lemma_unclaimed_scan(s, lines.drop_last());
    }
}

/// What a comment does to a table: a scan through its lines. Nothing where a
/// fence pattern does not compile.
pub open spec fn extracted(entries: Seq<EntryView>, comment: Seq<char>) -> Scan {
    if fences_valid() {
        scan_lines(scan_start(entries), lines_of(comment))
    } else {
        scan_start(entries)
    }
}

/// Whether the formal extractor claims a comment: whether one of its blocks
/// describes a submission.
pub open spec fn formal_claims(comment: Seq<char>) -> bool {
    extracted(Seq::empty(), comment).consumed
}

/// A comment that the formal extractor does not claim leaves the table as
/// it was.
pub proof fn lemma_unclaimed_leaves_table(entries: Seq<EntryView>, comment: Seq<char>)
    ensures
        !extracted(entries, comment).consumed ==> extracted(entries, comment).entries == entries,
{
    if fences_valid() && !extracted(entries, comment).consumed {
        lemma_unclaimed_scan(scan_start(entries), lines_of(comment));
    }
}

/// The fence state of a scan through a comment.
pub struct Fence {
    buffer: String,
    in_block: bool,
}

impl View for Fence {
    type V = FenceView;

    closed spec fn view(&self) -> FenceView {
        FenceView { buffer: self.buffer@, in_block: self.in_block }
    }
}

impl Fence {
    /// The state before the first line: no block open, nothing gathered.
    pub fn new() -> (fence: Fence)
        ensures
            fence@ == (FenceView { buffer: Seq::empty(), in_block: false }),
    {
        Fence { buffer: String::new(), in_block: false }
    }

    /// Whether a block is open.
    pub fn in_block(&self) -> (open: bool)
        ensures
            open == self@.in_block,
    {
        self.in_block
    }

    /// The block text gathered since the last opening fence.
    pub fn buffer(&self) -> (buffer: &String)
        ensures
            buffer@ == self@.buffer,
    {
        &self.buffer
    }

    /// Takes one line, of which `opens` and `closes` say whether it is an
    /// opening and a closing fence. Hands back the block to read where the
    /// line closes one.
    pub fn feed(&mut self, line: &str, opens: bool, closes: bool) -> (block: Option<String>)
        ensures
            final(self)@ == fed(old(self)@, line@, opens, closes),
            opt_text(block) == closed_block(old(self)@, opens, closes),
    {
        if opens {
            self.buffer = String::new();
            self.in_block = true;
            None
        } else if closes {
            self.in_block = false;
            Some(self.buffer.clone())
        } else {
            if self.in_block {
                self.buffer.append(line);
                self.buffer.append("\n");
            }
            None
        }
    }
}

/// Reading the same block twice under a name that was not yet filed leaves
/// one submission under that name, merged with itself: its optional texts
/// and its contributors stand twice in a row.
pub proof fn lemma_reparse_merges_with_itself(entries: Seq<EntryView>, yaml: Seq<char>)
    requires
        table_ok(entries),
        parsed_entry(yaml) is Some,
        !holds(entries, parsed_entry(yaml)->0.name),
    ensures
        with_block(with_block(entries, yaml), yaml) == entries.push(
            merged(parsed_entry(yaml)->0, parsed_entry(yaml)->0),
        ),
{
    let e = parsed_entry(yaml)->0;
    let once = entries.push(e);
    assert(once[entries.len() as int].name == e.name);
    assert(with_entry(once, e) =~= entries.push(merged(e, e))) by {
        assert forall|i: int| 0 <= i < entries.len() implies once[i].name != e.name by {
            assert(entries[i].name != e.name);
        }
    }
}

/// Reading a block whose name is filed already merges it into the
/// submission of that name and leaves every other as it was.
pub proof fn lemma_reparse_merges_in_place(entries: Seq<EntryView>, e: EntryView, i: int)
    requires
        table_ok(entries),
        0 <= i < entries.len(),
        entries[i].name == e.name,
    ensures
        with_entry(entries, e) == entries.update(i, merged(entries[i], e)),
{
    assert(with_entry(entries, e) =~= entries.update(i, merged(entries[i], e))) by {
        assert forall|j: int| 0 <= j < entries.len() && j != i implies entries[j].name
            != e.name by {
            assert(entries[j].name != entries[i].name);
        }
    }
}

/// The views of a list of submissions.
pub open spec fn entry_views(entries: Seq<Entry>) -> Seq<EntryView> {
    Seq::new(entries.len(), |i: int| entries[i]@)
}

/// Where the submission called `name` stands in a list, if it is there.
fn find(entries: &Vec<Entry>, name: &str) -> (found: Option<usize>)
    ensures
        match found {
            Some(i) => i < entries.len() && entries[i as int]@.name == name@,
            None => !holds(entry_views(entries@), name@),
        },
{
    let mut i: usize = 0;
    while i < entries.len()
        invariant
            i <= entries.len(),
            forall|j: int| 0 <= j < i ==> entries[j]@.name != name@,
        decreases entries.len() - i,
    {
        if same_text(entries[i].name().as_str(), name) {
            return Some(i);
        }
        i += 1;
    }
    None
}

/// The submissions filed so far, each under its own name, in the order in
/// which their names were first seen.
pub struct Formal {
    entries: Vec<Entry>,
}

impl View for Formal {
    type V = Seq<EntryView>;

    closed spec fn view(&self) -> Seq<EntryView> {
        entry_views(self.entries@)
    }
}

impl Formal {
    /// No name is empty and none occurs twice.
    #[verifier::type_invariant]
    spec fn inv(&self) -> bool {
        table_ok(entry_views(self.entries@))
    }

    /// An extractor that holds nothing yet.
    pub fn new() -> (formal: Formal)
        ensures
            formal@ == Seq::<EntryView>::empty(),
    {
        let formal = Formal { entries: Vec::new() };
        assert(formal@ =~= Seq::<EntryView>::empty());
        formal
    }

    /// How many submissions are filed.
    pub fn len(&self) -> (n: usize)
        ensures
            n == self@.len(),
            table_ok(self@),
    {
        proof {
            use_type_invariant(self);
        }
        self.entries.len()
    }

    /// The submission at position `i`.
    pub fn entry(&self, i: usize) -> (entry: &Entry)
        requires
            i < self@.len(),
        ensures
            entry@ == self@[i as int],
    {
        &self.entries[i]
    }

    /// Where the submission called `name` is filed, if there is one.
    pub fn position(&self, name: &str) -> (found: Option<usize>)
        ensures
            match found {
                Some(i) => i < self@.len() && self@[i as int].name == name@,
                None => !holds(self@, name@),
            },
    {
        find(&self.entries, name)
    }

    /// Files a submission: merged into the one of the same name where there
    /// is one, put last where there is none.
    pub fn insert_or_merge(&mut self, entry: Entry)
        ensures
            table_ok(old(self)@),
            table_ok(final(self)@),
            final(self)@ == with_entry(old(self)@, entry@),
            holds(final(self)@, entry@.name),
    {
        let found = find(&self.entries, entry.name().as_str());
        proof {
            use_type_invariant(&*self);
            lemma_with_entry_ok(self@, entry@);
        }
        let mut entries: Vec<Entry> = Vec::new();
        core::mem::swap(&mut self.entries, &mut entries);
        let ghost before = entry_views(entries@);
        match found {
            Some(i) => {
                let ghost k = i as int;
                assert(holds(before, entry@.name));
                entries[i].merge(entry);
                assert(entry_views(entries@) =~= with_entry(before, entry@)) by {
                    assert forall|j: int| 0 <= j < before.len() implies entry_views(entries@)[j]
                        == with_entry(before, entry@)[j] by {
                        if j != k {
                            assert(before[j].name != before[k].name);
                        }
                    }
                }
            },
            None => {
                entries.push(entry);
                assert(entry_views(entries@) =~= with_entry(before, entry@));
            },
        }
        self.entries = entries;
    }

    /// Reads a block of YAML text and files the submission that it
    /// describes. Says whether it described one.
    pub fn parse(&mut self, yaml: &str) -> (parsed: bool)
        ensures
            table_ok(old(self)@),
            table_ok(final(self)@),
            parsed == parsed_entry(yaml@).is_some(),
            final(self)@ == with_block(old(self)@, yaml@),
    {
        proof {
            use_type_invariant(&*self);
        }
        match Entry::parse(yaml) {
            Some(entry) => {
                self.insert_or_merge(entry);
                true
            },
            None => false,
        }
    }

}

impl Extractor for Formal {
    open spec fn claims(&self, comment: Seq<char>) -> bool {
        extracted(self@, comment).consumed
    }

    open spec fn digest(&self) -> Seq<char> {
        formal_digest(self@)
    }

    /// Scans a comment for fenced YAML blocks and files the submission of
    /// each block that describes one. Claims the comment if some block did.
    fn extract(&mut self, comment: &str) -> (consumed: bool)
        ensures
            table_ok(old(self)@),
            table_ok(final(self)@),
            final(self)@ == extracted(old(self)@, comment@).entries,
    {
        proof {
            use_type_invariant(&*self);
            lemma_unclaimed_leaves_table(self@, comment@);
        }
        let begin = match compile(FENCE_OPEN) {
            Some(re) => re,
            None => {
                return false;
            },
        };
        let end = match compile(FENCE_CLOSE) {
            Some(re) => re,
            None => {
                return false;
            },
        };
        let all = lines(comment);
        let mut fence = Fence::new();
        let mut consumed = false;
        let mut i: usize = 0;
        assert(texts(all@).take(0) =~= Seq::<Seq<char>>::empty());
        while i < all.len()
            invariant
                i <= all.len(),
                regex_source(begin) == FENCE_OPEN@,
                regex_source(end) == FENCE_CLOSE@,
                (Scan { fence: fence@, entries: self@, consumed: consumed }) == scan_lines(
                    scan_start(old(self)@),
                    texts(all@).take(i as int),
                ),
            decreases all.len() - i,
        {
            proof {
                let next = texts(all@).take(i + 1);
                assert(next.drop_last() =~= texts(all@).take(i as int));
                assert(next.last() == all[i as int]@);
            }
            let line = all[i].as_str();
            let opens = begin.is_match(line);
            let closes = end.is_match(line);
            match fence.feed(line, opens, closes) {
                Some(block) => {
                    if self.parse(block.as_str()) {
                        consumed = true;
                    }
                },
                None => {},
            }
            i += 1;
        }
        assert(texts(all@).take(i as int) =~= texts(all@));
        proof {
            use_type_invariant(&*self);
        }
        consumed
    }

    /// The filed submissions as they stand in the digest, in the order in
    /// which their names were first seen.
    fn render(&self) -> (out: String) {
        let mut out = String::new();
        let mut i: usize = 0;
        assert(self@.take(0) =~= Seq::<EntryView>::empty());
        while i < self.entries.len()
            invariant
                i <= self.entries.len(),
                out@ == formal_digest(self@.take(i as int)),
            decreases self.entries.len() - i,
        {
            proof {
                let next = self@.take(i + 1);
                assert(next.drop_last() =~= self@.take(i as int));
                assert(next.last() == self.entries[i as int]@);
            }
            let piece = self.entries[i].render();
            out.append(piece.as_str());
            i += 1;
        }
        assert(self@.take(i as int) =~= self@);
        out
    }
}

} // verus!
