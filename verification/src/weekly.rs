//! The digest assembler: offers every comment to a chain of extractors, the
//! first of which to claim it keeps it, and renders what they have gathered
//! under a fixed header.

use crate::casual::{casual_digest, has_link, Casual};
use crate::entry::EntryView;
use crate::formal::{extracted, formal_digest, lemma_unclaimed_leaves_table, Formal};
use vstd::prelude::*;
use vstd::string::StringExecFns;

verus! {

/// The front matter that every digest begins with.
pub const HEADER: &'static str =
    "---\nlayout: post\ntitle: Weekly\ncategory: Weekly\nauthor: 东岳\n\n---\n\n";

/// What every extractor of the chain can do: claim a comment, and render
/// what it has gathered. A comment that it does not claim leaves no trace.
pub trait Extractor {
    /// Whether the extractor claims a comment.
    spec fn claims(&self, comment: Seq<char>) -> bool;

    /// What the extractor has gathered, as it stands in the digest.
    spec fn digest(&self) -> Seq<char>;

    /// Offers a comment, and says whether the extractor has claimed it.
    fn extract(&mut self, comment: &str) -> (consumed: bool)
        ensures
            consumed == old(self).claims(comment@),
            !consumed ==> final(self).digest() == old(self).digest(),
    ;

    /// What the extractor has gathered, as it stands in the digest.
    fn render(&self) -> (out: String)
        ensures
            out@ == self.digest(),
    ;
}

/// What one extractor of the chain holds.
pub ghost enum StageView {
    Formal(Seq<EntryView>),
    Casual(Seq<Seq<char>>),
}

/// Whether an extractor claims a comment.
pub open spec fn stage_claims(stage: StageView, comment: Seq<char>) -> bool {
    match stage {
        StageView::Formal(table) => extracted(table, comment).consumed,
        StageView::Casual(_) => has_link(comment),
    }
}

/// What an extractor holds after a comment was offered to it.
pub open spec fn stage_after(stage: StageView, comment: Seq<char>) -> StageView {
    match stage {
        StageView::Formal(table) => StageView::Formal(extracted(table, comment).entries),
        StageView::Casual(kept) => StageView::Casual(
            if has_link(comment) {
                kept.push(comment)
            } else {
                kept
            },
        ),
    }
}

/// What an extractor has gathered, as it stands in the digest.
pub open spec fn stage_digest(stage: StageView) -> Seq<char> {
    match stage {
        StageView::Formal(table) => formal_digest(table),
        StageView::Casual(kept) => casual_digest(kept),
    }
}

/// An extractor that does not claim a comment holds afterwards what it held
/// before.
pub proof fn lemma_unclaimed_stage(stage: StageView, comment: Seq<char>)
    ensures
        !stage_claims(stage, comment) ==> stage_after(stage, comment) == stage,
{
    match stage {
        StageView::Formal(table) => {
            lemma_unclaimed_leaves_table(table, comment);
        },
        StageView::Casual(_) => {},
    }
}

/// The place of the first extractor that claims a comment; the length of the
/// chain where none does.
pub open spec fn first_claimant(chain: Seq<StageView>, comment: Seq<char>) -> nat
    decreases chain.len(),
{
    if chain.len() == 0 || stage_claims(chain[0], comment) {
        0
    } else {
        1 + first_claimant(chain.drop_first(), comment)
    }
}

/// `first_claimant` is the one place that claims with no claim before it.
pub proof fn lemma_first_claimant(chain: Seq<StageView>, comment: Seq<char>, k: int)
    requires
        0 <= k <= chain.len(),
        forall|j: int| 0 <= j < k ==> !stage_claims(#[trigger] chain[j], comment),
        k < chain.len() ==> stage_claims(chain[k], comment),
    ensures
        first_claimant(chain, comment) == k,
    decreases chain.len(),
{
    if k > 0 {
        let rest = chain.drop_first();
        assert(!stage_claims(chain[0], comment));
        assert forall|j: int| 0 <= j < k - 1 implies !stage_claims(#[trigger] rest[j], comment) by {
            assert(rest[j] == chain[j + 1]);
        }
        lemma_first_claimant(rest, comment, k - 1);
    }
}

/// The chain after a comment was dispatched: the first extractor that claims
/// it has taken it in, and every other holds what it held. A comment that
/// none claims is dropped.
pub open spec fn dispatched(chain: Seq<StageView>, comment: Seq<char>) -> Seq<StageView> {
    let k = first_claimant(chain, comment) as int;
    if k < chain.len() {
        chain.update(k, stage_after(chain[k], comment))
    } else {
        chain
    }
}

/// A comment that the first extractor of a chain claims reaches no other:
/// every extractor behind it holds what it held.
pub proof fn lemma_first_claim_is_exclusive(chain: Seq<StageView>, comment: Seq<char>)
    requires
        chain.len() > 0,
        stage_claims(chain[0], comment),
    ensures
        dispatched(chain, comment) == chain.update(0, stage_after(chain[0], comment)),
        forall|i: int| 1 <= i < chain.len() ==> dispatched(chain, comment)[i] == chain[i],
{
}

/// A comment that the formal extractor claims never reaches the casual one
/// behind it, whether or not it mentions a link.
pub proof fn lemma_formal_claim_excludes_casual(
    table: Seq<EntryView>,
    kept: Seq<Seq<char>>,
    comment: Seq<char>,
)
    requires
        extracted(table, comment).consumed,
    ensures
        dispatched(seq![StageView::Formal(table), StageView::Casual(kept)], comment) == seq![
            StageView::Formal(extracted(table, comment).entries),
            StageView::Casual(kept),
        ],
{
    let chain = seq![StageView::Formal(table), StageView::Casual(kept)];
    lemma_first_claimant(chain, comment, 0);
    assert(dispatched(chain, comment) =~= seq![
        StageView::Formal(extracted(table, comment).entries),
        StageView::Casual(kept),
    ]);
}

/// A comment that the formal extractor does not claim falls through to the
/// casual one, which keeps it if it mentions a link; the table stays as it
/// was.
pub proof fn lemma_unclaimed_falls_through(
    table: Seq<EntryView>,
    kept: Seq<Seq<char>>,
    comment: Seq<char>,
)
    requires
        !extracted(table, comment).consumed,
        has_link(comment),
    ensures
        dispatched(seq![StageView::Formal(table), StageView::Casual(kept)], comment) == seq![
            StageView::Formal(table),
            StageView::Casual(kept.push(comment)),
        ],
{
    let chain = seq![StageView::Formal(table), StageView::Casual(kept)];
    lemma_first_claimant(chain, comment, 1);
    assert(dispatched(chain, comment) =~= seq![
        StageView::Formal(table),
        StageView::Casual(kept.push(comment)),
    ]);
}

/// A comment that no extractor claims is dropped: the chain holds what it
/// held.
pub proof fn lemma_unclaimed_is_dropped(chain: Seq<StageView>, comment: Seq<char>)
    requires
        forall|i: int| 0 <= i < chain.len() ==> !stage_claims(#[trigger] chain[i], comment),
    ensures
        dispatched(chain, comment) == chain,
{
    lemma_first_claimant(chain, comment, chain.len() as int);
}

/// What the extractors have gathered, one after the other.
pub open spec fn chain_digest(chain: Seq<StageView>) -> Seq<char>
    decreases chain.len(),
{
    if chain.len() == 0 {
        Seq::empty()
    } else {
        chain_digest(chain.drop_last()) + stage_digest(chain.last())
    }
}

/// The whole digest: the header, then what the extractors have gathered.
pub open spec fn document(chain: Seq<StageView>) -> Seq<char> {
    HEADER@ + chain_digest(chain)
}

/// An extractor as the chain holds it: one of the two kinds.
pub enum Registered {
    Formal(Formal),
    Casual(Casual),
}

impl View for Registered {
    type V = StageView;

    open spec fn view(&self) -> StageView {
        match self {
            Registered::Formal(formal) => StageView::Formal(formal@),
            Registered::Casual(casual) => StageView::Casual(casual@),
        }
    }
}

impl Extractor for Registered {
    open spec fn claims(&self, comment: Seq<char>) -> bool {
        stage_claims(self@, comment)
    }

    open spec fn digest(&self) -> Seq<char> {
        stage_digest(self@)
    }

    fn extract(&mut self, comment: &str) -> (consumed: bool)
        ensures
            final(self)@ == stage_after(old(self)@, comment@),
    {
        proof {
            lemma_unclaimed_stage(self@, comment@);
        }
        match self {
            Registered::Formal(formal) => formal.extract(comment),
            Registered::Casual(casual) => casual.extract(comment),
        }
    }

    fn render(&self) -> (out: String) {
        match self {
            Registered::Formal(formal) => formal.render(),
            Registered::Casual(casual) => casual.render(),
        }
    }
}

/// The views of a list of extractors.
pub open spec fn stage_views(extractors: Seq<Registered>) -> Seq<StageView> {
    Seq::new(extractors.len(), |i: int| extractors[i]@)
}

/// A chain of extractors in the making.
pub struct WeeklyBuilder {
    extractors: Vec<Registered>,
}

/// The digest assembler: a chain of extractors, in the order in which they
/// are offered each comment.
pub struct Weekly {
    extractors: Vec<Registered>,
}

impl View for WeeklyBuilder {
    type V = Seq<StageView>;

    closed spec fn view(&self) -> Seq<StageView> {
        stage_views(self.extractors@)
    }
}

impl View for Weekly {
    type V = Seq<StageView>;

    closed spec fn view(&self) -> Seq<StageView> {
        stage_views(self.extractors@)
    }
}

impl WeeklyBuilder {
    /// A builder with no extractor yet.
    pub fn new() -> (builder: WeeklyBuilder)
        ensures
            builder@ == Seq::<StageView>::empty(),
    {
        let builder = WeeklyBuilder { extractors: Vec::new() };
        assert(builder@ =~= Seq::<StageView>::empty());
        builder
    }

    /// Puts `extractor` at the end of the chain.
    pub fn add_extractor(self, extractor: Registered) -> (builder: WeeklyBuilder)
        ensures
            builder@ == self@.push(extractor@),
    {
        let mut builder = self;
        builder.extractors.push(extractor);
        assert(builder@ =~= self@.push(extractor@));
        builder
    }

    /// The assembler over the chain as it stands.
    pub fn build(self) -> (weekly: Weekly)
        ensures
            weekly@ == self@,
    {
        Weekly { extractors: self.extractors }
    }
}

impl Weekly {
    /// How many extractors the chain has.
    pub fn len(&self) -> (n: usize)
        ensures
            n == self@.len(),
    {
        self.extractors.len()
    }

    /// The extractor at position `i` of the chain.
    pub fn extractor(&self, i: usize) -> (extractor: &Registered)
        requires
            i < self@.len(),
        ensures
            extractor@ == self@[i as int],
    {
        &self.extractors[i]
    }

    /// Offers a comment to each extractor in turn, up to the first that
    /// claims it. A comment that none claims is dropped.
    pub fn parse(&mut self, comment: &str)
        ensures
            final(self)@ == dispatched(old(self)@, comment@),
    {
        let mut i: usize = 0;
        while i < self.extractors.len()
            invariant
                i <= self.extractors.len(),
                self@ == old(self)@,
                forall|j: int| 0 <= j < i ==> !stage_claims(#[trigger] old(self)@[j], comment@),
            decreases self.extractors.len() - i,
        {
            let ghost before = self@;
            let consumed = self.extractors[i].extract(comment);
            proof {
                lemma_unclaimed_stage(before[i as int], comment@);
                assert(self@ =~= before.update(i as int, stage_after(before[i as int], comment@)));
            }
            if consumed {
                proof {
                    lemma_first_claimant(before, comment@, i as int);
                }
                return ;
            }
            assert(self@ =~= before);
            i += 1;
        }
        proof {
            lemma_first_claimant(old(self)@, comment@, i as int);
        }
    }

    /// The digest: the header, then what each extractor has gathered, in the
    /// order of the chain.
    pub fn render(&self) -> (out: String)
        ensures
            out@ == document(self@),
    {
        let mut body = String::new();
        let mut i: usize = 0;
        assert(self@.take(0) =~= Seq::<StageView>::empty());
        while i < self.extractors.len()
            invariant
                i <= self.extractors.len(),
                body@ == chain_digest(self@.take(i as int)),
            decreases self.extractors.len() - i,
        {
            proof {
                let next = self@.take(i + 1);
                assert(next.drop_last() =~= self@.take(i as int));
                assert(next.last() == self.extractors[i as int]@);
            }
            let piece = self.extractors[i].render();
            body.append(piece.as_str());
            i += 1;
        }
        assert(self@.take(i as int) =~= self@);
        let mut out = String::from_str(HEADER);
        out.append(body.as_str());
        out
    }
}

} // verus!
