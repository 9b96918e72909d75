//! The casual extractor: keeps, word for word, every comment that mentions a
//! link.

use crate::pattern::{compile, regex_matches, regex_valid};
use crate::text::texts;
use crate::weekly::Extractor;
use vstd::prelude::*;
use vstd::string::StringExecFns;

verus! {

/// What counts as a link: a scheme or `www.`, then dot-separated host labels.
pub const URL_PATTERN: &'static str =
    r"(((http://)|(https://)|(ftp://)|(www\.))([a-zA-Z0-9_\-]+\.)*[a-zA-Z0-9\-]+\.[a-zA-Z0-9\-]+)";

/// What follows each casual comment in the digest: a horizontal rule.
pub const CASUAL_SEPARATOR: &'static str = "\n\n***\n\n";

/// Whether a comment mentions a link.
pub open spec fn has_link(comment: Seq<char>) -> bool {
    regex_valid(URL_PATTERN@) && regex_matches(URL_PATTERN@, comment)
}

/// The comments rendered one after the other, each followed by the separator.
pub open spec fn casual_digest(entries: Seq<Seq<char>>) -> Seq<char>
    decreases entries.len(),
{
    if entries.len() == 0 {
        Seq::empty()
    } else {
        casual_digest(entries.drop_last()) + entries.last() + CASUAL_SEPARATOR@
    }
}

/// The comments kept so far, in the order they came.
pub struct Casual {
    entries: Vec<String>,
}

impl View for Casual {
    type V = Seq<Seq<char>>;

    closed spec fn view(&self) -> Seq<Seq<char>> {
        texts(self.entries@)
    }
}

impl Casual {
    /// An extractor that holds nothing yet.
    pub fn new() -> (casual: Casual)
        ensures
            casual@ == Seq::<Seq<char>>::empty(),
    {
        let casual = Casual { entries: Vec::new() };
        assert(casual@ =~= Seq::<Seq<char>>::empty());
        casual
    }

    /// Files `comment` where `linked` says that it mentions a link, and
    /// reports whether it did.
    pub fn collect(&mut self, comment: &str, linked: bool) -> (consumed: bool)
        ensures
            consumed == linked,
            final(self)@ == if linked {
                old(self)@.push(comment@)
            } else {
                old(self)@
            },
    {
        if linked {
            self.entries.push(comment.to_owned());
            assert(self@ =~= old(self)@.push(comment@));
        }
        linked
    }

    /// The kept comment at position `i`.
    pub fn entry(&self, i: usize) -> (comment: &String)
        requires
            i < self@.len(),
        ensures
            comment@ == self@[i as int],
    {
        &self.entries[i]
    }

    /// How many comments are kept.
    pub fn len(&self) -> (n: usize)
        ensures
            n == self@.len(),
    {
        self.entries.len()
    }

}

impl Extractor for Casual {
    open spec fn claims(&self, comment: Seq<char>) -> bool {
        has_link(comment)
    }

    open spec fn digest(&self) -> Seq<char> {
        casual_digest(self@)
    }

    /// Keeps `comment` if it mentions a link; otherwise leaves it to others.
    fn extract(&mut self, comment: &str) -> (consumed: bool)
        ensures
            final(self)@ == if has_link(comment@) {
                old(self)@.push(comment@)
            } else {
                old(self)@
            },
    {
        let linked = match compile(URL_PATTERN) {
            Some(url) => url.is_match(comment),
            None => false,
        };
        self.collect(comment, linked)
    }

    /// The kept comments, each followed by a horizontal rule.
    fn render(&self) -> (out: String) {
        let mut out = String::new();
        let mut i: usize = 0;
        assert(self@.take(0) =~= Seq::<Seq<char>>::empty());
        while i < self.entries.len()
            invariant
                i <= self.entries.len(),
                out@ == casual_digest(self@.take(i as int)),
            decreases self.entries.len() - i,
        {
            out.append(self.entries[i].as_str());
            out.append(CASUAL_SEPARATOR);
            proof {
                let next = self@.take(i + 1);
                assert(next.drop_last() =~= self@.take(i as int));
                assert(next.last() == self.entries[i as int]@);
            }
            i += 1;
        }
        assert(self@.take(i as int) =~= self@);
        out
    }
}

} // verus!
