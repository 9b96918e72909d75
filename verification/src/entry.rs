//! One formal submission: how it is read out of a YAML block, how two
//! submissions under one name merge, and how it is written in the digest.

use crate::text::{
    lines, lines_of, opt_text, opt_texts, present_strings, present_texts, same_text, split,
    split_on, texts,
};
use crate::yaml::{member, yaml_documents, yaml_items, yaml_member, yaml_text};
use vstd::prelude::*;
use vstd::string::StringExecFns;
use yaml_rust::{Yaml, YamlLoader};

verus! {

/// What a submission is: a draft unless it says otherwise.
#[derive(Clone, Copy, Debug, PartialEq, Eq, Structural)]
pub enum EntryType {
    Draft,
    Topic,
}

/// One formal submission. Its name is never empty.
pub struct Entry {
    name: String,
    kind: EntryType,
    link: Option<String>,
    description: Option<String>,
    quote: Option<String>,
    cc: Vec<String>,
}

/// A submission as plain data.
pub ghost struct EntryView {
    pub name: Seq<char>,
    pub kind: EntryType,
    pub link: Option<Seq<char>>,
    pub description: Option<Seq<char>>,
    pub quote: Option<Seq<char>>,
    pub contributors: Seq<Seq<char>>,
}

impl View for Entry {
    type V = EntryView;

    closed spec fn view(&self) -> EntryView {
        EntryView {
            name: self.name@,
            kind: self.kind,
            link: opt_text(self.link),
            description: opt_text(self.description),
            quote: opt_text(self.quote),
            contributors: texts(self.cc@),
        }
    }
}

/// The view of an optional submission.
pub open spec fn opt_entry(e: Option<Entry>) -> Option<EntryView> {
    match e {
        Some(x) => Some(x@),
        None => None,
    }
}

/// The kind that a `type` field stands for: a draft where the field is
/// absent, and no kind at all where it holds anything but `draft` or `topic`.
pub open spec fn kind_of(field: Option<Seq<char>>) -> Option<EntryType> {
    match field {
        None => Some(EntryType::Draft),
        Some(t) => if t == "draft"@ {
            Some(EntryType::Draft)
        } else if t == "topic"@ {
            Some(EntryType::Topic)
        } else {
            None
        },
    }
}

/// The submission that a block's fields make up. There is none without a
/// name, with an empty name, or with a `type` that names no kind.
pub open spec fn entry_of_fields(
    name: Option<Seq<char>>,
    kind: Option<Seq<char>>,
    link: Option<Seq<char>>,
    description: Option<Seq<char>>,
    quote: Option<Seq<char>>,
    contributors: Seq<Seq<char>>,
) -> Option<EntryView> {
    match (name, kind_of(kind)) {
        (Some(n), Some(k)) => if n.len() > 0 {
            Some(
                EntryView {
                    name: n,
                    kind: k,
                    link: link,
                    description: description,
                    quote: quote,
                    contributors: contributors,
                },
            )
        } else {
            None
        },
        _ => None,
    }
}

/// The handles of a loosely written list: its string items, each cut at
/// every space.
pub open spec fn loose_names(items: Seq<Option<Seq<char>>>) -> Seq<Seq<char>>
    decreases items.len(),
{
    if items.len() == 0 {
        Seq::empty()
    } else {
        match items.last() {
            Some(t) => loose_names(items.drop_last()) + split_on(t, ' '),
            None => loose_names(items.drop_last()),
        }
    }
}

/// What each node of a list reads as a string.
pub open spec fn node_texts(items: Seq<Yaml>) -> Seq<Option<Seq<char>>> {
    Seq::new(items.len(), |i: int| yaml_text(items[i]))
}

/// The handles that a `cc` node credits. An array gives its string items. A
/// string is read once more as the inside of a flow list, and each string
/// item of that list is cut at spaces. Anything else credits nobody.
pub open spec fn contributors_of(node: Yaml) -> Seq<Seq<char>> {
    match yaml_items(node) {
        Some(items) => present_texts(node_texts(items)),
        None => match yaml_text(node) {
            Some(s) => match yaml_documents("["@ + s + "]"@) {
                Some(docs) => if docs.len() > 0 {
                    match yaml_items(docs[0]) {
                        Some(items) => loose_names(node_texts(items)),
                        None => Seq::empty(),
                    }
                } else {
                    Seq::empty()
                },
                None => Seq::empty(),
            },
            None => Seq::empty(),
        },
    }
}

/// The submission that one document describes.
pub open spec fn entry_of_document(doc: Yaml) -> Option<EntryView> {
    entry_of_fields(
        yaml_text(yaml_member(doc, "name"@)),
        yaml_text(yaml_member(doc, "type"@)),
        yaml_text(yaml_member(doc, "link"@)),
        yaml_text(yaml_member(doc, "description"@)),
        yaml_text(yaml_member(doc, "quote"@)),
        contributors_of(yaml_member(doc, "cc"@)),
    )
}

/// The submission that a block of YAML text describes: that of its first
/// document, and none where the text does not load or holds no document.
pub open spec fn parsed_entry(yaml: Seq<char>) -> Option<EntryView> {
    match yaml_documents(yaml) {
        Some(docs) => if docs.len() > 0 {
            entry_of_document(docs[0])
        } else {
            None
        },
        None => None,
    }
}

/// An optional text after another was appended to it: the two run together
/// with nothing between them, and an absent one leaves the other as it is.
pub open spec fn appended(a: Option<Seq<char>>, b: Option<Seq<char>>) -> Option<Seq<char>> {
    match (a, b) {
        (Some(x), Some(y)) => Some(x + y),
        (None, Some(y)) => Some(y),
        (_, None) => a,
    }
}

/// A submission after a later one under the same name was merged into it:
/// the later kind, the optional texts appended, the contributors of both.
pub open spec fn merged(a: EntryView, b: EntryView) -> EntryView {
    EntryView {
        name: a.name,
        kind: b.kind,
        link: appended(a.link, b.link),
        description: appended(a.description, b.description),
        quote: appended(a.quote, b.quote),
        contributors: a.contributors + b.contributors,
    }
}

/// An optional text run together with itself.
pub open spec fn doubled(a: Option<Seq<char>>) -> Option<Seq<char>> {
    match a {
        Some(x) => Some(x + x),
        None => None,
    }
}

/// Merging a submission into itself does not leave it as it was: every
/// optional text that it has comes out twice in a row, and so does its list
/// of contributors. Name and kind stay.
pub proof fn lemma_self_merge_doubles(e: EntryView)
    ensures
        merged(e, e).name == e.name,
        merged(e, e).kind == e.kind,
        merged(e, e).link == doubled(e.link),
        merged(e, e).description == doubled(e.description),
        merged(e, e).quote == doubled(e.quote),
        merged(e, e).contributors == e.contributors + e.contributors,
{
}

/// A block whose first document has a name that is not empty and no `type`
/// describes a draft.
pub proof fn lemma_kind_defaults_to_draft(yaml: Seq<char>)
    requires
        yaml_documents(yaml) matches Some(docs) && docs.len() > 0 && yaml_text(
            yaml_member(docs[0], "type"@),
        ) is None && (yaml_text(yaml_member(docs[0], "name"@)) matches Some(n) && n.len() > 0),
    ensures
        parsed_entry(yaml) matches Some(e) && e.kind == EntryType::Draft,
{
}

/// A block whose `type` is a string other than `draft` and `topic` describes
/// no submission, whether or not it has a name.
pub proof fn lemma_unknown_kind_is_rejected(yaml: Seq<char>)
    requires
        yaml_documents(yaml) matches Some(docs) && docs.len() > 0 && (yaml_text(
            yaml_member(docs[0], "type"@),
        ) matches Some(t) && t != "draft"@ && t != "topic"@),
    ensures
        parsed_entry(yaml) is None,
{
}

/// A block describes no submission unless its first document has a name
/// that is not empty.
pub proof fn lemma_name_is_required(yaml: Seq<char>)
    ensures
        parsed_entry(yaml) matches Some(e) ==> e.name.len() > 0 && (yaml_documents(yaml) matches Some(
            docs,
        ) && docs.len() > 0 && yaml_text(yaml_member(docs[0], "name"@)) == Some(e.name)),
{
}

/// The head of a submission's line: its name, as a link where it has one.
pub open spec fn title_of(e: EntryView) -> Seq<char> {
    match e.link {
        Some(link) => "["@ + e.name + "]("@ + link + ")"@,
        None => e.name,
    }
}

/// The rest of a submission's line: its description after a comma, if any.
pub open spec fn tail_of(e: EntryView) -> Seq<char> {
    match e.description {
        Some(description) => ", "@ + description + "\n"@,
        None => "\n"@,
    }
}

/// One blockquote line for each of `lines`.
pub open spec fn quoted(lines: Seq<Seq<char>>) -> Seq<char>
    decreases lines.len(),
{
    if lines.len() == 0 {
        Seq::empty()
    } else {
        quoted(lines.drop_last()) + "> "@ + lines.last() + "\n"@
    }
}

/// A submission's quote as a blockquote.
pub open spec fn quote_of(e: EntryView) -> Seq<char> {
    match e.quote {
        Some(quote) => quoted(lines_of(quote)),
        None => Seq::empty(),
    }
}

/// A handle as a link to its profile.
pub open spec fn profile_link(handle: Seq<char>) -> Seq<char> {
    "[@"@ + handle + "](https://github.com/"@ + handle + ")"@
}

/// The profile links of `handles`, with a comma and a space between them.
pub open spec fn credits(handles: Seq<Seq<char>>) -> Seq<char>
    decreases handles.len(),
{
    if handles.len() == 0 {
        Seq::empty()
    } else if handles.len() == 1 {
        profile_link(handles[0])
    } else {
        credits(handles.drop_last()) + ", "@ + profile_link(handles.last())
    }
}

/// The line that credits a submission's contributors, if it has any.
pub open spec fn credits_line(e: EntryView) -> Seq<char> {
    if e.contributors.len() > 0 {
        credits(e.contributors) + "\n"@
    } else {
        Seq::empty()
    }
}

/// A submission as it stands in the digest.
pub open spec fn rendered(e: EntryView) -> Seq<char> {
    "- "@ + title_of(e) + tail_of(e) + quote_of(e) + credits_line(e)
}

/// What each node of a list reads as a string.
pub fn node_strings(items: &Vec<Yaml>) -> (out: Vec<Option<String>>)
    ensures
        opt_texts(out@) == node_texts(items@),
{
    let mut out: Vec<Option<String>> = Vec::new();
    let mut i: usize = 0;
    while i < items.len()
        invariant
            i <= items.len(),
            out.len() == i,
            forall|j: int| 0 <= j < i ==> opt_text(out[j]) == yaml_text(items[j]),
        decreases items.len() - i,
    {
        let item = match items[i].as_str() {
            Some(s) => Some(s.to_owned()),
            None => None,
        };
        out.push(item);
        i += 1;
    }
    assert(opt_texts(out@) =~= node_texts(items@));
    out
}

/// The handles of a loosely written list: its string items, each cut at
/// every space.
pub fn loose_contributors(items: &Vec<Option<String>>) -> (out: Vec<String>)
    ensures
        texts(out@) == loose_names(opt_texts(items@)),
{
    let mut out: Vec<String> = Vec::new();
    let mut i: usize = 0;
    assert(opt_texts(items@).take(0) =~= Seq::empty());
    assert(texts(out@) =~= Seq::empty());
    while i < items.len()
        invariant
            i <= items.len(),
            texts(out@) == loose_names(opt_texts(items@).take(i as int)),
        decreases items.len() - i,
    {
        proof {
            let next = opt_texts(items@).take(i + 1);
            assert(next.drop_last() =~= opt_texts(items@).take(i as int));
            assert(next.last() == opt_text(items[i as int]));
        }
        match &items[i] {
            Some(s) => {
                let ghost before = out@;
                let mut words = split(s.as_str(), ' ');
                let ghost added = words@;
                out.append(&mut words);
                assert(texts(out@) =~= texts(before) + texts(added));
            },
            None => {},
        }
        i += 1;
    }
    assert(opt_texts(items@).take(i as int) =~= opt_texts(items@));
    out
}

/// The handles that a `cc` node credits.
pub fn contributors(node: &Yaml) -> (out: Vec<String>)
    ensures
        texts(out@) == contributors_of(*node),
{
    match node.as_vec() {
        Some(items) => present_strings(&node_strings(items)),
        None => match node.as_str() {
            Some(s) => {
                let mut list = String::from_str("[");
                list.append(s);
                list.append("]");
                match YamlLoader::load_from_str(list.as_str()) {
                    Ok(docs) => if docs.len() > 0 {
                        match docs[0].as_vec() {
                            Some(items) => loose_contributors(&node_strings(items)),
                            None => no_contributors(),
                        }
                    } else {
                        no_contributors()
                    },
                    Err(_) => no_contributors(),
                }
            },
            None => no_contributors(),
        },
    }
}

/// Nobody to credit.
fn no_contributors() -> (out: Vec<String>)
    ensures
        texts(out@) == Seq::<Seq<char>>::empty(),
{
    let out: Vec<String> = Vec::new();
    assert(texts(out@) =~= Seq::<Seq<char>>::empty());
    out
}

/// What a document holds as a string under `key`.
pub fn field(doc: &Yaml, key: &str) -> (value: Option<String>)
    ensures
        opt_text(value) == yaml_text(yaml_member(*doc, key@)),
{
    match member(doc, key).as_str() {
        Some(s) => Some(s.to_owned()),
        None => None,
    }
}

/// One blockquote line for each of `lines`.
pub fn blockquote(lines: &Vec<String>) -> (out: String)
    ensures
        out@ == quoted(texts(lines@)),
{
    let mut out = String::new();
    let mut i: usize = 0;
    assert(texts(lines@).take(0) =~= Seq::<Seq<char>>::empty());
    while i < lines.len()
        invariant
            i <= lines.len(),
            out@ == quoted(texts(lines@).take(i as int)),
        decreases lines.len() - i,
    {
        proof {
            let next = texts(lines@).take(i + 1);
            assert(next.drop_last() =~= texts(lines@).take(i as int));
            assert(next.last() == lines[i as int]@);
        }
        out.append("> ");
        out.append(lines[i].as_str());
        out.append("\n");
        i += 1;
    }
    assert(texts(lines@).take(i as int) =~= texts(lines@));
    out
}

/// A handle as a link to its profile.
pub fn profile(handle: &str) -> (out: String)
    ensures
        out@ == profile_link(handle@),
{
    let mut out = String::from_str("[@");
    out.append(handle);
    out.append("](https://github.com/");
    out.append(handle);
    out.append(")");
    out
}

/// The profile links of `handles`, with a comma and a space between them.
pub fn credit_list(handles: &Vec<String>) -> (out: String)
    ensures
        out@ == credits(texts(handles@)),
{
    let mut out = String::new();
    let mut i: usize = 0;
    assert(texts(handles@).take(0) =~= Seq::<Seq<char>>::empty());
    while i < handles.len()
        invariant
            i <= handles.len(),
            out@ == credits(texts(handles@).take(i as int)),
        decreases handles.len() - i,
    {
        proof {
            let next = texts(handles@).take(i + 1);
            assert(next.drop_last() =~= texts(handles@).take(i as int));
            assert(next.last() == handles[i as int]@);
            assert(next[0] == handles[0]@);
        }
        let link = profile(handles[i].as_str());
        if i > 0 {
            out.append(", ");
            out.append(link.as_str());
        } else {
            out = link;
        }
        i += 1;
    }
    assert(texts(handles@).take(i as int) =~= texts(handles@));
    out
}

impl Entry {
    /// The name is not empty.
    #[verifier::type_invariant]
    spec fn inv(&self) -> bool {
        self.name@.len() > 0
    }

    /// The submission that a block's fields make up. There is none without a
    /// name, with an empty name, or with a `type` that is neither `draft`
    /// nor `topic`; without a `type` it is a draft.
    pub fn from_fields(
        name: Option<String>,
        kind: Option<String>,
        link: Option<String>,
        description: Option<String>,
        quote: Option<String>,
        cc: Vec<String>,
    ) -> (entry: Option<Entry>)
        ensures
            opt_entry(entry) == entry_of_fields(
                opt_text(name),
                opt_text(kind),
                opt_text(link),
                opt_text(description),
                opt_text(quote),
                texts(cc@),
            ),
    {
        let kind = match kind {
            None => Some(EntryType::Draft),
            Some(t) => if same_text(t.as_str(), "draft") {
                Some(EntryType::Draft)
            } else if same_text(t.as_str(), "topic") {
                Some(EntryType::Topic)
            } else {
                None
            },
        };
        match (name, kind) {
            (Some(name), Some(kind)) => if name.as_str().is_empty() {
                None
            } else {
                Some(Entry { name, kind, link, description, quote, cc })
            },
            _ => None,
        }
    }

    /// The name that the submission is filed under. It is never empty.
    pub fn name(&self) -> (name: &String)
        ensures
            name@ == self@.name,
            name@.len() > 0,
    {
        proof {
            use_type_invariant(self);
        }
        &self.name
    }

    /// Whether it is a draft or a topic.
    pub fn kind(&self) -> (kind: EntryType)
        ensures
            kind == self@.kind,
    {
        self.kind
    }

    /// The link, if it has one.
    pub fn link(&self) -> (link: &Option<String>)
        ensures
            opt_text(*link) == self@.link,
    {
        &self.link
    }

    /// The description, if it has one.
    pub fn description(&self) -> (description: &Option<String>)
        ensures
            opt_text(*description) == self@.description,
    {
        &self.description
    }

    /// The quote, if it has one.
    pub fn quote(&self) -> (quote: &Option<String>)
        ensures
            opt_text(*quote) == self@.quote,
    {
        &self.quote
    }

    /// The handles to credit, in the order they were given.
    pub fn contributors(&self) -> (handles: &Vec<String>)
        ensures
            texts(handles@) == self@.contributors,
    {
        &self.cc
    }

    /// Appends what `b` holds to what `a` holds, and leaves `b` empty.
    pub fn field_append(a: &mut Option<String>, b: &mut Option<String>)
        ensures
            opt_text(*final(a)) == appended(opt_text(*old(a)), opt_text(*old(b))),
            *final(b) is None,
    {
        match b.take() {
            Some(s2) => {
                match a.take() {
                    Some(s1) => {
                        *a = Some(s1.concat(s2.as_str()));
                    },
                    None => {
                        *a = Some(s2);
                    },
                }
            },
            None => {},
        }
    }

    /// Merges a later submission under the same name into this one.
    pub fn merge(&mut self, other: Entry)
        requires
            old(self)@.name == other@.name,
        ensures
            final(self)@ == merged(old(self)@, other@),
    {
        proof {
            use_type_invariant(&*self);
        }
        let Entry {
            name: _,
            kind: later_kind,
            link: mut later_link,
            description: mut later_description,
            quote: mut later_quote,
            cc: mut later_cc,
        } = other;
        let mut link: Option<String> = None;
        let mut description: Option<String> = None;
        let mut quote: Option<String> = None;
        let mut cc: Vec<String> = Vec::new();
        core::mem::swap(&mut self.link, &mut link);
        core::mem::swap(&mut self.description, &mut description);
        core::mem::swap(&mut self.quote, &mut quote);
        core::mem::swap(&mut self.cc, &mut cc);
        Self::field_append(&mut link, &mut later_link);
        Self::field_append(&mut description, &mut later_description);
        Self::field_append(&mut quote, &mut later_quote);
        cc.append(&mut later_cc);
        assert(texts(cc@) =~= texts(old(self).cc@) + texts(other.cc@));
        self.kind = later_kind;
        self.link = link;
        self.description = description;
        self.quote = quote;
        self.cc = cc;
    }

    /// The submission's lines in the digest: its name, linked where it has a
    /// link, its description, its quote as a blockquote, and a line that
    /// credits its contributors.
    pub fn render(&self) -> (out: String)
        ensures
            out@ == rendered(self@),
    {
        let mut out = String::from_str("- ");
        match &self.link {
            Some(link) => {
                let mut title = String::from_str("[");
                title.append(self.name.as_str());
                title.append("](");
                title.append(link.as_str());
                title.append(")");
                out.append(title.as_str());
            },
            None => {
                out.append(self.name.as_str());
            },
        }
        match &self.description {
            Some(description) => {
                let mut tail = String::from_str(", ");
                tail.append(description.as_str());
                tail.append("\n");
                out.append(tail.as_str());
            },
            None => {
                out.append("\n");
            },
        }
        let block = match &self.quote {
            Some(quote) => blockquote(&lines(quote.as_str())),
            None => String::new(),
        };
        out.append(block.as_str());
        let mut credit = String::new();
        if self.cc.len() > 0 {
            credit = credit_list(&self.cc);
            credit.append("\n");
        }
        out.append(credit.as_str());
        out
    }

    /// Reads a submission out of a block of YAML text. The block's first
    /// document counts; a block that does not load, or that describes no
    /// submission, gives `None`.
    pub fn parse(yaml: &str) -> (entry: Option<Entry>)
        ensures
            opt_entry(entry) == parsed_entry(yaml@),
            entry matches Some(e) ==> e@.name.len() > 0,
    {
        match YamlLoader::load_from_str(yaml) {
            Ok(docs) => if docs.len() > 0 {
                let doc = &docs[0];
                let name = field(doc, "name");
                let kind = field(doc, "type");
                let link = field(doc, "link");
                let description = field(doc, "description");
                let quote = field(doc, "quote");
                let cc = contributors(member(doc, "cc"));
                Entry::from_fields(name, kind, link, description, quote, cc)
            } else {
                None
            },
            Err(_) => None,
        }
    }
}

} // verus!
