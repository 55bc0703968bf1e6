//! Links found in a document: their targets and the index that the link mode walks through.
use vstd::prelude::*;

use crate::text::{
    char_is_white_space, chars_of, is_white_space, lowercased, occurs_at, starts_with, string_of,
    to_lowercase,
};

verus! {

/// What `char::is_alphanumeric` says of a character.
pub uninterp spec fn alphanumeric(c: char) -> bool;

/// `char::is_alphanumeric`: the result depends on the character alone.
#[verifier::external_body]
pub(crate) fn is_alphanumeric(c: char) -> (r: bool)
    ensures
        r == alphanumeric(c),
{
    c.is_alphanumeric()
}

/// Where a link leads.
#[derive(Debug)]
pub enum LinkTarget {
    /// A web address.
    External(String),
    /// A heading of the same document.
    InternalAnchor(String),
    /// A page of the wiki.
    WikiLink(String),
    /// A file, relative to the document.
    FilePath(String),
    /// An image with its alternative text.
    Image { url: String, alt: String },
}

#[verifier::ext_equal]
pub enum LinkTargetView {
    External(Seq<char>),
    InternalAnchor(Seq<char>),
    WikiLink(Seq<char>),
    FilePath(Seq<char>),
    Image { url: Seq<char>, alt: Seq<char> },
}

impl View for LinkTarget {
    type V = LinkTargetView;

    open spec fn view(&self) -> LinkTargetView {
        match self {
            LinkTarget::External(s) => LinkTargetView::External(s@),
            LinkTarget::InternalAnchor(s) => LinkTargetView::InternalAnchor(s@),
            LinkTarget::WikiLink(s) => LinkTargetView::WikiLink(s@),
            LinkTarget::FilePath(s) => LinkTargetView::FilePath(s@),
            LinkTarget::Image { url, alt } => LinkTargetView::Image { url: url@, alt: alt@ },
        }
    }
}

impl Clone for LinkTarget {
    fn clone(&self) -> (r: LinkTarget)
        ensures
            r@ == self@,
    {
        match self {
            LinkTarget::External(s) => LinkTarget::External(s.clone()),
            LinkTarget::InternalAnchor(s) => LinkTarget::InternalAnchor(s.clone()),
            LinkTarget::WikiLink(s) => LinkTarget::WikiLink(s.clone()),
            LinkTarget::FilePath(s) => LinkTarget::FilePath(s.clone()),
            LinkTarget::Image { url, alt } => LinkTarget::Image {
                url: url.clone(),
                alt: alt.clone(),
            },
        }
    }
}

/// The target that a link destination stands for: web addresses are external, `#name` is a
/// heading of the document, everything else is a file.
pub open spec fn target_of_href(href: Seq<char>) -> LinkTargetView {
    if occurs_at(href, "http://"@, 0) || occurs_at(href, "https://"@, 0) {
        LinkTargetView::External(href)
    } else if href.len() > 0 && href[0] == '#' {
        LinkTargetView::InternalAnchor(href.skip(1))
    } else {
        LinkTargetView::FilePath(href)
    }
}

impl LinkTarget {
    pub fn from_href(href: &str) -> (r: LinkTarget)
        ensures
            r@ == target_of_href(href@),
    {
        if starts_with(href, "http://") || starts_with(href, "https://") {
            return LinkTarget::External(href.to_owned());
        }
        let v = chars_of(href);
        if v.len() > 0 && v[0] == '#' {
            let anchor = string_of(&v, 1, v.len());
            assert(anchor@ =~= href@.skip(1));
            LinkTarget::InternalAnchor(anchor)
        } else {
            LinkTarget::FilePath(href.to_owned())
        }
    }

    /// The target as the link prompt shows it.
    pub fn display_str(&self) -> (r: String)
        ensures
            r@ == target_text(self@),
    {
        match self {
            LinkTarget::External(s) => s.clone(),
            LinkTarget::InternalAnchor(s) => {
                let mut r = String::new();
                r.push('#');
                r.append(s.as_str());
                assert(r@ =~= seq!['#'] + s@);
                r
            },
            LinkTarget::WikiLink(s) => {
                let mut r = String::new();
                r.append("[[");
                r.append(s.as_str());
                r.append("]]");
                assert(r@ =~= "[["@ + s@ + "]]"@);
                r
            },
            LinkTarget::FilePath(s) => s.clone(),
            LinkTarget::Image { url, alt } => url.clone(),
        }
    }
}

/// How a target is written for the reader.
pub open spec fn target_text(target: LinkTargetView) -> Seq<char> {
    match target {
        LinkTargetView::External(s) => s,
        LinkTargetView::InternalAnchor(s) => seq!['#'] + s,
        LinkTargetView::WikiLink(s) => "[["@ + s + "]]"@,
        LinkTargetView::FilePath(s) => s,
        LinkTargetView::Image { url, alt } => url,
    }
}

/// A link with the place at which it was found.
#[derive(Debug)]
pub struct Link {
    pub display_text: String,
    pub target: LinkTarget,
    pub source_line: usize,
    pub source_col: usize,
}

#[verifier::ext_equal]
pub struct LinkView {
    pub display_text: Seq<char>,
    pub target: LinkTargetView,
    pub source_line: nat,
    pub source_col: nat,
}

impl View for Link {
    type V = LinkView;

    open spec fn view(&self) -> LinkView {
        LinkView {
            display_text: self.display_text@,
            target: self.target@,
            source_line: self.source_line as nat,
            source_col: self.source_col as nat,
        }
    }
}

impl Clone for Link {
    fn clone(&self) -> (r: Link)
        ensures
            r@ == self@,
    {
        Link {
            display_text: self.display_text.clone(),
            target: self.target.clone(),
            source_line: self.source_line,
            source_col: self.source_col,
        }
    }
}

pub open spec fn link_views(v: Seq<Link>) -> Seq<LinkView> {
    v.map_values(|l: Link| l@)
}

/// The links of a document in the order in which they were found.
#[derive(Debug)]
pub struct LinkIndex(pub Vec<Link>);

impl View for LinkIndex {
    type V = Seq<LinkView>;

    open spec fn view(&self) -> Seq<LinkView> {
        link_views(self.0@)
    }
}

impl LinkIndex {
    pub fn new() -> (r: LinkIndex)
        ensures
            r@ == Seq::<LinkView>::empty(),
    {
        let r = LinkIndex(Vec::new());
        assert(r@ =~= Seq::<LinkView>::empty());
        r
    }

    pub fn push(&mut self, link: Link)
        ensures
            final(self)@ == old(self)@.push(link@),
    {
        self.0.push(link);
        assert(self@ =~= old(self)@.push(link@));
    }

    pub fn len(&self) -> (n: usize)
        ensures
            n == self@.len(),
    {
        self.0.len()
    }

    pub fn is_empty(&self) -> (r: bool)
        ensures
            r == (self@.len() == 0),
    {
        self.0.len() == 0
    }

    pub fn get(&self, i: usize) -> (r: Option<&Link>)
        ensures
            match r {
                Some(l) => i < self@.len() && l@ == self@[i as int],
                None => i >= self@.len(),
            },
    {
        if i < self.0.len() {
            Some(&self.0[i])
        } else {
            None
        }
    }
}

impl Clone for LinkIndex {
    fn clone(&self) -> (r: LinkIndex)
        ensures
            r@ == self@,
    {
        let mut out: Vec<Link> = Vec::new();
        let mut i: usize = 0;
        while i < self.0.len()
            invariant
                i <= self.0@.len(),
                link_views(out@) == self@.take(i as int),
            decreases self.0@.len() - i,
        {
            let ghost before = out@;
            let l = self.0[i].clone();
            let ghost lv = l@;
            out.push(l);
            i = i + 1;
            assert(link_views(out@) =~= link_views(before).push(lv));
            assert(self@.take(i as int) =~= self@.take(i - 1).push(self@[i - 1]));
        }
        assert(self@.take(self.0@.len() as int) =~= self@);
        LinkIndex(out)
    }
}

/// What one character of a heading leaves in its anchor: white space becomes a hyphen, letters,
/// digits, hyphens and underscores stay, everything else goes.
pub open spec fn anchor_char(c: char) -> Option<char> {
    if is_white_space(c) {
        Some('-')
    } else if alphanumeric(c) || c == '-' || c == '_' {
        Some(c)
    } else {
        None
    }
}

/// What the characters of a lower-case heading leave in its anchor.
pub open spec fn anchor_chars(s: Seq<char>) -> Seq<char>
    decreases s.len(),
{
    if s.len() == 0 {
        Seq::empty()
    } else {
        match anchor_char(s.last()) {
            Some(c) => anchor_chars(s.drop_last()).push(c),
            None => anchor_chars(s.drop_last()),
        }
    }
}

/// The anchor of a heading: `My Heading!` is reached by `#my-heading`.
pub fn normalize_anchor(text: &str) -> (r: String)
    ensures
        r@ == anchor_chars(lowercased(text@)),
{
    let lower = to_lowercase(text);
    let v = chars_of(lower.as_str());
    let mut r = String::new();
    let mut i: usize = 0;
    while i < v.len()
        invariant
            i <= v@.len(),
            r@ == anchor_chars(v@.take(i as int)),
        decreases v@.len() - i,
    {
        let c = v[i];
        if char_is_white_space(c) {
            r.push('-');
        } else if is_alphanumeric(c) || c == '-' || c == '_' {
            r.push(c);
        }
        i = i + 1;
        assert(v@.take(i as int).drop_last() =~= v@.take(i - 1));
    }
    assert(v@.take(v@.len() as int) =~= v@);
    r
}

// ---------------------------------------------------------------------------
// Laws
// ---------------------------------------------------------------------------

/// `http://` and what follows it.
pub open spec fn http_address(rest: Seq<char>) -> Seq<char> {
    seq!['h', 't', 't', 'p', ':', '/', '/'] + rest
}

/// `https://` and what follows it.
pub open spec fn https_address(rest: Seq<char>) -> Seq<char> {
    seq!['h', 't', 't', 'p', 's', ':', '/', '/'] + rest
}

/// An address on the web stays whole, whatever follows the scheme. A hash sign leads to the heading
/// that is named behind it.
pub proof fn law_addresses_lead_where_they_say(rest: Seq<char>)
    ensures
        target_of_href(http_address(rest)) == LinkTargetView::External(http_address(rest)),
        target_of_href(https_address(rest)) == LinkTargetView::External(https_address(rest)),
        target_of_href(seq!['#'] + rest) == LinkTargetView::InternalAnchor(rest),
{
    reveal_strlit("http://");
    reveal_strlit("https://");
    assert(http_address(rest).subrange(0, 7) =~= "http://"@);
    assert(https_address(rest).subrange(0, 8) =~= "https://"@);
    let anchor = seq!['#'] + rest;
    assert(anchor.skip(1) =~= rest);
    if occurs_at(anchor, "http://"@, 0) {
        assert(anchor.subrange(0, 7)[0] == "http://"@[0]);
    }
    if occurs_at(anchor, "https://"@, 0) {
        assert(anchor.subrange(0, 8)[0] == "https://"@[0]);
    }
}

/// Nothing else leads to the web or to a heading: every other address is the path of a file, just
/// as it is written.
pub proof fn law_other_addresses_are_files(href: Seq<char>)
    requires
        forall|rest: Seq<char>| href != #[trigger] http_address(rest),
        forall|rest: Seq<char>| href != #[trigger] https_address(rest),
        href.len() > 0 ==> href[0] != '#',
    ensures
        target_of_href(href) == LinkTargetView::FilePath(href),
{
    reveal_strlit("http://");
    reveal_strlit("https://");
    if occurs_at(href, "http://"@, 0) {
        assert(href.subrange(0, 7) == "http://"@);
        assert forall|i: int| 0 <= i < 7 implies href[i] == "http://"@[i] by {
            assert(href[i] == href.subrange(0, 7)[i]);
        }
        assert(href =~= http_address(href.skip(7)));
    }
    if occurs_at(href, "https://"@, 0) {
        assert(href.subrange(0, 8) == "https://"@);
        assert forall|i: int| 0 <= i < 8 implies href[i] == "https://"@[i] by {
            assert(href[i] == href.subrange(0, 8)[i]);
        }
        assert(href =~= https_address(href.skip(8)));
    }
}

/// The prompt shows a target the way it is written in the document: reading it again as an address
/// leads to the same target. Wiki links keep their brackets.
pub proof fn law_targets_are_shown_as_written(href: Seq<char>, page: Seq<char>)
    ensures
        target_text(target_of_href(href)) == href,
        target_text(LinkTargetView::WikiLink(page)) == seq!['[', '['] + page + seq![']', ']'],
{
    reveal_strlit("[[");
    reveal_strlit("]]");
    assert("[["@ =~= seq!['[', '[']);
    assert("]]"@ =~= seq![']', ']']);
    if target_of_href(href) is InternalAnchor {
        assert(seq!['#'] + href.skip(1) =~= href);
    }
}

/// An anchor is made character by character, in order: white space becomes a hyphen, letters,
/// digits, hyphens and underscores stay, and everything else is left out.
pub proof fn law_anchors_are_made_character_by_character(a: Seq<char>, c: char, b: Seq<char>)
    ensures
        is_white_space(c) ==> anchor_chars(a + seq![c] + b) == anchor_chars(a) + seq!['-']
            + anchor_chars(b),
        !is_white_space(c) && (alphanumeric(c) || c == '-' || c == '_') ==> anchor_chars(
            a + seq![c] + b,
        ) == anchor_chars(a) + seq![c] + anchor_chars(b),
        !is_white_space(c) && !alphanumeric(c) && c != '-' && c != '_' ==> anchor_chars(
            a + seq![c] + b,
        ) == anchor_chars(a) + anchor_chars(b),
        anchor_chars(Seq::empty()).len() == 0,
    decreases b.len(),
{
    if b.len() == 0 {
        assert((a + seq![c] + b).drop_last() =~= a);
        assert((a + seq![c] + b).last() == c);
        assert(anchor_chars(b) =~= Seq::<char>::empty());
        assert(anchor_chars(a) + anchor_chars(b) =~= anchor_chars(a));
        assert(anchor_chars(a) + seq!['-'] + anchor_chars(b) =~= anchor_chars(a).push('-'));
        assert(anchor_chars(a) + seq![c] + anchor_chars(b) =~= anchor_chars(a).push(c));
    } else {
        law_anchors_are_made_character_by_character(a, c, b.drop_last());
        let front = anchor_chars(b.drop_last());
        assert((a + seq![c] + b).drop_last() =~= a + seq![c] + b.drop_last());
        assert((a + seq![c] + b).last() == b.last());
        match anchor_char(b.last()) {
            Some(d) => {
                assert(anchor_chars(a) + anchor_chars(b) =~= (anchor_chars(a) + front).push(d));
                assert(anchor_chars(a) + seq!['-'] + anchor_chars(b) =~= (anchor_chars(a) + seq![
                    '-',
                ] + front).push(d));
                assert(anchor_chars(a) + seq![c] + anchor_chars(b) =~= (anchor_chars(a) + seq![c]
                    + front).push(d));
            },
            None => {},
        }
    }
}

} // verus!
