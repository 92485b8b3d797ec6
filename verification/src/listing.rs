//! The page that lists a directory: one link for each entry.

use crate::path::{join, located, with_separator, ResolvedPath, ResolvedPathView};
use crate::text::{chars_of, string_of};
use vstd::prelude::*;
use vstd::string::StrSliceExecFns;
use vstd::utf8::encode_utf8;

verus! {

/// One link of a listing.
#[derive(Debug, PartialEq, Eq)]
pub struct Link {
    /// The path of the entry, relative to the shared root.
    pub target: String,
    /// The name of the entry.
    pub label: String,
}

/// What a `Link` stands for.
pub struct LinkView {
    pub target: Seq<char>,
    pub label: Seq<char>,
}

impl View for Link {
    type V = LinkView;

    open spec fn view(&self) -> LinkView {
        LinkView { target: self.target@, label: self.label@ }
    }
}

/// What a list of links stands for.
pub open spec fn link_views(links: Seq<Link>) -> Seq<LinkView> {
    Seq::new(links.len(), |i: int| links[i]@)
}

/// What a list of names stands for.
pub open spec fn name_views(names: Seq<String>) -> Seq<Seq<char>> {
    Seq::new(names.len(), |i: int| names[i]@)
}

/// What stands in a page for one character of a text: the five characters
/// that mean something to a browser are written as entities.
pub open spec fn escape_char(c: char) -> Seq<char> {
    if c == '&' {
        seq!['&', 'a', 'm', 'p', ';']
    } else if c == '<' {
        seq!['&', 'l', 't', ';']
    } else if c == '>' {
        seq!['&', 'g', 't', ';']
    } else if c == '"' {
        seq!['&', 'q', 'u', 'o', 't', ';']
    } else if c == '\'' {
        seq!['&', '#', '3', '9', ';']
    } else {
        seq![c]
    }
}

/// What stands in a page for a text.
pub open spec fn escape(text: Seq<char>) -> Seq<char>
    decreases text.len(),
{
    if text.len() == 0 {
        Seq::<char>::empty()
    } else {
        escape(text.drop_last()) + escape_char(text.last())
    }
}

/// The line of a page that shows one link.
pub open spec fn link_line(link: LinkView) -> Seq<char> {
    "<a href=\"/"@ + escape(link.target) + "\">"@ + escape(link.label) + "</a><br />"@
}

/// The page that shows the links, one line after the other.
pub open spec fn page(links: Seq<LinkView>) -> Seq<char>
    decreases links.len(),
{
    if links.len() == 0 {
        Seq::<char>::empty()
    } else {
        page(links.drop_last()) + link_line(links.last())
    }
}

/// The links of the directory `dir` whose entries are `names`: one for each
/// name, in the order of the names. The target is the entry's path with the
/// root taken off its front, the label is the entry's name.
pub open spec fn links_for(dir: ResolvedPathView, names: Seq<Seq<char>>) -> Seq<LinkView> {
    Seq::new(
        names.len(),
        |i: int| LinkView { target: join(dir.names.push(names[i])), label: names[i] },
    )
}

/// Appends the characters of `text` to `out`.
fn push_text(out: &mut Vec<char>, text: &str)
    ensures
        final(out)@ == old(out)@ + text@,
{
    let chars = chars_of(text);
    out.extend_from_slice(chars.as_slice());
}

/// Appends to `out` what stands in a page for the character `c`.
fn push_escaped_char(out: &mut Vec<char>, c: char)
    ensures
        final(out)@ == old(out)@ + escape_char(c),
{
    let ghost before = out@;
    if c == '&' {
        out.push('&');
        out.push('a');
        out.push('m');
        out.push('p');
        out.push(';');
        assert(out@ =~= before + seq!['&', 'a', 'm', 'p', ';']);
    } else if c == '<' {
        out.push('&');
        out.push('l');
        out.push('t');
        out.push(';');
        assert(out@ =~= before + seq!['&', 'l', 't', ';']);
    } else if c == '>' {
        out.push('&');
        out.push('g');
        out.push('t');
        out.push(';');
        assert(out@ =~= before + seq!['&', 'g', 't', ';']);
    } else if c == '"' {
        out.push('&');
        out.push('q');
        out.push('u');
        out.push('o');
        out.push('t');
        out.push(';');
        assert(out@ =~= before + seq!['&', 'q', 'u', 'o', 't', ';']);
    } else if c == '\'' {
        out.push('&');
        out.push('#');
        out.push('3');
        out.push('9');
        out.push(';');
        assert(out@ =~= before + seq!['&', '#', '3', '9', ';']);
    } else {
        out.push(c);
        assert(out@ =~= before + seq![c]);
    }
}

/// Appends to `out` what stands in a page for `text`.
fn push_escaped(out: &mut Vec<char>, text: &str)
    ensures
        final(out)@ == old(out)@ + escape(text@),
{
    let chars = chars_of(text);
    let ghost start = out@;
    let mut i: usize = 0;
    assert(chars@.take(0) == Seq::<char>::empty());
    while i < chars.len()
        invariant
            i <= chars.len(),
            chars@ == text@,
            out@ == start + escape(chars@.take(i as int)),
        decreases chars.len() - i,
    {
        let c = chars[i];
        proof {
            assert(chars@.take(i + 1).drop_last() == chars@.take(i as int));
            assert(chars@.take(i + 1).last() == c);
        }
        push_escaped_char(out, c);
        i = i + 1;
    }
    assert(chars@.take(i as int) == chars@);
}

/// The text as it is written into a page.
pub fn html_escape(text: &str) -> (escaped: String)
    ensures
        escaped@ == escape(text@),
{
    let mut out: Vec<char> = Vec::new();
    push_escaped(&mut out, text);
    string_of(out.as_slice())
}

/// The links of a directory: one for each of its entries, in their order.
pub fn list_links(dir: &ResolvedPath, names: &Vec<String>) -> (links: Vec<Link>)
    ensures
        link_views(links@) == links_for(dir@, name_views(names@)),
        links@.len() == names@.len(),
{
    let mut links: Vec<Link> = Vec::new();
    let mut i: usize = 0;
    while i < names.len()
        invariant
            i <= names.len(),
            links@.len() == i,
            forall|j: int|
                0 <= j < i ==> (#[trigger] links@[j])@ == links_for(dir@, name_views(names@))[j],
        decreases names.len() - i,
    {
        let name = names[i].as_str();
        let target = dir.child_relative(name);
        links.push(Link { target, label: name.to_owned() });
        i = i + 1;
    }
    assert(link_views(links@) == links_for(dir@, name_views(names@)));
    links
}

/// The page that shows the links, as the bytes of its text.
pub fn render_links(links: &Vec<Link>) -> (body: Vec<u8>)
    ensures
        body@ == encode_utf8(page(link_views(links@))),
{
    let ghost all = link_views(links@);
    let mut out: Vec<char> = Vec::new();
    let mut i: usize = 0;
    assert(all.take(0) == Seq::<LinkView>::empty());
    while i < links.len()
        invariant
            i <= links.len(),
            all == link_views(links@),
            out@ == page(all.take(i as int)),
        decreases links.len() - i,
    {
        proof {
            assert(all.take(i + 1).drop_last() == all.take(i as int));
            assert(all.take(i + 1).last() == links@[i as int]@);
        }
        let ghost before = out@;
        push_text(&mut out, "<a href=\"/");
        push_escaped(&mut out, links[i].target.as_str());
        push_text(&mut out, "\">");
        push_escaped(&mut out, links[i].label.as_str());
        push_text(&mut out, "</a><br />");
        assert(out@ == before + link_line(links@[i as int]@));
        i = i + 1;
    }
    assert(all.take(i as int) == all);
    let text = string_of(out.as_slice());
    text.as_str().as_bytes_vec()
}

/// The body of the page that lists the directory `dir`, whose entries are
/// `names`: for each name one line with a link to the entry, in the order of
/// the names and with nothing between or around the lines.
pub fn list(dir: &ResolvedPath, names: &Vec<String>) -> (body: Vec<u8>)
    ensures
        body@ == encode_utf8(page(links_for(dir@, name_views(names@)))),
{
    let links = list_links(dir, names);
    render_links(&links)
}

/// A listing has exactly one link for each entry, in the order of the
/// entries. The link is labelled with the entry's name, and its target is
/// the entry's path in the filesystem with the root taken off its front.
pub proof fn lemma_one_link_per_entry(dir: ResolvedPathView, names: Seq<Seq<char>>)
    ensures
        links_for(dir, names).len() == names.len(),
        forall|i: int|
            0 <= i < names.len() ==> {
                &&& (#[trigger] links_for(dir, names)[i]).label == names[i]
                &&& located(dir.root, dir.names.push(names[i])) == with_separator(dir.root)
                    + links_for(dir, names)[i].target
            },
{
}

/// Two entries of one directory with different names have different targets.
pub proof fn lemma_targets_differ(dir: ResolvedPathView, a: Seq<char>, b: Seq<char>)
    requires
        a != b,
    ensures
        join(dir.names.push(a)) != join(dir.names.push(b)),
{
    let x = dir.names.push(a);
    let y = dir.names.push(b);
    assert(x.drop_last() == dir.names);
    assert(y.drop_last() == dir.names);
    if dir.names.len() == 0 {
        assert(join(x) == a);
        assert(join(y) == b);
    } else {
        let front = join(dir.names).push('/');
        assert(join(x) == front + a);
        assert(join(y) == front + b);
        if front + a == front + b {
            assert(a == (front + a).skip(front.len() as int));
            assert(b == (front + b).skip(front.len() as int));
        }
    }
}

/// What stands in a page for a text holds none of the characters with which
/// a tag or the value of an attribute begins or ends.
pub proof fn lemma_escape_is_inert(text: Seq<char>)
    ensures
        forall|i: int|
            0 <= i < escape(text).len() ==> {
                let c = #[trigger] escape(text)[i];
                c != '<' && c != '>' && c != '"' && c != '\''
            },
    decreases text.len(),
{
    if text.len() > 0 {
        let front = escape(text.drop_last());
        let back = escape_char(text.last());
        lemma_escape_is_inert(text.drop_last());
        assert forall|i: int| 0 <= i < escape(text).len() implies {
            let c = #[trigger] escape(text)[i];
            c != '<' && c != '>' && c != '"' && c != '\''
        } by {
            if i < front.len() {
                assert(escape(text)[i] == front[i]);
            } else {
                assert(escape(text)[i] == back[i - front.len()]);
            }
        }
    }
}

} // verus!
