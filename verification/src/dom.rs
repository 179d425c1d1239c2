//! Predicates over element attributes, the Markdown link formatter, upward
//! attribute search, and the two text collectors (plain and formatted).

use vstd::prelude::*;

use crate::text::{
    contains_sub, has_substr, is_ws, push_char, str_eq_str, trim_spec, trim_str, ws_char,
};
use crate::tree::{Attr, NodeData, Tree};

verus! {

/// Some attribute named `class` has `cls` as a substring of its value.
pub open spec fn spec_has_class(attrs: Seq<Attr>, cls: Seq<char>) -> bool {
    exists|j: int|
        0 <= j < attrs.len() && (#[trigger] attrs[j]).name@ == "class"@ && has_substr(
            attrs[j].value@,
            cls,
        )
}

/// Some attribute has exactly this name and exactly this value.
pub open spec fn spec_has_attr(attrs: Seq<Attr>, name: Seq<char>, value: Seq<char>) -> bool {
    exists|j: int|
        0 <= j < attrs.len() && (#[trigger] attrs[j]).name@ == name && attrs[j].value@ == value
}

/// The value of the first attribute named `name`, from position `j` on.
pub open spec fn attr_value_from(attrs: Seq<Attr>, name: Seq<char>, j: int) -> Option<Seq<char>>
    decreases attrs.len() - j,
{
    if j < 0 || j >= attrs.len() {
        None
    } else if attrs[j].name@ == name {
        Some(attrs[j].value@)
    } else {
        attr_value_from(attrs, name, j + 1)
    }
}

/// The value of the first attribute named `name`, if any.
pub open spec fn spec_attr_value(attrs: Seq<Attr>, name: Seq<char>) -> Option<Seq<char>> {
    attr_value_from(attrs, name, 0)
}

/// True iff an attribute named `class` exists whose value contains
/// `class_name` as a substring (containment, not token equality).
pub fn has_class(attrs: &Vec<Attr>, class_name: &str) -> (b: bool)
    ensures
        b == spec_has_class(attrs@, class_name@),
{
    let n = attrs.len();
    let mut j: usize = 0;
    while j < n
        invariant
            n == attrs@.len(),
            0 <= j <= n,
            forall|t: int|
                0 <= t < j ==> !((#[trigger] attrs@[t]).name@ == "class"@ && has_substr(
                    attrs@[t].value@,
                    class_name@,
                )),
        decreases n - j,
    {
        if str_eq_str(attrs[j].name.as_str(), "class")
            && contains_sub(attrs[j].value.as_str(), class_name) {
            return true;
        }
        j += 1;
    }
    false
}

/// True iff an attribute with exactly this name and value exists.
pub fn has_attr(attrs: &Vec<Attr>, attr_name: &str, attr_value: &str) -> (b: bool)
    ensures
        b == spec_has_attr(attrs@, attr_name@, attr_value@),
{
    let n = attrs.len();
    let mut j: usize = 0;
    while j < n
        invariant
            n == attrs@.len(),
            0 <= j <= n,
            forall|t: int|
                0 <= t < j ==> !((#[trigger] attrs@[t]).name@ == attr_name@ && attrs@[t].value@
                    == attr_value@),
        decreases n - j,
    {
        if str_eq_str(attrs[j].name.as_str(), attr_name)
            && str_eq_str(attrs[j].value.as_str(), attr_value) {
            return true;
        }
        j += 1;
    }
    false
}

/// The value of the first attribute named `attr_name`, or `None`.
pub fn get_attr_value(attrs: &Vec<Attr>, attr_name: &str) -> (r: Option<String>)
    ensures
        match r {
            Some(s) => spec_attr_value(attrs@, attr_name@) == Some(s@),
            None => spec_attr_value(attrs@, attr_name@) is None,
        },
{
    let n = attrs.len();
    let mut j: usize = 0;
    while j < n
        invariant
            n == attrs@.len(),
            0 <= j <= n,
            spec_attr_value(attrs@, attr_name@) == attr_value_from(attrs@, attr_name@, j as int),
        decreases n - j,
    {
        if str_eq_str(attrs[j].name.as_str(), attr_name) {
            return Some(attrs[j].value.clone());
        }
        j += 1;
    }
    None
}

/// `buf` with a single space appended when it is nonempty and does not
/// already end in whitespace.
pub open spec fn spacer(buf: Seq<char>) -> Seq<char> {
    if buf.len() > 0 && !is_ws(buf.last()) {
        buf.push(' ')
    } else {
        buf
    }
}

/// The buffer after appending a Markdown link: angle-bracket form when the
/// label repeats the URL or is empty, labeled form otherwise, with at most
/// one separating space added first.
pub open spec fn append_link_spec(buf: Seq<char>, url: Seq<char>, label: Seq<char>) -> Seq<char> {
    if label == url || label.len() == 0 {
        spacer(buf) + seq!['<'] + url + seq!['>']
    } else {
        spacer(buf) + seq!['['] + label + seq![']', '('] + url + seq![')']
    }
}

/// Appends a Markdown link to `text`, spacing and styling it as
/// `append_link_spec` describes.
pub fn format_markdown_link(text: &mut String, href: &str, link_text: &str)
    ensures
        final(text)@ == append_link_spec(old(text)@, href@, link_text@),
{
    let n = text.as_str().unicode_len();
    if n > 0 {
        let last = text.as_str().get_char(n - 1);
        if !ws_char(last) {
            push_char(text, ' ');
        }
    }
    assert(text@ =~= spacer(old(text)@));
    if str_eq_str(link_text, href) || link_text.unicode_len() == 0 {
        push_char(text, '<');
        text.append(href);
        push_char(text, '>');
        assert(text@ =~= append_link_spec(old(text)@, href@, link_text@));
    } else {
        push_char(text, '[');
        text.append(link_text);
        push_char(text, ']');
        push_char(text, '(');
        text.append(href);
        push_char(text, ')');
        assert(text@ =~= append_link_spec(old(text)@, href@, link_text@));
    }
}

/// A label equal to the URL yields the angle-bracket form: the old buffer,
/// at most one separating space, then `<url>`.
pub proof fn lemma_append_link_same_label(buf: Seq<char>, url: Seq<char>, label: Seq<char>)
    requires
        label == url,
    ensures
        append_link_spec(buf, url, label) == spacer(buf) + seq!['<'] + url + seq!['>'],
{
}

/// A nonempty label different from the URL yields the labeled form: the old
/// buffer, at most one separating space, then `[label](url)`.
pub proof fn lemma_append_link_labeled(buf: Seq<char>, url: Seq<char>, label: Seq<char>)
    requires
        label != url,
        label.len() > 0,
    ensures
        append_link_spec(buf, url, label) == spacer(buf) + seq!['['] + label + seq![']', '(']
            + url + seq![')'],
{
}

/// The seam the formatter controls never carries two adjacent whitespace
/// characters: the buffer is preserved, the first appended character is not
/// whitespace next to a whitespace buffer end, and an inserted space is
/// followed by a non-whitespace character.
pub proof fn lemma_append_link_seam(buf: Seq<char>, url: Seq<char>, label: Seq<char>)
    ensures
        ({
            let r = append_link_spec(buf, url, label);
            &&& buf.len() < r.len()
            &&& r.subrange(0, buf.len() as int) == buf
            &&& (buf.len() > 0 && is_ws(buf.last()) ==> !is_ws(r[buf.len() as int]))
            &&& (r[buf.len() as int] == ' ' ==> buf.len() + 1 < r.len() && !is_ws(
                r[buf.len() as int + 1],
            ))
        }),
{
    let r = append_link_spec(buf, url, label);
    let sp = spacer(buf);
    assert(r.subrange(0, buf.len() as int) =~= buf);
    if buf.len() > 0 && is_ws(buf.last()) {
        assert(sp == buf);
        assert(r[buf.len() as int] == '<' || r[buf.len() as int] == '[');
    }
    if r[buf.len() as int] == ' ' {
        assert(sp == buf.push(' '));
        assert(r[buf.len() as int + 1] == '<' || r[buf.len() as int + 1] == '[');
    }
}

/// The value of the `href` attribute on the nearest strict ancestor element
/// that carries one, walking parent links only.
pub open spec fn ancestor_href(t: Tree, i: int) -> Option<Seq<char>>
    decreases i,
    when t.wf() && 0 <= i < t.nodes@.len()
{
    if i == 0 {
        None
    } else {
        let p = t.nodes@[i].parent as int;
        proof {
            assert(t.node_ok(i));
        }
        match t.nodes@[p].data {
            NodeData::Element { tag, attrs } => match spec_attr_value(attrs@, "href"@) {
                Some(v) => Some(v),
                None => ancestor_href(t, p),
            },
            _ => ancestor_href(t, p),
        }
    }
}

/// Walks strictly upward from node `i` and returns the first `href`
/// attribute value found on an ancestor element, reading the tree only.
pub fn find_parent_href(t: &Tree, i: usize) -> (r: Option<String>)
    requires
        t.wf(),
        i < t.nodes@.len(),
    ensures
        match r {
            Some(s) => ancestor_href(*t, i as int) == Some(s@),
            None => ancestor_href(*t, i as int) is None,
        },
{
    let mut cur: usize = i;
    loop
        invariant
            t.wf(),
            cur < t.nodes@.len(),
            ancestor_href(*t, i as int) == ancestor_href(*t, cur as int),
        decreases cur,
    {
        if cur == 0 {
            return None;
        }
        proof {
            assert(t.node_ok(cur as int));
        }
        let p = t.nodes[cur].parent;
        match &t.nodes[p].data {
            NodeData::Element { tag: _, attrs } => {
                match get_attr_value(attrs, "href") {
                    Some(v) => {
                        return Some(v);
                    },
                    None => {},
                }
            },
            _ => {},
        }
        cur = p;
    }
}

/// Plain text collection: the accumulator extended with every text leaf of
/// the subtree at `i`, in document order, ignoring element structure.
pub open spec fn plain_from(t: Tree, i: int, acc: Seq<char>) -> Seq<char>
    decreases t.nodes@.len() - i, 1int, 0int,
    when t.wf() && 0 <= i < t.nodes@.len()
{
    match t.nodes@[i].data {
        NodeData::Text { contents } => acc + contents@,
        _ => plain_kids(t, i, 0, acc),
    }
}

/// Plain text collection over the children of `i`, from child `j` on.
pub open spec fn plain_kids(t: Tree, i: int, j: int, acc: Seq<char>) -> Seq<char>
    decreases t.nodes@.len() - i, 0int, t.nodes@[i].children@.len() - j,
    when t.wf() && 0 <= i < t.nodes@.len() && 0 <= j <= t.nodes@[i].children@.len()
{
    if j >= t.nodes@[i].children@.len() {
        acc
    } else {
        proof {
            assert(t.node_ok(i));
        }
        plain_kids(t, i, j + 1, plain_from(t, t.nodes@[i].children@[j] as int, acc))
    }
}

/// Appends the plain text of the subtree at `i` to `out`.
fn collect_plain(t: &Tree, i: usize, out: &mut String)
    requires
        t.wf(),
        i < t.nodes@.len(),
    ensures
        final(out)@ == plain_from(*t, i as int, old(out)@),
    decreases t.nodes@.len() - i,
{
    match &t.nodes[i].data {
        NodeData::Text { contents } => {
            out.append(contents.as_str());
        },
        _ => {
            let k = t.nodes[i].children.len();
            let mut j: usize = 0;
            while j < k
                invariant
                    t.wf(),
                    i < t.nodes@.len(),
                    !(t.nodes@[i as int].data is Text),
                    k == t.nodes@[i as int].children@.len(),
                    0 <= j <= k,
                    plain_kids(*t, i as int, j as int, out@) == plain_from(
                        *t,
                        i as int,
                        old(out)@,
                    ),
                decreases k - j,
            {
                proof {
                    assert(t.node_ok(i as int));
                }
                let c = t.nodes[i].children[j];
                collect_plain(t, c, out);
                j += 1;
            }
        },
    }
}

/// The plain text of the subtree at `i`, trimmed at both ends; element
/// semantics (line breaks, links) are ignored entirely.
pub fn get_text_content(t: &Tree, i: usize) -> (r: String)
    requires
        t.wf(),
        i < t.nodes@.len(),
    ensures
        r@ == trim_spec(plain_from(*t, i as int, Seq::<char>::empty())),
{
    let mut out = String::new();
    collect_plain(t, i, &mut out);
    trim_str(out.as_str())
}

/// Formatted text collection: like `plain_from`, except that a `br` element
/// emits a newline, and an `a` element carrying an `href` emits a Markdown
/// link built from that URL and the element's trimmed plain text (its
/// subtree is not entered further).
pub open spec fn fmt_from(t: Tree, i: int, acc: Seq<char>) -> Seq<char>
    decreases t.nodes@.len() - i, 1int, 0int,
    when t.wf() && 0 <= i < t.nodes@.len()
{
    match t.nodes@[i].data {
        NodeData::Text { contents } => acc + contents@,
        NodeData::Element { tag, attrs } => if tag@ == "br"@ {
            acc.push('\n')
        } else if tag@ == "a"@ && spec_attr_value(attrs@, "href"@) is Some {
            append_link_spec(
                acc,
                spec_attr_value(attrs@, "href"@)->Some_0,
                trim_spec(plain_from(t, i, Seq::<char>::empty())),
            )
        } else {
            fmt_kids(t, i, 0, acc)
        },
        _ => fmt_kids(t, i, 0, acc),
    }
}

/// Formatted text collection over the children of `i`, from child `j` on.
pub open spec fn fmt_kids(t: Tree, i: int, j: int, acc: Seq<char>) -> Seq<char>
    decreases t.nodes@.len() - i, 0int, t.nodes@[i].children@.len() - j,
    when t.wf() && 0 <= i < t.nodes@.len() && 0 <= j <= t.nodes@[i].children@.len()
{
    if j >= t.nodes@[i].children@.len() {
        acc
    } else {
        proof {
            assert(t.node_ok(i));
        }
        fmt_kids(t, i, j + 1, fmt_from(t, t.nodes@[i].children@[j] as int, acc))
    }
}

/// Appends the formatted text of every child of `i` to `out`, in order.
fn collect_formatted_kids(t: &Tree, i: usize, out: &mut String)
    requires
        t.wf(),
        i < t.nodes@.len(),
    ensures
        final(out)@ == fmt_kids(*t, i as int, 0, old(out)@),
    decreases t.nodes@.len() - i, 0int,
{
    let k = t.nodes[i].children.len();
    let mut j: usize = 0;
    while j < k
        invariant
            t.wf(),
            i < t.nodes@.len(),
            k == t.nodes@[i as int].children@.len(),
            0 <= j <= k,
            fmt_kids(*t, i as int, j as int, out@) == fmt_kids(*t, i as int, 0, old(out)@),
        decreases k - j,
    {
        proof {
            assert(t.node_ok(i as int));
        }
        let c = t.nodes[i].children[j];
        collect_formatted(t, c, out);
        j += 1;
    }
}

/// Appends the formatted text of the subtree at `i` to `out`.
fn collect_formatted(t: &Tree, i: usize, out: &mut String)
    requires
        t.wf(),
        i < t.nodes@.len(),
    ensures
        final(out)@ == fmt_from(*t, i as int, old(out)@),
    decreases t.nodes@.len() - i, 1int,
{
    match &t.nodes[i].data {
        NodeData::Text { contents } => {
            out.append(contents.as_str());
        },
        NodeData::Element { tag, attrs } => {
            if str_eq_str(tag.as_str(), "br") {
                push_char(out, '\n');
            } else if str_eq_str(tag.as_str(), "a") {
                match get_attr_value(attrs, "href") {
                    Some(href) => {
                        let link_text = get_text_content(t, i);
                        format_markdown_link(out, href.as_str(), link_text.as_str());
                    },
                    None => {
                        collect_formatted_kids(t, i, out);
                    },
                }
            } else {
                collect_formatted_kids(t, i, out);
            }
        },
        _ => {
            collect_formatted_kids(t, i, out);
        },
    }
}

/// The formatted text of the subtree at `i`, trimmed at both ends: line
/// breaks become newlines and hyperlinks become Markdown links.
pub fn get_text_content_formatted(t: &Tree, i: usize) -> (r: String)
    requires
        t.wf(),
        i < t.nodes@.len(),
    ensures
        r@ == trim_spec(fmt_from(*t, i as int, Seq::<char>::empty())),
{
    let mut out = String::new();
    collect_formatted(t, i, &mut out);
    trim_str(out.as_str())
}

} // verus!

