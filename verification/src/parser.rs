//! The record extractor: a single pre-order walk over the tree that fills a
//! `PostData` accumulator by structural heuristics, with scoped sub-walks
//! for comments and reshared bodies.

use vstd::prelude::*;

use crate::dom::{
    ancestor_href, append_link_spec, find_parent_href, fmt_from, get_attr_value, get_text_content,
    get_text_content_formatted, has_attr, has_class, plain_from, spec_attr_value, spec_has_attr,
    spec_has_class,
};
use crate::models::{Comment, CommentV, PostData, PostDataV};
use crate::text::{
    contains_sub, has_substr, match_at, push_char, starts_with_sub, str_eq_str, trim_spec,
    trim_str,
};
use crate::tree::{Attr, NodeData, Tree};
use crate::utils::{clean_location, conv_utc_spec, convert_to_utc, spec_clean_location};

verus! {

/// The trimmed plain text of the subtree at `i`.
pub open spec fn node_text(t: Tree, i: int) -> Seq<char> {
    trim_spec(plain_from(t, i, Seq::<char>::empty()))
}

/// The trimmed formatted text of the subtree at `i`.
pub open spec fn node_fmt(t: Tree, i: int) -> Seq<char> {
    trim_spec(fmt_from(t, i, Seq::<char>::empty()))
}

/// `s` without `pre` at its front; `s` unchanged when `pre` is not there.
pub open spec fn strip_prefix_spec(s: Seq<char>, pre: Seq<char>) -> Seq<char> {
    if s.len() >= pre.len() && s.subrange(0, pre.len() as int) == pre {
        s.subrange(pre.len() as int, s.len() as int)
    } else {
        s
    }
}

/// Removes `pre` from the front of `s` once, if it is there.
fn strip_prefix_str(s: &str, pre: &str) -> (r: String)
    ensures
        r@ == strip_prefix_spec(s@, pre@),
{
    if starts_with_sub(s, pre) {
        s.substring_char(pre.unicode_len(), s.unicode_len()).to_owned()
    } else {
        s.to_owned()
    }
}

/// The name-list separator used on the plus-one line.
pub open spec fn comma_sep() -> Seq<char> {
    seq![',', ' ']
}

/// `s` split on `", "`, left to right: the finished pieces in `done`, the
/// piece being read in `cur`, the rest of the input in `s`.
pub open spec fn split_acc(s: Seq<char>, cur: Seq<char>, done: Seq<Seq<char>>) -> Seq<Seq<char>>
    decreases s.len(),
{
    if s.len() >= 2 && s.subrange(0, 2) == comma_sep() {
        split_acc(s.subrange(2, s.len() as int), Seq::<char>::empty(), done.push(cur))
    } else if s.len() == 0 {
        done.push(cur)
    } else {
        split_acc(s.drop_first(), cur.push(s[0]), done)
    }
}

/// `s` split on `", "`; the empty string yields one empty piece.
pub open spec fn split_commas(s: Seq<char>) -> Seq<Seq<char>> {
    split_acc(s, Seq::<char>::empty(), Seq::<Seq<char>>::empty())
}

/// Splits `s` on `", "`, left to right, keeping empty pieces.
fn split_on_commas(s: &str) -> (r: Vec<String>)
    ensures
        r@.map_values(|x: String| x@) == split_commas(s@),
{
    let n = s.unicode_len();
    let mut out: Vec<String> = Vec::new();
    let mut cur = String::new();
    let mut k: usize = 0;
    proof {
        assert(out@.map_values(|x: String| x@) =~= Seq::<Seq<char>>::empty());
        assert(s@.subrange(0, n as int) =~= s@);
    }
    while k < n
        invariant
            n == s@.len(),
            0 <= k <= n,
            split_acc(
                s@.subrange(k as int, n as int),
                cur@,
                out@.map_values(|x: String| x@),
            ) == split_commas(s@),
        decreases n - k,
    {
        let ghost rem = s@.subrange(k as int, n as int);
        let ghost outv = out@.map_values(|x: String| x@);
        let ghost curv = cur@;
        if k + 1 < n && s.get_char(k) == ',' && s.get_char(k + 1) == ' ' {
            proof {
                assert(rem.subrange(0, 2) =~= comma_sep());
            }
            out.push(cur);
            cur = String::new();
            k += 2;
            proof {
                assert(out@.map_values(|x: String| x@) =~= outv.push(curv));
                assert(rem.subrange(2, rem.len() as int) =~= s@.subrange(k as int, n as int));
            }
        } else {
            proof {
                if rem.len() >= 2 && rem.subrange(0, 2) == comma_sep() {
                    assert(rem.subrange(0, 2)[0] == rem[0]);
                    assert(rem.subrange(0, 2)[1] == rem[1]);
                    assert(rem[0] == s@[k as int]);
                    assert(rem[1] == s@[k as int + 1]);
                    assert(false);
                }
            }
            let c = s.get_char(k);
            push_char(&mut cur, c);
            k += 1;
            proof {
                assert(rem.drop_first() =~= s@.subrange(k as int, n as int));
                assert(rem[0] == c);
            }
        }
    }
    proof {
        assert(s@.subrange(n as int, n as int) =~= Seq::<char>::empty());
    }
    let ghost outv = out@.map_values(|x: String| x@);
    let ghost curv = cur@;
    out.push(cur);
    proof {
        assert(out@.map_values(|x: String| x@) =~= outv.push(curv));
    }
    out
}

/// An element whose class list marks it as reshare chrome: the attribution
/// line itself or an embedded-link block.
pub open spec fn skip_classes(attrs: Seq<Attr>) -> bool {
    spec_has_class(attrs, "reshare-attribution"@) || spec_has_class(attrs, "link-embed"@)
}

/// Formatted text collection that skips reshare chrome subtrees entirely;
/// otherwise exactly the formatted collector.
pub open spec fn excl_from(t: Tree, i: int, acc: Seq<char>) -> Seq<char>
    decreases t.nodes@.len() - i, 1int, 0int,
    when t.wf() && 0 <= i < t.nodes@.len()
{
    match t.nodes@[i].data {
        NodeData::Text { contents } => acc + contents@,
        NodeData::Element { tag, attrs } => if skip_classes(attrs@) {
            acc
        } else if tag@ == "br"@ {
            acc.push('\n')
        } else if tag@ == "a"@ && spec_attr_value(attrs@, "href"@) is Some {
            append_link_spec(acc, spec_attr_value(attrs@, "href"@)->Some_0, node_text(t, i))
        } else {
            excl_kids(t, i, 0, acc)
        },
        _ => excl_kids(t, i, 0, acc),
    }
}

/// The restricted collector over the children of `i`, from child `j` on.
pub open spec fn excl_kids(t: Tree, i: int, j: int, acc: Seq<char>) -> Seq<char>
    decreases t.nodes@.len() - i, 0int, t.nodes@[i].children@.len() - j,
    when t.wf() && 0 <= i < t.nodes@.len() && 0 <= j <= t.nodes@[i].children@.len()
{
    if j >= t.nodes@[i].children@.len() {
        acc
    } else {
        proof {
            assert(t.node_ok(i));
        }
        excl_kids(t, i, j + 1, excl_from(t, t.nodes@[i].children@[j] as int, acc))
    }
}

/// Appends the restricted text of every child of `i` to `out`, in order.
fn collect_excl_kids(t: &Tree, i: usize, out: &mut String)
    requires
        t.wf(),
        i < t.nodes@.len(),
    ensures
        final(out)@ == excl_kids(*t, i as int, 0, old(out)@),
    decreases t.nodes@.len() - i, 0int,
{
    let k = t.nodes[i].children.len();
    let mut j: usize = 0;
    while j < k
        invariant
            t.wf(),
            i < t.nodes@.len(),
            k == t.nodes@[i as int].children@.len(),
            0 <= j <= k,
            excl_kids(*t, i as int, j as int, out@) == excl_kids(*t, i as int, 0, old(out)@),
        decreases k - j,
    {
        proof {
            assert(t.node_ok(i as int));
        }
        let c = t.nodes[i].children[j];
        collect_excl(t, c, out);
        j += 1;
    }
}

/// Appends the restricted formatted text of the subtree at `i` to `out`.
fn collect_excl(t: &Tree, i: usize, out: &mut String)
    requires
        t.wf(),
        i < t.nodes@.len(),
    ensures
        final(out)@ == excl_from(*t, i as int, old(out)@),
    decreases t.nodes@.len() - i, 1int,
{
    match &t.nodes[i].data {
        NodeData::Text { contents } => {
            out.append(contents.as_str());
        },
        NodeData::Element { tag, attrs } => {
            if has_class(attrs, "reshare-attribution") || has_class(attrs, "link-embed") {
            } else if str_eq_str(tag.as_str(), "br") {
                push_char(out, '\n');
            } else if str_eq_str(tag.as_str(), "a") {
                match get_attr_value(attrs, "href") {
                    Some(href) => {
                        let link_text = get_text_content(t, i);
                        crate::dom::format_markdown_link(out, href.as_str(), link_text.as_str());
                    },
                    None => {
                        collect_excl_kids(t, i, out);
                    },
                }
            } else {
                collect_excl_kids(t, i, out);
            }
        },
        _ => {
            collect_excl_kids(t, i, out);
        },
    }
}

/// The reshared body belonging to the attribution node at `i`: the trimmed
/// restricted text of its parent's subtree, or `None` when that is empty or
/// `i` is the root.
pub open spec fn reshare_content_of(t: Tree, i: int) -> Option<Seq<char>> {
    if i == 0 {
        None
    } else {
        let c = trim_spec(excl_from(t, t.nodes@[i].parent as int, Seq::<char>::empty()));
        if c.len() == 0 {
            None
        } else {
            Some(c)
        }
    }
}

/// Extracts the reshared body for the attribution node at `i`.
fn extract_reshare_content(t: &Tree, i: usize) -> (r: Option<String>)
    requires
        t.wf(),
        i < t.nodes@.len(),
    ensures
        match r {
            Some(s) => reshare_content_of(*t, i as int) == Some(s@),
            None => reshare_content_of(*t, i as int) is None,
        },
{
    if i == 0 {
        return None;
    }
    proof {
        assert(t.node_ok(i as int));
    }
    let p = t.nodes[i].parent;
    let mut raw = String::new();
    collect_excl(t, p, &mut raw);
    let trimmed = trim_str(raw.as_str());
    if trimmed.as_str().unicode_len() == 0 {
        None
    } else {
        Some(trimmed)
    }
}

/// A comment accumulator with nothing found yet.
pub open spec fn empty_comment() -> CommentV {
    CommentV {
        author: Seq::<char>::empty(),
        date: Seq::<char>::empty(),
        content: Seq::<char>::empty(),
    }
}

/// The `- ` marker that may precede a comment timestamp.
pub open spec fn dash_sep() -> Seq<char> {
    seq!['-', ' ']
}

/// `s` with every leading `- ` marker removed.
pub open spec fn strip_dash_prefix(s: Seq<char>) -> Seq<char>
    decreases s.len(),
{
    if s.len() >= 2 && s.subrange(0, 2) == dash_sep() {
        strip_dash_prefix(s.subrange(2, s.len() as int))
    } else {
        s
    }
}

/// Removes every leading `- ` marker from `s`.
fn strip_dashes(s: &str) -> (r: String)
    ensures
        r@ == strip_dash_prefix(s@),
{
    let mut rest = s.to_owned();
    proof {
        reveal_strlit("- ");
        assert("- "@ =~= dash_sep());
    }
    while starts_with_sub(rest.as_str(), "- ")
        invariant
            strip_dash_prefix(rest@) == strip_dash_prefix(s@),
            "- "@ =~= dash_sep(),
        decreases rest@.len(),
    {
        let rl = rest.as_str().unicode_len();
        assert(rest@.subrange(0, 2) =~= dash_sep());
        let next = rest.as_str().substring_char(2, rl).to_owned();
        rest = next;
    }
    rest
}

/// What one node contributes to a comment accumulator: the first author
/// link, the first timestamp (dash marker stripped, then normalized), and
/// the first content block; at most one of the three per node.
pub open spec fn comment_step(t: Tree, i: int, acc: CommentV) -> CommentV {
    match t.nodes@[i].data {
        NodeData::Element { tag, attrs } => if tag@ == "a"@ && spec_has_class(attrs@, "author"@)
            && acc.author.len() == 0 {
            CommentV { author: node_text(t, i), ..acc }
        } else if spec_has_class(attrs@, "time"@) && acc.date.len() == 0 {
            CommentV {
                date: conv_utc_spec(trim_spec(strip_dash_prefix(node_text(t, i)))),
                ..acc
            }
        } else if spec_has_class(attrs@, "comment-content"@) && acc.content.len() == 0 {
            CommentV { content: node_fmt(t, i), ..acc }
        } else {
            acc
        },
        _ => acc,
    }
}

/// The comment accumulator after walking the subtree at `i`.
pub open spec fn comment_from(t: Tree, i: int, acc: CommentV) -> CommentV
    decreases t.nodes@.len() - i, 1int, 0int,
    when t.wf() && 0 <= i < t.nodes@.len()
{
    comment_kids(t, i, 0, comment_step(t, i, acc))
}

/// The comment walk over the children of `i`, from child `j` on.
pub open spec fn comment_kids(t: Tree, i: int, j: int, acc: CommentV) -> CommentV
    decreases t.nodes@.len() - i, 0int, t.nodes@[i].children@.len() - j,
    when t.wf() && 0 <= i < t.nodes@.len() && 0 <= j <= t.nodes@[i].children@.len()
{
    if j >= t.nodes@[i].children@.len() {
        acc
    } else {
        proof {
            assert(t.node_ok(i));
        }
        comment_kids(t, i, j + 1, comment_from(t, t.nodes@[i].children@[j] as int, acc))
    }
}

/// The comment extracted from the container at `i`: `Some` only when both
/// the author and the content came out nonempty; otherwise the partial data
/// is discarded.
pub open spec fn comment_of(t: Tree, i: int) -> Option<CommentV> {
    let c = comment_from(t, i, empty_comment());
    if c.author.len() > 0 && c.content.len() > 0 {
        Some(c)
    } else {
        None
    }
}

/// Walks the comment subtree at `i`, filling the accumulator.
fn comment_walk(t: &Tree, i: usize, acc: &mut Comment)
    requires
        t.wf(),
        i < t.nodes@.len(),
    ensures
        final(acc)@ == comment_from(*t, i as int, old(acc)@),
    decreases t.nodes@.len() - i,
{
    match &t.nodes[i].data {
        NodeData::Element { tag, attrs } => {
            if str_eq_str(tag.as_str(), "a") && has_class(attrs, "author")
                && acc.author.as_str().unicode_len() == 0 {
                acc.author = get_text_content(t, i);
            } else if has_class(attrs, "time") && acc.date.as_str().unicode_len() == 0 {
                let raw = get_text_content(t, i);
                let stripped = strip_dashes(raw.as_str());
                let tidy = trim_str(stripped.as_str());
                acc.date = convert_to_utc(tidy.as_str());
            } else if has_class(attrs, "comment-content") && acc.content.as_str().unicode_len()
                == 0 {
                acc.content = get_text_content_formatted(t, i);
            }
        },
        _ => {},
    }
    assert(acc@ == comment_step(*t, i as int, old(acc)@));
    let ghost stepped = acc@;
    let k = t.nodes[i].children.len();
    let mut j: usize = 0;
    while j < k
        invariant
            t.wf(),
            i < t.nodes@.len(),
            k == t.nodes@[i as int].children@.len(),
            0 <= j <= k,
            comment_kids(*t, i as int, j as int, acc@) == comment_kids(*t, i as int, 0, stepped),
        decreases k - j,
    {
        proof {
            assert(t.node_ok(i as int));
        }
        let c = t.nodes[i].children[j];
        comment_walk(t, c, acc);
        j += 1;
    }
}

/// Extracts a comment from the container at `i`; `None` when the author or
/// the content ends up empty.
fn extract_comment(t: &Tree, i: usize) -> (r: Option<Comment>)
    requires
        t.wf(),
        i < t.nodes@.len(),
    ensures
        match r {
            Some(c) => comment_of(*t, i as int) == Some(c@),
            None => comment_of(*t, i as int) is None,
        },
{
    let mut acc = Comment { author: String::new(), date: String::new(), content: String::new() };
    assert(acc@ == empty_comment());
    comment_walk(t, i, &mut acc);
    if acc.author.as_str().unicode_len() > 0 && acc.content.as_str().unicode_len() > 0 {
        Some(acc)
    } else {
        None
    }
}

/// A comment container whose sub-extraction leaves the author (or the
/// content) empty contributes nothing: the record's comment list is
/// unchanged, whatever else the container holds.
pub proof fn lemma_invalid_comment_dropped(
    t: Tree,
    i: int,
    tag: Seq<char>,
    attrs: Seq<Attr>,
    acc: PostDataV,
)
    requires
        comment_from(t, i, empty_comment()).author.len() == 0 || comment_from(
            t,
            i,
            empty_comment(),
        ).content.len() == 0,
    ensures
        rule_comments(t, i, tag, attrs, acc).comments == acc.comments,
{
}

/// Rule: the first author link (`a` with class `author`) sets the author.
pub open spec fn rule_author(
    t: Tree,
    i: int,
    tag: Seq<char>,
    attrs: Seq<Attr>,
    acc: PostDataV,
) -> PostDataV {
    if tag == "a"@ && spec_has_class(attrs, "author"@) && acc.author.len() == 0 {
        PostDataV { author: node_text(t, i), ..acc }
    } else {
        acc
    }
}

/// Rule: the first permalink (`a` whose `href` contains `/posts/`, with
/// nonempty text) sets the normalized date and the canonical URL together.
pub open spec fn rule_date(
    t: Tree,
    i: int,
    tag: Seq<char>,
    attrs: Seq<Attr>,
    acc: PostDataV,
) -> PostDataV {
    if tag == "a"@ && acc.date.len() == 0 && spec_attr_value(attrs, "href"@) is Some && has_substr(
        spec_attr_value(attrs, "href"@)->Some_0,
        "/posts/"@,
    ) && node_text(t, i).len() > 0 {
        PostDataV {
            date: conv_utc_spec(node_text(t, i)),
            canonical_url: spec_attr_value(attrs, "href"@)->Some_0,
            ..acc
        }
    } else {
        acc
    }
}

/// Rule: a `main-content` container overwrites the body text (last match
/// wins).
pub open spec fn rule_content(
    t: Tree,
    i: int,
    tag: Seq<char>,
    attrs: Seq<Attr>,
    acc: PostDataV,
) -> PostDataV {
    if spec_has_class(attrs, "main-content"@) {
        PostDataV { content: node_fmt(t, i), ..acc }
    } else {
        acc
    }
}

/// Rule: the first `title` element with nonempty text other than the
/// placeholder sets the title.
pub open spec fn rule_title(
    t: Tree,
    i: int,
    tag: Seq<char>,
    attrs: Seq<Attr>,
    acc: PostDataV,
) -> PostDataV {
    if tag == "title"@ && acc.title.len() == 0 && node_text(t, i).len() > 0 && node_text(t, i)
        != "Google+ post"@ {
        PostDataV { title: node_text(t, i), ..acc }
    } else {
        acc
    }
}

/// Rule: a `location` container sets the cleaned location.
pub open spec fn rule_location(
    t: Tree,
    i: int,
    tag: Seq<char>,
    attrs: Seq<Attr>,
    acc: PostDataV,
) -> PostDataV {
    if spec_has_class(attrs, "location"@) {
        PostDataV { location: Some(spec_clean_location(node_text(t, i))), ..acc }
    } else {
        acc
    }
}

/// Rule: a media image (`img` with class `media` and a `src`) appends its
/// source path.
pub open spec fn rule_images(
    t: Tree,
    i: int,
    tag: Seq<char>,
    attrs: Seq<Attr>,
    acc: PostDataV,
) -> PostDataV {
    if tag == "img"@ && spec_has_class(attrs, "media"@) && spec_attr_value(attrs, "src"@) is Some {
        PostDataV { images: acc.images.push(spec_attr_value(attrs, "src"@)->Some_0), ..acc }
    } else {
        acc
    }
}

/// Rule: a video placeholder takes the nearest ancestor `href` as the video
/// URL, when one exists.
pub open spec fn rule_video(
    t: Tree,
    i: int,
    tag: Seq<char>,
    attrs: Seq<Attr>,
    acc: PostDataV,
) -> PostDataV {
    if spec_has_class(attrs, "video-placeholder"@) && ancestor_href(t, i) is Some {
        PostDataV { video_url: ancestor_href(t, i), ..acc }
    } else {
        acc
    }
}

/// Rule: an embedded link (`a` with `rel="nofollow"` or class `link-embed`,
/// carrying an `href`) appends a (URL, label) pair.
pub open spec fn rule_links(
    t: Tree,
    i: int,
    tag: Seq<char>,
    attrs: Seq<Attr>,
    acc: PostDataV,
) -> PostDataV {
    if tag == "a"@ && (spec_has_attr(attrs, "rel"@, "nofollow"@) || spec_has_class(
        attrs,
        "link-embed"@,
    )) && spec_attr_value(attrs, "href"@) is Some {
        PostDataV {
            links: acc.links.push((spec_attr_value(attrs, "href"@)->Some_0, node_text(t, i))),
            ..acc
        }
    } else {
        acc
    }
}

/// Rule: a `visibility` line overwrites the visibility, its fixed prefix
/// stripped (last match wins).
pub open spec fn rule_visibility(
    t: Tree,
    i: int,
    tag: Seq<char>,
    attrs: Seq<Attr>,
    acc: PostDataV,
) -> PostDataV {
    if spec_has_class(attrs, "visibility"@) {
        PostDataV { visibility: strip_prefix_spec(node_text(t, i), "Shared with: "@), ..acc }
    } else {
        acc
    }
}

/// Rule: a plus-one line starting with the fixed prefix replaces the name
/// list with the remainder split on `", "`.
pub open spec fn rule_plus_ones(
    t: Tree,
    i: int,
    tag: Seq<char>,
    attrs: Seq<Attr>,
    acc: PostDataV,
) -> PostDataV {
    if spec_has_class(attrs, "plus-oners"@) && match_at(node_text(t, i), "+1'd by: "@, 0) {
        PostDataV {
            plus_ones: split_commas(strip_prefix_spec(node_text(t, i), "+1'd by: "@)),
            ..acc
        }
    } else {
        acc
    }
}

/// Rule: a reshare attribution sets the reshare author (prefix stripped)
/// and, when its parent's restricted text is nonempty, the reshared body.
pub open spec fn rule_reshare(
    t: Tree,
    i: int,
    tag: Seq<char>,
    attrs: Seq<Attr>,
    acc: PostDataV,
) -> PostDataV {
    if tag == "a"@ && spec_has_class(attrs, "reshare-attribution"@) {
        let withauthor = PostDataV {
            reshare_author: Some(strip_prefix_spec(node_text(t, i), "Originally shared by "@)),
            ..acc
        };
        match reshare_content_of(t, i) {
            Some(c) => PostDataV { reshare_content: Some(c), ..withauthor },
            None => withauthor,
        }
    } else {
        acc
    }
}

/// Rule: a `comment` container appends its extracted comment when the
/// sub-extraction yields a valid one.
pub open spec fn rule_comments(
    t: Tree,
    i: int,
    tag: Seq<char>,
    attrs: Seq<Attr>,
    acc: PostDataV,
) -> PostDataV {
    if spec_has_class(attrs, "comment"@) {
        match comment_of(t, i) {
            Some(c) => PostDataV { comments: acc.comments.push(c), ..acc },
            None => acc,
        }
    } else {
        acc
    }
}

/// All twelve rules applied to one element node, in their fixed priority
/// order.
pub open spec fn apply_elem(
    t: Tree,
    i: int,
    tag: Seq<char>,
    attrs: Seq<Attr>,
    acc: PostDataV,
) -> PostDataV {
    let a1 = rule_author(t, i, tag, attrs, acc);
    let a2 = rule_date(t, i, tag, attrs, a1);
    let a3 = rule_content(t, i, tag, attrs, a2);
    let a4 = rule_title(t, i, tag, attrs, a3);
    let a5 = rule_location(t, i, tag, attrs, a4);
    let a6 = rule_images(t, i, tag, attrs, a5);
    let a7 = rule_video(t, i, tag, attrs, a6);
    let a8 = rule_links(t, i, tag, attrs, a7);
    let a9 = rule_visibility(t, i, tag, attrs, a8);
    let a10 = rule_plus_ones(t, i, tag, attrs, a9);
    let a11 = rule_reshare(t, i, tag, attrs, a10);
    rule_comments(t, i, tag, attrs, a11)
}

/// What one node contributes to the record: the element rules when it is an
/// element, nothing otherwise.
pub open spec fn apply_at(t: Tree, i: int, acc: PostDataV) -> PostDataV {
    match t.nodes@[i].data {
        NodeData::Element { tag, attrs } => apply_elem(t, i, tag@, attrs@, acc),
        _ => acc,
    }
}

/// The record after the pre-order walk of the subtree at `i`.
pub open spec fn extract_from(t: Tree, i: int, acc: PostDataV) -> PostDataV
    decreases t.nodes@.len() - i, 1int, 0int,
    when t.wf() && 0 <= i < t.nodes@.len()
{
    extract_kids(t, i, 0, apply_at(t, i, acc))
}

/// The walk over the children of `i`, from child `j` on.
pub open spec fn extract_kids(t: Tree, i: int, j: int, acc: PostDataV) -> PostDataV
    decreases t.nodes@.len() - i, 0int, t.nodes@[i].children@.len() - j,
    when t.wf() && 0 <= i < t.nodes@.len() && 0 <= j <= t.nodes@[i].children@.len()
{
    if j >= t.nodes@[i].children@.len() {
        acc
    } else {
        proof {
            assert(t.node_ok(i));
        }
        extract_kids(t, i, j + 1, extract_from(t, t.nodes@[i].children@[j] as int, acc))
    }
}

/// The record extracted from the whole tree.
pub open spec fn extract_spec(t: Tree) -> PostDataV {
    extract_from(t, 0, crate::models::empty_post())
}

/// Applies the author rule at node `i`.
fn step_author(t: &Tree, i: usize, tag: &String, attrs: &Vec<Attr>, post: &mut PostData)
    requires
        t.wf(),
        i < t.nodes@.len(),
    ensures
        final(post)@ == rule_author(*t, i as int, tag@, attrs@, old(post)@),
{
    if str_eq_str(tag.as_str(), "a") && has_class(attrs, "author")
        && post.author.as_str().unicode_len() == 0 {
        post.author = get_text_content(t, i);
    }
}

/// Applies the date/permalink rule at node `i`.
fn step_date(t: &Tree, i: usize, tag: &String, attrs: &Vec<Attr>, post: &mut PostData)
    requires
        t.wf(),
        i < t.nodes@.len(),
    ensures
        final(post)@ == rule_date(*t, i as int, tag@, attrs@, old(post)@),
{
    if str_eq_str(tag.as_str(), "a") && post.date.as_str().unicode_len() == 0 {
        match get_attr_value(attrs, "href") {
            Some(href) => {
                if contains_sub(href.as_str(), "/posts/") {
                    let date_text = get_text_content(t, i);
                    if date_text.as_str().unicode_len() > 0 {
                        post.date = convert_to_utc(date_text.as_str());
                        post.canonical_url = href;
                    }
                }
            },
            None => {},
        }
    }
}

/// Applies the main-content rule at node `i`.
fn step_content(t: &Tree, i: usize, tag: &String, attrs: &Vec<Attr>, post: &mut PostData)
    requires
        t.wf(),
        i < t.nodes@.len(),
    ensures
        final(post)@ == rule_content(*t, i as int, tag@, attrs@, old(post)@),
{
    if has_class(attrs, "main-content") {
        post.content = get_text_content_formatted(t, i);
    }
}

/// Applies the title rule at node `i`.
fn step_title(t: &Tree, i: usize, tag: &String, attrs: &Vec<Attr>, post: &mut PostData)
    requires
        t.wf(),
        i < t.nodes@.len(),
    ensures
        final(post)@ == rule_title(*t, i as int, tag@, attrs@, old(post)@),
{
    if str_eq_str(tag.as_str(), "title") && post.title.as_str().unicode_len() == 0 {
        let title_text = get_text_content(t, i);
        if title_text.as_str().unicode_len() > 0 && !str_eq_str(
            title_text.as_str(),
            "Google+ post",
        ) {
            post.title = title_text;
        }
    }
}

/// Applies the location rule at node `i`.
fn step_location(t: &Tree, i: usize, tag: &String, attrs: &Vec<Attr>, post: &mut PostData)
    requires
        t.wf(),
        i < t.nodes@.len(),
    ensures
        final(post)@ == rule_location(*t, i as int, tag@, attrs@, old(post)@),
{
    if has_class(attrs, "location") {
        let location_text = get_text_content(t, i);
        post.location = Some(clean_location(location_text.as_str()));
    }
}

/// Applies the media-image rule at node `i`.
fn step_images(t: &Tree, i: usize, tag: &String, attrs: &Vec<Attr>, post: &mut PostData)
    requires
        t.wf(),
        i < t.nodes@.len(),
    ensures
        final(post)@ == rule_images(*t, i as int, tag@, attrs@, old(post)@),
{
    if str_eq_str(tag.as_str(), "img") && has_class(attrs, "media") {
        match get_attr_value(attrs, "src") {
            Some(src) => {
                post.images.push(src);
                assert(post@.images =~= old(post)@.images.push(
                    spec_attr_value(attrs@, "src"@)->Some_0,
                ));
            },
            None => {},
        }
    }
}

/// Applies the video-placeholder rule at node `i`.
fn step_video(t: &Tree, i: usize, tag: &String, attrs: &Vec<Attr>, post: &mut PostData)
    requires
        t.wf(),
        i < t.nodes@.len(),
    ensures
        final(post)@ == rule_video(*t, i as int, tag@, attrs@, old(post)@),
{
    if has_class(attrs, "video-placeholder") {
        match find_parent_href(t, i) {
            Some(href) => {
                post.video_url = Some(href);
            },
            None => {},
        }
    }
}

/// Applies the embedded-link rule at node `i`.
fn step_links(t: &Tree, i: usize, tag: &String, attrs: &Vec<Attr>, post: &mut PostData)
    requires
        t.wf(),
        i < t.nodes@.len(),
    ensures
        final(post)@ == rule_links(*t, i as int, tag@, attrs@, old(post)@),
{
    if str_eq_str(tag.as_str(), "a") && (has_attr(attrs, "rel", "nofollow") || has_class(
        attrs,
        "link-embed",
    )) {
        match get_attr_value(attrs, "href") {
            Some(href) => {
                let label = get_text_content(t, i);
                post.links.push((href, label));
                assert(post@.links =~= old(post)@.links.push(
                    (spec_attr_value(attrs@, "href"@)->Some_0, node_text(*t, i as int)),
                ));
            },
            None => {},
        }
    }
}

/// Applies the visibility rule at node `i`.
fn step_visibility(t: &Tree, i: usize, tag: &String, attrs: &Vec<Attr>, post: &mut PostData)
    requires
        t.wf(),
        i < t.nodes@.len(),
    ensures
        final(post)@ == rule_visibility(*t, i as int, tag@, attrs@, old(post)@),
{
    if has_class(attrs, "visibility") {
        let text = get_text_content(t, i);
        post.visibility = strip_prefix_str(text.as_str(), "Shared with: ");
    }
}

/// Applies the plus-one rule at node `i`.
fn step_plus_ones(t: &Tree, i: usize, tag: &String, attrs: &Vec<Attr>, post: &mut PostData)
    requires
        t.wf(),
        i < t.nodes@.len(),
    ensures
        final(post)@ == rule_plus_ones(*t, i as int, tag@, attrs@, old(post)@),
{
    if has_class(attrs, "plus-oners") {
        let text = get_text_content(t, i);
        if starts_with_sub(text.as_str(), "+1'd by: ") {
            let names = strip_prefix_str(text.as_str(), "+1'd by: ");
            post.plus_ones = split_on_commas(names.as_str());
        }
    }
}

/// Applies the reshare-attribution rule at node `i`.
fn step_reshare(t: &Tree, i: usize, tag: &String, attrs: &Vec<Attr>, post: &mut PostData)
    requires
        t.wf(),
        i < t.nodes@.len(),
    ensures
        final(post)@ == rule_reshare(*t, i as int, tag@, attrs@, old(post)@),
{
    if str_eq_str(tag.as_str(), "a") && has_class(attrs, "reshare-attribution") {
        let text = get_text_content(t, i);
        post.reshare_author = Some(strip_prefix_str(text.as_str(), "Originally shared by "));
        match extract_reshare_content(t, i) {
            Some(c) => {
                post.reshare_content = Some(c);
            },
            None => {},
        }
    }
}

/// Applies the comment-container rule at node `i`.
fn step_comments(t: &Tree, i: usize, tag: &String, attrs: &Vec<Attr>, post: &mut PostData)
    requires
        t.wf(),
        i < t.nodes@.len(),
    ensures
        final(post)@ == rule_comments(*t, i as int, tag@, attrs@, old(post)@),
{
    if has_class(attrs, "comment") {
        match extract_comment(t, i) {
            Some(c) => {
                let ghost v0 = post@;
                post.comments.push(c);
                assert(post@.comments =~= v0.comments.push(comment_of(*t, i as int)->Some_0));
            },
            None => {},
        }
    }
}

/// Applies the element rules at node `i` to the accumulator, in order.
fn apply_node(t: &Tree, i: usize, post: &mut PostData)
    requires
        t.wf(),
        i < t.nodes@.len(),
    ensures
        final(post)@ == apply_at(*t, i as int, old(post)@),
{
    match &t.nodes[i].data {
        NodeData::Element { tag, attrs } => {
            step_author(t, i, tag, attrs, post);
            step_date(t, i, tag, attrs, post);
            step_content(t, i, tag, attrs, post);
            step_title(t, i, tag, attrs, post);
            step_location(t, i, tag, attrs, post);
            step_images(t, i, tag, attrs, post);
            step_video(t, i, tag, attrs, post);
            step_links(t, i, tag, attrs, post);
            step_visibility(t, i, tag, attrs, post);
            step_plus_ones(t, i, tag, attrs, post);
            step_reshare(t, i, tag, attrs, post);
            step_comments(t, i, tag, attrs, post);
        },
        _ => {},
    }
}

/// The pre-order walk: applies the rules at `i`, then recurses into every
/// child in order.
fn find_post_elements(t: &Tree, i: usize, post: &mut PostData)
    requires
        t.wf(),
        i < t.nodes@.len(),
    ensures
        final(post)@ == extract_from(*t, i as int, old(post)@),
    decreases t.nodes@.len() - i,
{
    apply_node(t, i, post);
    let ghost stepped = post@;
    let k = t.nodes[i].children.len();
    let mut j: usize = 0;
    while j < k
        invariant
            t.wf(),
            i < t.nodes@.len(),
            k == t.nodes@[i as int].children@.len(),
            0 <= j <= k,
            extract_kids(*t, i as int, j as int, post@) == extract_kids(*t, i as int, 0, stepped),
        decreases k - j,
    {
        proof {
            assert(t.node_ok(i as int));
        }
        let c = t.nodes[i].children[j];
        find_post_elements(t, c, post);
        j += 1;
    }
}

/// Extracts the structured record from the whole tree in one pre-order
/// pass.
pub fn extract_post_data(t: &Tree) -> (r: PostData)
    requires
        t.wf(),
    ensures
        r@ == extract_spec(*t),
{
    let mut post = PostData::default();
    find_post_elements(t, 0, &mut post);
    post
}

} // verus!

