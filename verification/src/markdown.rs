//! The renderer: turns an extracted record into a Markdown document with
//! TOML front matter, ordered optional sections, and one trailing newline.

use vstd::prelude::*;

use crate::models::{CommentV, PostData, PostDataV};
use crate::text::{
    is_ws, lemma_trim_end_last, push_char, trim_end_spec, trim_end_str, trim_spec, trim_str,
};
use crate::utils::{clean_title, decoded_of, esc_spec, escape_toml_string, tidy_spec};

verus! {

/// The first `n` characters of `s`, or all of it when it is shorter.
pub open spec fn trunc(s: Seq<char>, n: int) -> Seq<char> {
    if s.len() <= n {
        s
    } else {
        s.subrange(0, n)
    }
}

/// Takes the first `n` characters of `s`.
fn trunc_str(s: &str, n: usize) -> (r: String)
    ensures
        r@ == trunc(s@, n as int),
{
    let len = s.unicode_len();
    if len <= n {
        s.to_owned()
    } else {
        s.substring_char(0, n).to_owned()
    }
}

/// The final path segment of `path`: everything after the last `/`, or the
/// whole path when that segment is empty.
pub open spec fn tail_after_slash(s: Seq<char>) -> Seq<char>
    decreases s.len(),
{
    if s.len() == 0 {
        s
    } else if s.last() == '/' {
        Seq::<char>::empty()
    } else {
        tail_after_slash(s.drop_last()).push(s.last())
    }
}

/// The basename used for a rewritten image path.
pub open spec fn base_of(s: Seq<char>) -> Seq<char> {
    if tail_after_slash(s).len() == 0 {
        s
    } else {
        tail_after_slash(s)
    }
}

/// The rewritten image path: `/posts/<date_prefix>-<basename>`.
pub open spec fn spec_transform_image(path: Seq<char>, dp: Seq<char>) -> Seq<char> {
    "/posts/"@ + dp + "-"@ + base_of(path)
}

/// Rewrites an image path to `/posts/<date_prefix>-<basename>`, where the
/// basename is the part after the last `/` (the whole path when that part
/// is empty).
pub fn transform_image_path(image_path: &str, date_prefix: &str) -> (r: String)
    ensures
        r@ == spec_transform_image(image_path@, date_prefix@),
{
    let n = image_path.unicode_len();
    let mut base = String::new();
    let mut k: usize = 0;
    proof {
        assert(image_path@.subrange(0, 0) =~= Seq::<char>::empty());
    }
    while k < n
        invariant
            n == image_path@.len(),
            0 <= k <= n,
            base@ == tail_after_slash(image_path@.subrange(0, k as int)),
        decreases n - k,
    {
        let ghost pre = image_path@.subrange(0, k as int);
        let c = image_path.get_char(k);
        if c == '/' {
            base = String::new();
        } else {
            push_char(&mut base, c);
        }
        k += 1;
        proof {
            assert(image_path@.subrange(0, k as int).drop_last() =~= pre);
        }
    }
    proof {
        assert(image_path@.subrange(0, n as int) =~= image_path@);
    }
    let mut out = String::new();
    out.append("/posts/");
    out.append(date_prefix);
    out.append("-");
    if base.as_str().unicode_len() == 0 {
        out.append(image_path);
    } else {
        out.append(base.as_str());
    }
    proof {
        assert(out@ =~= spec_transform_image(image_path@, date_prefix@));
    }
    out
}

/// The front-matter title: the cleaned, escaped title when present, else
/// the escaped first 50 characters of the content with an ellipsis, else a
/// fixed fallback label.
pub open spec fn title_value(p: PostDataV) -> Seq<char> {
    if p.title.len() > 0 {
        esc_spec(tidy_spec(decoded_of(p.title)))
    } else if p.content.len() > 0 {
        esc_spec(trim_spec(trunc(p.content, 50)) + "..."@)
    } else {
        "Google+ Post"@
    }
}

/// Computes the front-matter title.
fn title_value_exec(post: &PostData) -> (r: String)
    ensures
        r@ == title_value(post@),
{
    if post.title.as_str().unicode_len() > 0 {
        let cleaned = clean_title(post.title.as_str());
        escape_toml_string(cleaned.as_str())
    } else if post.content.as_str().unicode_len() > 0 {
        let truncated = trunc_str(post.content.as_str(), 50);
        let mut trimmed = trim_str(truncated.as_str());
        trimmed.append("...");
        escape_toml_string(trimmed.as_str())
    } else {
        String::from_str("Google+ Post")
    }
}

/// The inert description line's value: the escaped, trimmed first 150
/// characters of the content, or empty.
pub open spec fn desc_value(p: PostDataV) -> Seq<char> {
    if p.content.len() > 0 {
        esc_spec(trim_spec(trunc(p.content, 150)))
    } else {
        Seq::<char>::empty()
    }
}

/// Computes the description value.
fn desc_value_exec(post: &PostData) -> (r: String)
    ensures
        r@ == desc_value(post@),
{
    if post.content.as_str().unicode_len() > 0 {
        let truncated = trunc_str(post.content.as_str(), 150);
        let trimmed = trim_str(truncated.as_str());
        escape_toml_string(trimmed.as_str())
    } else {
        String::new()
    }
}

/// The canonical-URL lines: the escaped URL with the link flag on when the
/// URL is nonempty, the empty URL with the flag off otherwise.
pub open spec fn canonical_part(p: PostDataV) -> Seq<char> {
    if p.canonical_url.len() > 0 {
        "canonicalURL = \""@ + esc_spec(p.canonical_url) + "\"\nShowCanonicalLink = true\n"@
    } else {
        "canonicalURL = \"\"\nShowCanonicalLink = false\n"@
    }
}

/// Computes the canonical-URL lines.
fn canonical_part_exec(post: &PostData) -> (r: String)
    ensures
        r@ == canonical_part(post@),
{
    if post.canonical_url.as_str().unicode_len() > 0 {
        let mut out = String::from_str("canonicalURL = \"");
        let esc = escape_toml_string(post.canonical_url.as_str());
        out.append(esc.as_str());
        out.append("\"\nShowCanonicalLink = true\n");
        out
    } else {
        String::from_str("canonicalURL = \"\"\nShowCanonicalLink = false\n")
    }
}

/// The inert author comment line, when an author was found.
pub open spec fn author_part(p: PostDataV) -> Seq<char> {
    if p.author.len() > 0 {
        "# author = \""@ + esc_spec(p.author) + "\"\n"@
    } else {
        Seq::<char>::empty()
    }
}

/// Computes the author comment line.
fn author_part_exec(post: &PostData) -> (r: String)
    ensures
        r@ == author_part(post@),
{
    if post.author.as_str().unicode_len() > 0 {
        let mut out = String::from_str("# author = \"");
        let esc = escape_toml_string(post.author.as_str());
        out.append(esc.as_str());
        out.append("\"\n");
        out
    } else {
        String::new()
    }
}

/// The whole metadata block, keys in fixed order.
pub open spec fn front_matter(p: PostDataV) -> Seq<char> {
    "+++\n"@ + "title = \""@ + title_value(p) + "\"\n"@ + "date = \""@ + esc_spec(p.date)
        + "\"\n"@ + "draft = false\n"@ + "# description = \""@ + desc_value(p) + "\"\n"@
        + canonical_part(p) + "# cover.image = \"/posts/\"\n"@ + "cover.hidden = true\n"@
        + author_part(p) + "# keywords = [\"google-plus\", \"archive\"]\n"@
        + "tags = [\"google-plus\"]\n"@ + "# ShowToc = false\n"@ + "+++\n\n"@
}

/// Builds the metadata block.
fn front_matter_exec(post: &PostData) -> (r: String)
    ensures
        r@ == front_matter(post@),
{
    let mut out = String::from_str("+++\n");
    out.append("title = \"");
    let title = title_value_exec(post);
    out.append(title.as_str());
    out.append("\"\n");
    out.append("date = \"");
    let esc_date = escape_toml_string(post.date.as_str());
    out.append(esc_date.as_str());
    out.append("\"\n");
    out.append("draft = false\n");
    out.append("# description = \"");
    let desc = desc_value_exec(post);
    out.append(desc.as_str());
    out.append("\"\n");
    let canonical = canonical_part_exec(post);
    out.append(canonical.as_str());
    out.append("# cover.image = \"/posts/\"\n");
    out.append("cover.hidden = true\n");
    let author = author_part_exec(post);
    out.append(author.as_str());
    out.append("# keywords = [\"google-plus\", \"archive\"]\n");
    out.append("tags = [\"google-plus\"]\n");
    out.append("# ShowToc = false\n");
    out.append("+++\n\n");
    out
}

/// The location line with its horizontal rule, when a location was found.
pub open spec fn location_part(p: PostDataV) -> Seq<char> {
    match p.location {
        Some(l) => "**Location:** "@ + l + "\n\n---\n\n"@,
        None => Seq::<char>::empty(),
    }
}

/// The body text, when nonempty.
pub open spec fn content_part(p: PostDataV) -> Seq<char> {
    if p.content.len() > 0 {
        p.content + "\n\n"@
    } else {
        Seq::<char>::empty()
    }
}

/// The reshare attribution line and reshared body, when present.
pub open spec fn reshare_part(p: PostDataV) -> Seq<char> {
    match p.reshare_author {
        Some(a) => {
            let head = "**Originally shared by "@ + a + "**\n\n"@;
            match p.reshare_content {
                Some(c) => head + c + "\n\n"@,
                None => head,
            }
        },
        None => Seq::<char>::empty(),
    }
}

/// The image lines from index `j` on, appended to `acc`.
pub open spec fn image_lines(imgs: Seq<Seq<char>>, dp: Seq<char>, j: int, acc: Seq<char>) -> Seq<
    char,
>
    decreases imgs.len() - j,
{
    if j < 0 || j >= imgs.len() {
        acc
    } else {
        image_lines(imgs, dp, j + 1, acc + "![Image]("@ + spec_transform_image(imgs[j], dp)
            + ")\n\n"@)
    }
}

/// The images section, when any image was found.
pub open spec fn images_part(p: PostDataV, dp: Seq<char>) -> Seq<char> {
    if p.images.len() > 0 {
        image_lines(p.images, dp, 0, "## Images\n\n"@)
    } else {
        Seq::<char>::empty()
    }
}

/// Builds the images section.
fn images_part_exec(post: &PostData, date_prefix: &str) -> (r: String)
    ensures
        r@ == images_part(post@, date_prefix@),
{
    if post.images.len() == 0 {
        return String::new();
    }
    let mut out = String::from_str("## Images\n\n");
    let n = post.images.len();
    let mut j: usize = 0;
    while j < n
        invariant
            n == post.images@.len(),
            0 <= j <= n,
            image_lines(post@.images, date_prefix@, j as int, out@) == image_lines(
                post@.images,
                date_prefix@,
                0,
                "## Images\n\n"@,
            ),
        decreases n - j,
    {
        let path = transform_image_path(post.images[j].as_str(), date_prefix);
        out.append("![Image](");
        out.append(path.as_str());
        out.append(")\n\n");
        j += 1;
    }
    out
}

/// The video section, when a video URL was found.
pub open spec fn video_part(p: PostDataV) -> Seq<char> {
    match p.video_url {
        Some(v) => "## Video\n\n[Watch Video]("@ + v + ")\n\n"@,
        None => Seq::<char>::empty(),
    }
}

/// The link bullets from index `j` on, appended to `acc`; an empty label
/// falls back to the URL.
pub open spec fn link_lines(ls: Seq<(Seq<char>, Seq<char>)>, j: int, acc: Seq<char>) -> Seq<char>
    decreases ls.len() - j,
{
    if j < 0 || j >= ls.len() {
        acc
    } else {
        let label = if ls[j].1.len() == 0 {
            ls[j].0
        } else {
            ls[j].1
        };
        link_lines(ls, j + 1, acc + "- ["@ + label + "]("@ + ls[j].0 + ")\n"@)
    }
}

/// The links section, when any embedded link was found.
pub open spec fn links_part(p: PostDataV) -> Seq<char> {
    if p.links.len() > 0 {
        link_lines(p.links, 0, "## Links\n\n"@) + "\n"@
    } else {
        Seq::<char>::empty()
    }
}

/// Builds the links section.
fn links_part_exec(post: &PostData) -> (r: String)
    ensures
        r@ == links_part(post@),
{
    if post.links.len() == 0 {
        return String::new();
    }
    let mut out = String::from_str("## Links\n\n");
    let n = post.links.len();
    let mut j: usize = 0;
    while j < n
        invariant
            n == post.links@.len(),
            0 <= j <= n,
            link_lines(post@.links, j as int, out@) == link_lines(
                post@.links,
                0,
                "## Links\n\n"@,
            ),
        decreases n - j,
    {
        out.append("- [");
        if post.links[j].1.as_str().unicode_len() == 0 {
            out.append(post.links[j].0.as_str());
        } else {
            out.append(post.links[j].1.as_str());
        }
        out.append("](");
        out.append(post.links[j].0.as_str());
        out.append(")\n");
        j += 1;
    }
    out.append("\n");
    out
}

/// The visibility line, when a visibility was found.
pub open spec fn visibility_part(p: PostDataV) -> Seq<char> {
    if p.visibility.len() > 0 {
        "**Shared with:** "@ + p.visibility + "\n\n"@
    } else {
        Seq::<char>::empty()
    }
}

/// The names from index `j` on joined onto `acc` with `", "` between them.
pub open spec fn join_names(xs: Seq<Seq<char>>, j: int, acc: Seq<char>) -> Seq<char>
    decreases xs.len() - j,
{
    if j < 0 || j >= xs.len() {
        acc
    } else if j == 0 {
        join_names(xs, j + 1, acc + xs[0])
    } else {
        join_names(xs, j + 1, acc + ", "@ + xs[j])
    }
}

/// The plus-one line, when any name was recorded.
pub open spec fn plus_part(p: PostDataV) -> Seq<char> {
    if p.plus_ones.len() > 0 {
        join_names(p.plus_ones, 0, "**+1'd by:** "@) + "\n\n"@
    } else {
        Seq::<char>::empty()
    }
}

/// Builds the plus-one line.
fn plus_part_exec(post: &PostData) -> (r: String)
    ensures
        r@ == plus_part(post@),
{
    if post.plus_ones.len() == 0 {
        return String::new();
    }
    let mut out = String::from_str("**+1'd by:** ");
    let n = post.plus_ones.len();
    let mut j: usize = 0;
    while j < n
        invariant
            n == post.plus_ones@.len(),
            0 <= j <= n,
            join_names(post@.plus_ones, j as int, out@) == join_names(
                post@.plus_ones,
                0,
                "**+1'd by:** "@,
            ),
        decreases n - j,
    {
        if j > 0 {
            out.append(", ");
        }
        out.append(post.plus_ones[j].as_str());
        j += 1;
    }
    out.append("\n\n");
    out
}

/// One rendered comment block: bold author, the date when present, the
/// content, and a closing horizontal rule.
pub open spec fn comment_block(c: CommentV, acc: Seq<char>) -> Seq<char> {
    let head = acc + "**"@ + c.author + "**"@;
    let dated = if c.date.len() > 0 {
        head + " - "@ + c.date
    } else {
        head
    };
    dated + "\n\n"@ + c.content + "\n\n---\n\n"@
}

/// The comment blocks from index `j` on, appended to `acc`.
pub open spec fn comment_blocks(cs: Seq<CommentV>, j: int, acc: Seq<char>) -> Seq<char>
    decreases cs.len() - j,
{
    if j < 0 || j >= cs.len() {
        acc
    } else {
        comment_blocks(cs, j + 1, comment_block(cs[j], acc))
    }
}

/// The comments section, when any comment was kept.
pub open spec fn comments_part(p: PostDataV) -> Seq<char> {
    if p.comments.len() > 0 {
        comment_blocks(p.comments, 0, "## Comments\n\n"@)
    } else {
        Seq::<char>::empty()
    }
}

/// Builds the comments section.
fn comments_part_exec(post: &PostData) -> (r: String)
    ensures
        r@ == comments_part(post@),
{
    if post.comments.len() == 0 {
        return String::new();
    }
    let mut out = String::from_str("## Comments\n\n");
    let n = post.comments.len();
    let mut j: usize = 0;
    while j < n
        invariant
            n == post.comments@.len(),
            0 <= j <= n,
            comment_blocks(post@.comments, j as int, out@) == comment_blocks(
                post@.comments,
                0,
                "## Comments\n\n"@,
            ),
        decreases n - j,
    {
        out.append("**");
        out.append(post.comments[j].author.as_str());
        out.append("**");
        if post.comments[j].date.as_str().unicode_len() > 0 {
            out.append(" - ");
            out.append(post.comments[j].date.as_str());
        }
        out.append("\n\n");
        out.append(post.comments[j].content.as_str());
        out.append("\n\n---\n\n");
        j += 1;
    }
    out
}

/// The whole document before final trimming: the metadata block, then each
/// optional section in fixed order.
pub open spec fn render_body(p: PostDataV, dp: Seq<char>) -> Seq<char> {
    front_matter(p) + location_part(p) + content_part(p) + reshare_part(p) + images_part(p, dp)
        + video_part(p) + links_part(p) + visibility_part(p) + plus_part(p) + comments_part(p)
}

/// The rendered document: the body with trailing whitespace trimmed and
/// exactly one newline appended.
pub open spec fn render_spec(p: PostDataV, dp: Seq<char>) -> Seq<char> {
    trim_end_spec(render_body(p, dp)).push('\n')
}

/// Renders the record as a Markdown document with TOML front matter;
/// `date_prefix` is the `YYYY-MM-DD` used in rewritten image paths.
#[verifier::rlimit(60)]
pub fn generate_markdown(post_data: &PostData, date_prefix: &str) -> (r: String)
    ensures
        r@ == render_spec(post_data@, date_prefix@),
{
    let mut body = front_matter_exec(post_data);

    match &post_data.location {
        Some(l) => {
            body.append("**Location:** ");
            body.append(l.as_str());
            body.append("\n\n---\n\n");
        },
        None => {},
    }
    assert(body@ =~= front_matter(post_data@) + location_part(post_data@));

    let ghost b1 = body@;
    if post_data.content.as_str().unicode_len() > 0 {
        body.append(post_data.content.as_str());
        body.append("\n\n");
    }
    assert(body@ =~= b1 + content_part(post_data@));

    let ghost b2 = body@;
    match &post_data.reshare_author {
        Some(a) => {
            body.append("**Originally shared by ");
            body.append(a.as_str());
            body.append("**\n\n");
            match &post_data.reshare_content {
                Some(c) => {
                    body.append(c.as_str());
                    body.append("\n\n");
                },
                None => {},
            }
        },
        None => {},
    }
    assert(body@ =~= b2 + reshare_part(post_data@));

    let images = images_part_exec(post_data, date_prefix);
    body.append(images.as_str());

    let ghost b3 = body@;
    match &post_data.video_url {
        Some(v) => {
            body.append("## Video\n\n[Watch Video](");
            body.append(v.as_str());
            body.append(")\n\n");
        },
        None => {},
    }
    assert(body@ =~= b3 + video_part(post_data@));

    let links = links_part_exec(post_data);
    body.append(links.as_str());

    let ghost b4 = body@;
    if post_data.visibility.as_str().unicode_len() > 0 {
        body.append("**Shared with:** ");
        body.append(post_data.visibility.as_str());
        body.append("\n\n");
    }
    assert(body@ =~= b4 + visibility_part(post_data@));

    let plus = plus_part_exec(post_data);
    body.append(plus.as_str());

    let comments = comments_part_exec(post_data);
    body.append(comments.as_str());

    proof {
        assert(body@ =~= render_body(post_data@, date_prefix@));
    }
    let mut out = trim_end_str(body.as_str());
    push_char(&mut out, '\n');
    out
}

/// The rendered document always ends with exactly one newline, and the
/// character before it (when there is one) is not whitespace: no trailing
/// blank lines.
pub proof fn lemma_render_trailing(p: PostDataV, dp: Seq<char>)
    ensures
        render_spec(p, dp).len() >= 1,
        render_spec(p, dp).last() == '\n',
        render_spec(p, dp).len() >= 2 ==> !is_ws(
            render_spec(p, dp)[render_spec(p, dp).len() - 2],
        ),
{
    let body = render_body(p, dp);
    lemma_trim_end_last(body);
    let r = render_spec(p, dp);
    assert(r.last() == '\n');
    if r.len() >= 2 {
        assert(r[r.len() - 2] == trim_end_spec(body).last());
    }
}

} // verus!
