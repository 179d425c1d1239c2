//! String normalization: metadata-value escaping, location spacing, UTC
//! timestamp normalization, title cleanup, and filename-stem formatting.

use vstd::prelude::*;

use crate::text::{is_ws, match_at, match_at_exec, push_char, starts_with_sub, ws_char};

verus! {

/// How one character is escaped in a metadata value: backslashes double,
/// quotes gain a backslash, newlines and carriage returns become spaces.
pub open spec fn esc_char(c: char) -> Seq<char> {
    if c == '\\' {
        seq!['\\', '\\']
    } else if c == '"' {
        seq!['\\', '"']
    } else if c == '\n' || c == '\r' {
        seq![' ']
    } else {
        seq![c]
    }
}

/// The escaped form of `s` from position `k` on, appended to `acc`.
pub open spec fn esc_from(s: Seq<char>, k: int, acc: Seq<char>) -> Seq<char>
    decreases s.len() - k,
{
    if k < 0 || k >= s.len() {
        acc
    } else {
        esc_from(s, k + 1, acc + esc_char(s[k]))
    }
}

/// The escaped form of a whole string.
pub open spec fn esc_spec(s: Seq<char>) -> Seq<char> {
    esc_from(s, 0, Seq::<char>::empty())
}

/// Escapes double quotes and backslashes for a quoted single-line metadata
/// value, and replaces newlines and carriage returns with spaces.
pub fn escape_toml_string(s: &str) -> (r: String)
    ensures
        r@ == esc_spec(s@),
{
    let n = s.unicode_len();
    let mut out = String::new();
    let mut k: usize = 0;
    while k < n
        invariant
            n == s@.len(),
            0 <= k <= n,
            esc_from(s@, k as int, out@) == esc_spec(s@),
        decreases n - k,
    {
        let ghost out0 = out@;
        let c = s.get_char(k);
        if c == '\\' {
            push_char(&mut out, '\\');
            push_char(&mut out, '\\');
        } else if c == '"' {
            push_char(&mut out, '\\');
            push_char(&mut out, '"');
        } else if c == '\n' || c == '\r' {
            push_char(&mut out, ' ');
        } else {
            push_char(&mut out, c);
        }
        assert(out@ =~= out0 + esc_char(s@[k as int]));
        k += 1;
    }
    out
}

/// The position of the first occurrence of `pat` in `s` at or after `k`,
/// or -1 when there is none.
pub open spec fn find_from(s: Seq<char>, pat: Seq<char>, k: int) -> int
    decreases s.len() - k,
{
    if k < 0 || k + pat.len() > s.len() {
        -1
    } else if pat.len() == 0 {
        k
    } else if match_at(s, pat, k) {
        k
    } else {
        find_from(s, pat, k + 1)
    }
}

/// The position of the first occurrence of `pat` in `s`, or -1.
pub open spec fn spec_find(s: Seq<char>, pat: Seq<char>) -> int {
    find_from(s, pat, 0)
}

/// The word whose spacing the location cleaner corrects.
pub open spec fn addr_seq() -> Seq<char> {
    seq!['A', 'd', 'd', 'r', 'e', 's', 's']
}

/// The location string with a single space inserted before the first
/// occurrence of "Address" when that occurrence directly follows a
/// non-whitespace character.
pub open spec fn spec_clean_location(s: Seq<char>) -> Seq<char> {
    let p = spec_find(s, addr_seq());
    if p > 0 && !is_ws(s[p - 1]) {
        s.subrange(0, p) + seq![' '] + s.subrange(p, s.len() as int)
    } else {
        s
    }
}

/// Ensures proper spacing before "Address" in a free-text location: only
/// the first occurrence is corrected, and only when it directly follows a
/// non-whitespace character.
pub fn clean_location(location: &str) -> (r: String)
    ensures
        r@ == spec_clean_location(location@),
{
    let n = location.unicode_len();
    proof {
        reveal_strlit("Address");
        assert("Address"@ =~= addr_seq());
    }
    let m = "Address".unicode_len();
    if m > n {
        return location.to_owned();
    }
    let mut k: usize = 0;
    while k <= n - m
        invariant
            n == location@.len(),
            m == 7,
            m <= n,
            0 <= k <= n - m + 1,
            spec_find(location@, addr_seq()) == find_from(location@, addr_seq(), k as int),
        decreases n - k,
    {
        proof {
            reveal_strlit("Address");
            assert("Address"@ =~= addr_seq());
        }
        if match_at_exec(location, "Address", k) {
            assert(find_from(location@, addr_seq(), k as int) == k as int);
            if k > 0 && !ws_char(location.get_char(k - 1)) {
                let mut out = location.substring_char(0, k).to_owned();
                push_char(&mut out, ' ');
                out.append(location.substring_char(k, n));
                assert(out@ =~= location@.subrange(0, k as int) + seq![' ']
                    + location@.subrange(k as int, n as int));
                return out;
            }
            return location.to_owned();
        }
        k += 1;
    }
    location.to_owned()
}

/// The UTC-normalized form of a timestamp string, when it parses as
/// `YYYY-MM-DD HH:MM:SS` followed by a `+HHMM`/`-HHMM` offset; the result
/// depends on the input characters alone.
pub uninterp spec fn utc_norm(s: Seq<char>) -> Option<Seq<char>>;

/// Relies on chrono's `DateTime::parse_from_str` with format
/// `%Y-%m-%d %H:%M:%S%z`, followed by conversion to `Utc` and formatting as
/// `%Y-%m-%dT%H:%M:%SZ`: parsing, conversion and formatting are functions
/// of the input string alone.
#[verifier::external_body]
fn utc_normalize(s: &str) -> (r: Option<String>)
    ensures
        match r {
            Some(x) => utc_norm(s@) == Some(x@),
            None => utc_norm(s@) is None,
        },
{
    match chrono::DateTime::parse_from_str(s, "%Y-%m-%d %H:%M:%S%z") {
        Ok(dt) => Some(dt.with_timezone(&chrono::Utc).format("%Y-%m-%dT%H:%M:%SZ").to_string()),
        Err(_) => None,
    }
}

/// The timestamp a post records: its UTC-normalized form when it parses,
/// the original string unchanged when it does not.
pub open spec fn conv_utc_spec(s: Seq<char>) -> Seq<char> {
    match utc_norm(s) {
        Some(t) => t,
        None => s,
    }
}

/// Converts a `YYYY-MM-DD HH:MM:SS±HHMM` timestamp to ISO-8601 UTC;
/// returns the input unchanged when it does not parse.
pub fn convert_to_utc(datetime_str: &str) -> (r: String)
    ensures
        r@ == conv_utc_spec(datetime_str@),
{
    match utc_normalize(datetime_str) {
        Some(x) => x,
        None => datetime_str.to_owned(),
    }
}

/// The entity-decoded form of a string; the result depends on the input
/// characters alone.
pub uninterp spec fn decoded_of(s: Seq<char>) -> Seq<char>;

/// Relies on `html_escape::decode_html_entities`: the decoding is a pure
/// function of the input string.
#[verifier::external_body]
fn decode_entities(s: &str) -> (r: String)
    ensures
        r@ == decoded_of(s@),
{
    html_escape::decode_html_entities(s).into_owned()
}

/// Markup-tag stripping from position `k` on: characters between `<` and
/// `>` are dropped, each `>` leaves a single space, everything else is
/// kept.
pub open spec fn strip_tags_from(s: Seq<char>, k: int, in_tag: bool, acc: Seq<char>) -> Seq<char>
    decreases s.len() - k,
{
    if k < 0 || k >= s.len() {
        acc
    } else if s[k] == '<' {
        strip_tags_from(s, k + 1, true, acc)
    } else if s[k] == '>' {
        strip_tags_from(s, k + 1, false, acc.push(' '))
    } else if !in_tag {
        strip_tags_from(s, k + 1, in_tag, acc.push(s[k]))
    } else {
        strip_tags_from(s, k + 1, in_tag, acc)
    }
}

/// Whitespace runs collapsed to single spaces, with no leading or trailing
/// space, from position `k` on; `pending` records whether a separating
/// space is owed before the next word character.
pub open spec fn squash_ws_from(s: Seq<char>, k: int, pending: bool, acc: Seq<char>) -> Seq<char>
    decreases s.len() - k,
{
    if k < 0 || k >= s.len() {
        acc
    } else if is_ws(s[k]) {
        squash_ws_from(s, k + 1, acc.len() > 0, acc)
    } else if pending {
        squash_ws_from(s, k + 1, false, acc.push(' ').push(s[k]))
    } else {
        squash_ws_from(s, k + 1, false, acc.push(s[k]))
    }
}

/// The tag-stripped, whitespace-collapsed form of a string.
pub open spec fn tidy_spec(s: Seq<char>) -> Seq<char> {
    squash_ws_from(
        strip_tags_from(s, 0, false, Seq::<char>::empty()),
        0,
        false,
        Seq::<char>::empty(),
    )
}

/// Strips markup tags and collapses whitespace runs to single spaces.
pub fn collapse_markup(s: &str) -> (r: String)
    ensures
        r@ == tidy_spec(s@),
{
    let n = s.unicode_len();
    let mut stripped = String::new();
    let mut in_tag = false;
    let mut k: usize = 0;
    while k < n
        invariant
            n == s@.len(),
            0 <= k <= n,
            strip_tags_from(s@, k as int, in_tag, stripped@) == strip_tags_from(
                s@,
                0,
                false,
                Seq::<char>::empty(),
            ),
        decreases n - k,
    {
        let c = s.get_char(k);
        if c == '<' {
            in_tag = true;
        } else if c == '>' {
            in_tag = false;
            push_char(&mut stripped, ' ');
        } else if !in_tag {
            push_char(&mut stripped, c);
        }
        k += 1;
    }
    let m = stripped.as_str().unicode_len();
    let mut out = String::new();
    let mut pending = false;
    let mut j: usize = 0;
    while j < m
        invariant
            m == stripped@.len(),
            0 <= j <= m,
            squash_ws_from(stripped@, j as int, pending, out@) == squash_ws_from(
                stripped@,
                0,
                false,
                Seq::<char>::empty(),
            ),
        decreases m - j,
    {
        let c = stripped.as_str().get_char(j);
        if ws_char(c) {
            pending = out.as_str().unicode_len() > 0;
        } else if pending {
            push_char(&mut out, ' ');
            push_char(&mut out, c);
            pending = false;
        } else {
            push_char(&mut out, c);
        }
        j += 1;
    }
    out
}

/// Cleans a document title: decodes markup entities, strips tags, and
/// collapses the whitespace the stripping leaves behind.
pub fn clean_title(title: &str) -> (r: String)
    ensures
        r@ == tidy_spec(decoded_of(title@)),
{
    let decoded = decode_entities(title);
    collapse_markup(decoded.as_str())
}

/// An ASCII decimal digit.
pub open spec fn is_digit(c: char) -> bool {
    '0' <= c && c <= '9'
}

/// The ` - ` separator that may follow a date in a filename stem.
pub open spec fn sep_seq() -> Seq<char> {
    seq![' ', '-', ' ']
}

/// `s` with every leading ` - ` separator removed.
pub open spec fn strip_sep(s: Seq<char>) -> Seq<char>
    decreases s.len(),
{
    if s.len() >= 3 && s.subrange(0, 3) == sep_seq() {
        strip_sep(s.subrange(3, s.len() as int))
    } else {
        s
    }
}

/// How one filename character is rewritten: spaces become underscores and
/// the characters `@ ! # & ( )` are dropped.
pub open spec fn fname_char(c: char) -> Seq<char> {
    if c == ' ' {
        seq!['_']
    } else if c == '@' || c == '!' || c == '#' || c == '&' || c == '(' || c == ')' {
        Seq::<char>::empty()
    } else {
        seq![c]
    }
}

/// The rewritten form of `s` from position `k` on, appended to `acc`.
pub open spec fn fname_map_from(s: Seq<char>, k: int, acc: Seq<char>) -> Seq<char>
    decreases s.len() - k,
{
    if k < 0 || k >= s.len() {
        acc
    } else {
        fname_map_from(s, k + 1, acc + fname_char(s[k]))
    }
}

/// The normalized filename stem: a leading `YYYYMMDD` becomes
/// `YYYY-MM-DD-` with the separator-stripped remainder rewritten; any
/// other stem is rewritten whole.
pub open spec fn spec_format_filename(s: Seq<char>) -> Seq<char> {
    if s.len() >= 8 && (forall|k: int| 0 <= k < 8 ==> is_digit(s[k])) {
        s.subrange(0, 4) + seq!['-'] + s.subrange(4, 6) + seq!['-'] + s.subrange(6, 8) + seq!['-']
            + fname_map_from(strip_sep(s.subrange(8, s.len() as int)), 0, Seq::<char>::empty())
    } else {
        fname_map_from(s, 0, Seq::<char>::empty())
    }
}

/// The `YYYY-MM-DD` prefix of a normalized filename stem, or empty when
/// the stem does not start with one.
pub open spec fn spec_date_prefix(s: Seq<char>) -> Seq<char> {
    if s.len() >= 10 && s[4] == '-' {
        s.subrange(0, 10)
    } else {
        Seq::<char>::empty()
    }
}

/// Extracts the `YYYY-MM-DD` prefix from a normalized filename stem, for
/// use in rewritten image paths; empty when the stem carries no date.
pub fn date_prefix_of(name: &str) -> (r: String)
    ensures
        r@ == spec_date_prefix(name@),
{
    let n = name.unicode_len();
    if n >= 10 && name.get_char(4) == '-' {
        name.substring_char(0, 10).to_owned()
    } else {
        String::new()
    }
}

/// Rewrites `s` character by character per `fname_char`.
fn fname_map(s: &str) -> (r: String)
    ensures
        r@ == fname_map_from(s@, 0, Seq::<char>::empty()),
{
    let n = s.unicode_len();
    let mut out = String::new();
    let mut k: usize = 0;
    while k < n
        invariant
            n == s@.len(),
            0 <= k <= n,
            fname_map_from(s@, k as int, out@) == fname_map_from(s@, 0, Seq::<char>::empty()),
        decreases n - k,
    {
        let ghost out0 = out@;
        let c = s.get_char(k);
        if c == ' ' {
            push_char(&mut out, '_');
        } else if c == '@' || c == '!' || c == '#' || c == '&' || c == '(' || c == ')' {
        } else {
            push_char(&mut out, c);
        }
        assert(out@ =~= out0 + fname_char(s@[k as int]));
        k += 1;
    }
    out
}

/// Normalizes a filename stem: a leading `YYYYMMDD` date is rewritten as
/// `YYYY-MM-DD-`, a following ` - ` separator is dropped, spaces become
/// underscores, and the characters `@ ! # & ( )` are removed.
pub fn format_filename_date(filename: &str) -> (r: String)
    ensures
        r@ == spec_format_filename(filename@),
{
    let n = filename.unicode_len();
    let mut all_digits = n >= 8;
    if n >= 8 {
        let mut k: usize = 0;
        while k < 8
            invariant
                n == filename@.len(),
                n >= 8,
                0 <= k <= 8,
                all_digits == (forall|t: int| 0 <= t < k ==> is_digit(filename@[t])),
            decreases 8 - k,
        {
            let c = filename.get_char(k);
            if !('0' <= c && c <= '9') {
                all_digits = false;
            }
            k += 1;
        }
    }
    if !all_digits {
        return fname_map(filename);
    }
    let mut rest = filename.substring_char(8, n).to_owned();
    proof {
        reveal_strlit(" - ");
        assert(" - "@ =~= sep_seq());
    }
    while starts_with_sub(rest.as_str(), " - ")
        invariant
            strip_sep(rest@) == strip_sep(filename@.subrange(8, filename@.len() as int)),
            " - "@ =~= sep_seq(),
        decreases rest@.len(),
    {
        let rl = rest.as_str().unicode_len();
        assert(rest@.subrange(0, 3) =~= sep_seq());
        let next = rest.as_str().substring_char(3, rl).to_owned();
        rest = next;
    }
    let mapped = fname_map(rest.as_str());
    let mut out = filename.substring_char(0, 4).to_owned();
    push_char(&mut out, '-');
    out.append(filename.substring_char(4, 6));
    push_char(&mut out, '-');
    out.append(filename.substring_char(6, 8));
    push_char(&mut out, '-');
    out.append(mapped.as_str());
    assert(out@ =~= spec_format_filename(filename@));
    out
}

} // verus!
