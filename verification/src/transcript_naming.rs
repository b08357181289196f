//! Conversation-name resolution from a coding-agent session transcript.
//!
//! A dormant task is named from its transcript; the first acceptable
//! candidate wins:
//!
//! 1. the **last** `ai-title` (or `agent-name`) record in a tail read of the
//!    transcript, which is where a `/rename` lands;
//! 2. the last title record inside the head read;
//! 3. the **first** real user prompt in the head read;
//! 4. the transcript's `slug`, de-kebabed.
//!
//! Every candidate is tidied (whitespace collapsed, ellipsized to
//! [`MAX_LABEL_LEN`] characters) and rejected when it is empty, a bare hex
//! blob, the directory name itself, or the CLI's `<dir>-<2hex>` default.
//!
//! The reads themselves are I/O and happen outside the library; these
//! functions take the text that was read.
use vstd::prelude::*;
use crate::json::{
    Json, parsed_json, json_get, json_as_str, json_as_bool, opt_chars, opt_string, parse_json,
    get, get_str, get_bool,
};
use crate::text::{
    is_ws, is_hex_digit, ascii_lower, trim, collapse_ws, trim_end, contains_seq, starts_with,
    replace_char, remove_char, pieces, lines, chars_of, string_of, is_hex_digit_char,
    eq_ignore_ascii_case_char, eq_lit, contains_lit, starts_with_lit, matches_at, trim_chars,
    trim_end_chars, collapse_whitespace, replace_chars, remove_chars, split_lines, split_pieces,
    spaced_words, lemma_collapse_spaced, lemma_collapse_of_spaced, lemma_spaced_prefix,
    lemma_trim_end_spaced, strip_cr, lemma_lines_append_line,
};

verus! {

/// Maximum length, in characters, of a derived label.
pub const MAX_LABEL_LEN: usize = 80;

// ---------------------------------------------------------------------------
// What a label is

/// `tidy`: whitespace collapsed; a result longer than [`MAX_LABEL_LEN`]
/// characters is cut to `MAX_LABEL_LEN - 1` characters, trimmed at the end,
/// and closed with `'…'`.
pub open spec fn tidy_spec(candidate: Seq<char>) -> Seq<char> {
    let collapsed = collapse_ws(candidate);
    if collapsed.len() <= MAX_LABEL_LEN {
        collapsed
    } else {
        trim_end(collapsed.take(MAX_LABEL_LEN - 1)).push('\u{2026}')
    }
}

/// Nothing but hex digits once hyphens are dropped, and at least eight of
/// them.
pub open spec fn is_hex_blob_spec(candidate: Seq<char>) -> bool {
    let digits = remove_char(candidate, '-');
    digits.len() >= 8 && forall|i: int| 0 <= i < digits.len() ==> is_hex_digit(#[trigger] digits[i])
}

/// The last component of a path that names something
/// (`Path::file_name`): empty and `.` components do not count, and a path
/// whose last such component is `..` has none.
pub open spec fn last_named_component(components: Seq<Seq<char>>) -> Option<Seq<char>>
    decreases components.len(),
{
    if components.len() == 0 {
        None
    } else if components.last().len() == 0 || components.last() == "."@ {
        last_named_component(components.drop_last())
    } else {
        Some(components.last())
    }
}

/// `Path::file_name` of a `/`-separated path.
pub open spec fn file_name_spec(path: Seq<char>) -> Option<Seq<char>> {
    match last_named_component(pieces(path, '/')) {
        Some(name) => if name == ".."@ {
            None
        } else {
            Some(name)
        },
        None => None,
    }
}

/// `str::eq_ignore_ascii_case`.
pub open spec fn eq_ignore_ascii_case_spec(a: Seq<char>, b: Seq<char>) -> bool {
    a.len() == b.len() && forall|i: int| 0 <= i < a.len() ==> #[trigger] ascii_lower(a[i]) == ascii_lower(b[i])
}

/// The CLI's auto-generated display name `<basename>-<2 hex digits>`.
pub open spec fn is_derived_name(candidate: Seq<char>, basename: Seq<char>) -> bool {
    &&& candidate.len() == basename.len() + 3
    &&& starts_with(candidate, basename)
    &&& candidate[basename.len() as int] == '-'
    &&& is_hex_digit(candidate[basename.len() + 1int])
    &&& is_hex_digit(candidate[basename.len() + 2int])
}

/// Whether a (tidied) candidate may name a session run in `cwd`: not empty
/// or whitespace only, not a hex blob, and, where `cwd` has a file name, neither that name (in
/// any ASCII case) nor the CLI's `<name>-<2hex>` default.
pub open spec fn is_acceptable_spec(candidate: Seq<char>, cwd: Seq<char>) -> bool {
    &&& candidate.len() != 0
    &&& trim(candidate).len() != 0
    &&& !is_hex_blob_spec(candidate)
    &&& match file_name_spec(cwd) {
        None => true,
        Some(basename) => !eq_ignore_ascii_case_spec(candidate, basename) && !is_derived_name(
            candidate,
            basename,
        ),
    }
}

// ---------------------------------------------------------------------------
// What a record says

/// The record's `type` string.
pub open spec fn record_type(record: Json) -> Option<Seq<char>> {
    json_as_str(json_get(record, "type"@))
}

/// `ai-title` or its `agent-name` mirror.
pub open spec fn is_title_type(t: Seq<char>) -> bool {
    t == "ai-title"@ || t == "agent-name"@
}

/// The name field of a title record: `aiTitle` where that key is present
/// (a string or not), else `agentName`.
pub open spec fn title_text_spec(record: Json) -> Option<Seq<char>> {
    match json_get(record, "aiTitle"@) {
        Some(v) => json_as_str(Some(v)),
        None => json_as_str(json_get(record, "agentName"@)),
    }
}

/// The title a record carries, if it is a title record.
pub open spec fn record_title(record: Json) -> Option<Seq<char>> {
    match record_type(record) {
        Some(t) => if is_title_type(t) {
            title_text_spec(record)
        } else {
            None
        },
        None => None,
    }
}

/// The line mentions a title record type.
pub open spec fn looks_like_title(line: Seq<char>) -> bool {
    contains_seq(line, "\"ai-title\""@) || contains_seq(line, "\"agent-name\""@)
}

/// The title carried by a single transcript line: only a line that
/// mentions a title type is parsed at all.
pub open spec fn line_title(line: Seq<char>) -> Option<Seq<char>> {
    if !looks_like_title(line) {
        None
    } else {
        match parsed_json(line) {
            Some(record) => record_title(record),
            None => None,
        }
    }
}

/// The `text` of the first content block that has a string one.
pub open spec fn first_block_text(blocks: Seq<Json>) -> Option<Seq<char>>
    decreases blocks.len(),
{
    if blocks.len() == 0 {
        None
    } else {
        match json_as_str(json_get(blocks[0], "text"@)) {
            Some(t) => Some(t),
            None => first_block_text(blocks.drop_first()),
        }
    }
}

/// `message.content` of a record: the string itself, or the first block
/// text of an array; nothing for any other shape.
pub open spec fn user_prompt_spec(record: Json) -> Option<Seq<char>> {
    match json_get(record, "message"@) {
        Some(message) => match json_get(message, "content"@) {
            Some(Json::Str(s)) => Some(s@),
            Some(Json::Array(blocks)) => first_block_text(blocks@),
            _ => None,
        },
        None => None,
    }
}

/// The prompt a user typed: not a sidechain replay, and not an injected
/// wrapper (`<…`) or `Caveat:` preamble once trimmed.
pub open spec fn real_user_prompt_spec(record: Json) -> Option<Seq<char>> {
    if json_as_bool(json_get(record, "isSidechain"@)) == Some(true) {
        None
    } else {
        match user_prompt_spec(record) {
            Some(text) => if starts_with(trim(text), "<"@) || starts_with(trim(text), "Caveat:"@) {
                None
            } else {
                Some(text)
            },
            None => None,
        }
    }
}

// ---------------------------------------------------------------------------
// The tiers

/// Candidates gathered by the head scan: the last title, the first real
/// user prompt, and the de-kebabed slug.
pub type Candidates = (Option<Seq<char>>, Option<Seq<char>>, Option<Seq<char>>);

/// What one parsed head record adds to the candidates. The slug is taken
/// from the first record that has a string one, whatever its type.
pub open spec fn record_step(c: Candidates, record: Json) -> Candidates {
    let slug = match c.2 {
        Some(s) => Some(s),
        None => match json_as_str(json_get(record, "slug"@)) {
            Some(text) => Some(replace_char(text, '-', ' ')),
            None => None,
        },
    };
    match record_type(record) {
        Some(t) => if is_title_type(t) {
            (
                match title_text_spec(record) {
                    Some(title) => Some(title),
                    None => c.0,
                },
                c.1,
                slug,
            )
        } else if t == "user"@ {
            (
                c.0,
                match c.1 {
                    Some(p) => Some(p),
                    None => real_user_prompt_spec(record),
                },
                slug,
            )
        } else {
            (c.0, c.1, slug)
        },
        None => (c.0, c.1, slug),
    }
}

/// What one head line adds: a line that could not matter (no title type,
/// no `"user"` while the prompt is missing, no `"slug"` while the slug is
/// missing) or that does not parse adds nothing.
pub open spec fn line_step(c: Candidates, line: Seq<char>) -> Candidates {
    let looks_user = c.1 is None && contains_seq(line, "\"user\""@);
    let looks_slug = c.2 is None && contains_seq(line, "\"slug\""@);
    if !looks_like_title(line) && !looks_user && !looks_slug {
        c
    } else {
        match parsed_json(line) {
            Some(record) => record_step(c, record),
            None => c,
        }
    }
}

/// The candidates gathered from `lines`, first to last.
pub open spec fn head_candidates(lines: Seq<Seq<char>>) -> Candidates
    decreases lines.len(),
{
    if lines.len() == 0 {
        (None, None, None)
    } else {
        line_step(head_candidates(lines.drop_last()), lines.last())
    }
}

/// The first candidate that, tidied, is acceptable; tidied.
pub open spec fn first_acceptable(candidates: Seq<Option<Seq<char>>>, cwd: Seq<char>) -> Option<
    Seq<char>,
>
    decreases candidates.len(),
{
    if candidates.len() == 0 {
        None
    } else {
        match candidates[0] {
            Some(c) => if is_acceptable_spec(tidy_spec(c), cwd) {
                Some(tidy_spec(c))
            } else {
                first_acceptable(candidates.drop_first(), cwd)
            },
            None => first_acceptable(candidates.drop_first(), cwd),
        }
    }
}

/// The label of the head tiers: last title, then first real prompt, then
/// slug.
pub open spec fn head_label(head: Seq<char>, cwd: Seq<char>) -> Option<Seq<char>> {
    let c = head_candidates(lines(head));
    first_acceptable(seq![c.0, c.1, c.2], cwd)
}

/// The newest acceptable title among `lines`, walking from the last line.
pub open spec fn newest_title(lines: Seq<Seq<char>>, cwd: Seq<char>) -> Option<Seq<char>>
    decreases lines.len(),
{
    if lines.len() == 0 {
        None
    } else {
        match line_title(lines.last()) {
            Some(t) => if is_acceptable_spec(tidy_spec(t), cwd) {
                Some(tidy_spec(t))
            } else {
                newest_title(lines.drop_last(), cwd)
            },
            None => newest_title(lines.drop_last(), cwd),
        }
    }
}

/// The label of the tail tier.
pub open spec fn tail_label(tail: Seq<char>, cwd: Seq<char>) -> Option<Seq<char>> {
    newest_title(lines(tail), cwd)
}

/// The label for a transcript whose tail read gave `tail` and whose head
/// read gave `head` (`None`: the read failed): the tail tier first, then
/// the head tiers.
pub open spec fn resolved_label(
    tail: Option<Seq<char>>,
    head: Option<Seq<char>>,
    cwd: Seq<char>,
) -> Option<Seq<char>> {
    let from_tail = match tail {
        Some(t) => tail_label(t, cwd),
        None => None,
    };
    match from_tail {
        Some(label) => Some(label),
        None => match head {
            Some(h) => head_label(h, cwd),
            None => None,
        },
    }
}

/// The view of an optional `&str`.
pub open spec fn opt_str(v: Option<&str>) -> Option<Seq<char>> {
    match v {
        Some(s) => Some(s@),
        None => None,
    }
}

// ---------------------------------------------------------------------------
// Label rules

/// Whitespace collapsed and ellipsized, on characters.
pub fn tidy_chars(candidate: &[char]) -> (r: Vec<char>)
    ensures
        r@ == tidy_spec(candidate@),
{
    let collapsed = collapse_whitespace(candidate);
    if collapsed.len() <= MAX_LABEL_LEN {
        return collapsed;
    }
    let kept = vstd::slice::slice_subrange(collapsed.as_slice(), 0, MAX_LABEL_LEN - 1);
    assert(kept@ =~= collapsed@.take(MAX_LABEL_LEN - 1));
    let mut r = trim_end_chars(kept);
    r.push('\u{2026}');
    r
}

/// Collapses whitespace and ellipsizes to [`MAX_LABEL_LEN`] characters.
pub fn tidy(candidate: &str) -> (r: String)
    ensures
        r@ == tidy_spec(candidate@),
{
    let chars = chars_of(candidate);
    string_of(tidy_chars(chars.as_slice()))
}

/// Whether a candidate is nothing but hex, hyphens aside, with at least
/// eight digits, on characters.
pub fn is_hex_blob_chars(candidate: &[char]) -> (r: bool)
    ensures
        r == is_hex_blob_spec(candidate@),
{
    let digits = remove_chars(candidate, '-');
    if digits.len() < 8 {
        return false;
    }
    let mut i: usize = 0;
    while i < digits.len()
        invariant
            digits@ == remove_char(candidate@, '-'),
            i <= digits@.len(),
            forall|j: int| 0 <= j < i ==> is_hex_digit(#[trigger] digits@[j]),
        decreases digits.len() - i,
    {
        if !is_hex_digit_char(digits[i]) {
            assert(!is_hex_digit(remove_char(candidate@, '-')[i as int]));
            return false;
        }
        i = i + 1;
    }
    true
}

/// Whether a candidate is nothing but hex (ignoring hyphens) — a session
/// id, a sha or a uuid fragment — with at least eight digits, so that short
/// words that happen to be hex still pass.
pub fn is_hex_blob(candidate: &str) -> (r: bool)
    ensures
        r == is_hex_blob_spec(candidate@),
{
    let chars = chars_of(candidate);
    is_hex_blob_chars(chars.as_slice())
}

/// `Path::file_name` of a `/`-separated path, on characters.
pub fn file_name_chars(path: &[char]) -> (r: Option<Vec<char>>)
    ensures
        opt_chars(r) == file_name_spec(path@),
{
    let parts = split_pieces(path, '/');
    let ghost ps = pieces(path@, '/');
    let mut j: usize = parts.len();
    assert(ps.take(j as int) =~= ps);
    while j > 0 && (parts[j - 1].len() == 0 || eq_lit(parts[j - 1].as_slice(), "."))
        invariant
            j <= parts@.len(),
            parts@.len() == ps.len(),
            forall|i: int| 0 <= i < parts@.len() ==> #[trigger] parts@[i]@ == ps[i],
            last_named_component(ps) == last_named_component(ps.take(j as int)),
        decreases j,
    {
        assert(ps.take(j as int).drop_last() =~= ps.take(j - 1));
        j = j - 1;
    }
    if j == 0 {
        return None;
    }
    assert(ps.take(j as int).last() == ps[j - 1]);
    if eq_lit(parts[j - 1].as_slice(), "..") {
        return None;
    }
    Some(vstd::slice::slice_to_vec(parts[j - 1].as_slice()))
}

/// `str::eq_ignore_ascii_case`, on characters.
pub fn eq_ignore_ascii_case_chars(a: &[char], b: &[char]) -> (r: bool)
    ensures
        r == eq_ignore_ascii_case_spec(a@, b@),
{
    if a.len() != b.len() {
        return false;
    }
    let mut i: usize = 0;
    while i < a.len()
        invariant
            a@.len() == b@.len(),
            i <= a@.len(),
            forall|j: int| 0 <= j < i ==> #[trigger] ascii_lower(a@[j]) == ascii_lower(b@[j]),
        decreases a.len() - i,
    {
        if !eq_ignore_ascii_case_char(a[i], b[i]) {
            return false;
        }
        i = i + 1;
    }
    true
}

/// Whether `candidate` is `<basename>-<2 hex digits>`.
pub fn is_derived_name_chars(candidate: &[char], basename: &[char]) -> (r: bool)
    ensures
        r == is_derived_name(candidate@, basename@),
{
    if candidate.len() < 3 || candidate.len() - 3 != basename.len() {
        return false;
    }
    let n = basename.len();
    if !matches_at(candidate, 0, basename) {
        assert(!starts_with(candidate@, basename@));
        return false;
    }
    candidate[n] == '-' && is_hex_digit_char(candidate[n + 1]) && is_hex_digit_char(
        candidate[n + 2],
    )
}

/// Whether a tidied candidate may name a session run in `cwd`, on
/// characters.
pub fn is_acceptable_chars(candidate: &[char], cwd: &[char]) -> (r: bool)
    ensures
        r == is_acceptable_spec(candidate@, cwd@),
{
    if candidate.len() == 0 {
        return false;
    }
    if trim_chars(candidate).len() == 0 {
        return false;
    }
    if is_hex_blob_chars(candidate) {
        return false;
    }
    match file_name_chars(cwd) {
        None => true,
        Some(basename) => {
            if eq_ignore_ascii_case_chars(candidate, basename.as_slice()) {
                return false;
            }
            !is_derived_name_chars(candidate, basename.as_slice())
        },
    }
}

/// Whether a candidate is worth showing over the caller's own floor.
///
/// Rejects empty and whitespace-only candidates, bare hex blobs, the directory name of `cwd`
/// again (in any ASCII case), and the CLI's `<dir>-<2hex>` display default.
pub fn is_acceptable_label(candidate: &str, cwd: &str) -> (r: bool)
    ensures
        r == is_acceptable_spec(candidate@, cwd@),
{
    let c = chars_of(candidate);
    let d = chars_of(cwd);
    is_acceptable_chars(c.as_slice(), d.as_slice())
}

// ---------------------------------------------------------------------------
// Records

/// The name field of a parsed title record: `aiTitle`, else `agentName`.
pub fn title_text(record: &Json) -> (r: Option<Vec<char>>)
    ensures
        opt_chars(r) == title_text_spec(*record),
{
    match get(record, "aiTitle") {
        Some(Json::Str(s)) => Some(vstd::slice::slice_to_vec(s.as_slice())),
        Some(_) => None,
        None => get_str(record, "agentName"),
    }
}

/// Whether the record's `type` is a title type.
fn has_title_type(record: &Json) -> (r: bool)
    ensures
        r == (record_type(*record) matches Some(t) && is_title_type(t)),
{
    match get(record, "type") {
        Some(Json::Str(t)) => eq_lit(t.as_slice(), "ai-title") || eq_lit(t.as_slice(), "agent-name"),
        _ => false,
    }
}

/// Whether the record's `type` is `user`.
fn has_user_type(record: &Json) -> (r: bool)
    ensures
        r == (record_type(*record) == Some("user"@)),
{
    match get(record, "type") {
        Some(Json::Str(t)) => eq_lit(t.as_slice(), "user"),
        _ => false,
    }
}

/// The title a parsed record carries, if it is a title record.
pub fn record_title_text(record: &Json) -> (r: Option<Vec<char>>)
    ensures
        opt_chars(r) == record_title(*record),
{
    if has_title_type(record) {
        title_text(record)
    } else {
        None
    }
}

/// The title carried by one transcript line, if it is a title record; the
/// line is parsed only when it mentions a title type.
pub fn title_record_text(line: &[char]) -> (r: Option<Vec<char>>)
    ensures
        opt_chars(r) == line_title(line@),
{
    if !contains_lit(line, "\"ai-title\"") && !contains_lit(line, "\"agent-name\"") {
        return None;
    }
    match parse_json(line) {
        Some(record) => record_title_text(&record),
        None => None,
    }
}

/// Prompt text from a parsed `user` record: `message.content` as a string,
/// or the first block with a string `text` when it is an array.
pub fn user_prompt_text(record: &Json) -> (r: Option<Vec<char>>)
    ensures
        opt_chars(r) == user_prompt_spec(*record),
{
    let message = match get(record, "message") {
        Some(m) => m,
        None => return None,
    };
    match get(message, "content") {
        Some(Json::Str(s)) => Some(vstd::slice::slice_to_vec(s.as_slice())),
        Some(Json::Array(blocks)) => {
            let n = blocks.len();
            let mut i: usize = 0;
            assert(blocks@.skip(0) =~= blocks@);
            assert(user_prompt_spec(*record) == first_block_text(blocks@));
            while i < n
                invariant
                    user_prompt_spec(*record) == first_block_text(blocks@),
                    n == blocks@.len(),
                    i <= n,
                    first_block_text(blocks@) == first_block_text(blocks@.skip(i as int)),
                decreases n - i,
            {
                let ghost rest = blocks@.skip(i as int);
                assert(rest[0] == blocks@[i as int]);
                let block = &blocks[i];
                assert(*block == rest[0]);
                let text = get_str(block, "text");
                if text.is_some() {
                    assert(first_block_text(rest) == json_as_str(json_get(rest[0], "text"@)));
                    return text;
                }
                assert(rest.drop_first() =~= blocks@.skip(i + 1));
                i = i + 1;
            }
            assert(blocks@.skip(n as int).len() == 0);
            None
        },
        _ => None,
    }
}

/// The prompt a user actually typed, from a parsed `user` record; `None` for
/// a sidechain replay, an injected `<…>` wrapper, or a `Caveat:` preamble,
/// so a scan moves on to the next user record.
pub fn real_user_prompt_text(record: &Json) -> (r: Option<Vec<char>>)
    ensures
        opt_chars(r) == real_user_prompt_spec(*record),
{
    if get_bool(record, "isSidechain") == Some(true) {
        return None;
    }
    let text = match user_prompt_text(record) {
        Some(t) => t,
        None => return None,
    };
    let trimmed = trim_chars(text.as_slice());
    if starts_with_lit(trimmed.as_slice(), "<") || starts_with_lit(trimmed.as_slice(), "Caveat:") {
        return None;
    }
    Some(text)
}

// ---------------------------------------------------------------------------
// The head scan

/// The candidates a head scan has gathered so far.
pub struct HeadCandidates {
    pub last_title: Option<Vec<char>>,
    pub first_prompt: Option<Vec<char>>,
    pub slug: Option<Vec<char>>,
}

impl View for HeadCandidates {
    type V = Candidates;

    open spec fn view(&self) -> Candidates {
        (opt_chars(self.last_title), opt_chars(self.first_prompt), opt_chars(self.slug))
    }
}

impl HeadCandidates {
    /// No candidate yet.
    pub fn new() -> (r: HeadCandidates)
        ensures
            r@ == (None::<Seq<char>>, None::<Seq<char>>, None::<Seq<char>>),
    {
        HeadCandidates { last_title: None, first_prompt: None, slug: None }
    }

    /// Takes what one parsed head record offers: the first slug, the last
    /// title, the first real user prompt.
    pub fn absorb_record(&mut self, record: &Json)
        ensures
            final(self)@ == record_step(old(self)@, *record),
    {
        if self.slug.is_none() {
            if let Some(text) = get_str(record, "slug") {
                self.slug = Some(replace_chars(text.as_slice(), '-', ' '));
            }
        }
        if has_title_type(record) {
            if let Some(title) = title_text(record) {
                self.last_title = Some(title);
            }
        } else if has_user_type(record) {
            if self.first_prompt.is_none() {
                if let Some(text) = real_user_prompt_text(record) {
                    self.first_prompt = Some(text);
                }
            }
        }
    }

    /// Takes what one head line offers; cheap substring tests keep lines
    /// that cannot matter away from the parser.
    pub fn absorb_line(&mut self, line: &[char])
        ensures
            final(self)@ == line_step(old(self)@, line@),
    {
        let looks_like_title = contains_lit(line, "\"ai-title\"") || contains_lit(
            line,
            "\"agent-name\"",
        );
        let looks_like_user = self.first_prompt.is_none() && contains_lit(line, "\"user\"");
        let looks_like_slug = self.slug.is_none() && contains_lit(line, "\"slug\"");
        if !looks_like_title && !looks_like_user && !looks_like_slug {
            return;
        }
        match parse_json(line) {
            Some(record) => self.absorb_record(&record),
            None => {},
        }
    }

    /// The first candidate (title, prompt, slug) that, tidied, is
    /// acceptable for `cwd`.
    pub fn pick(&self, cwd: &[char]) -> (r: Option<Vec<char>>)
        ensures
            opt_chars(r) == first_acceptable(seq![self@.0, self@.1, self@.2], cwd@),
    {
        let ghost cands = seq![self@.0, self@.1, self@.2];
        let ghost rest1 = seq![self@.1, self@.2];
        let ghost rest2 = seq![self@.2];
        assert(cands.drop_first() =~= rest1);
        assert(rest1.drop_first() =~= rest2);
        assert(rest2.drop_first() =~= Seq::<Option<Seq<char>>>::empty());
        assert(first_acceptable(Seq::<Option<Seq<char>>>::empty(), cwd@) is None);
        if let Some(c) = &self.last_title {
            let t = tidy_chars(c.as_slice());
            if is_acceptable_chars(t.as_slice(), cwd) {
                assert(first_acceptable(cands, cwd@) == Some(t@));
                return Some(t);
            }
        }
        assert(first_acceptable(cands, cwd@) == first_acceptable(rest1, cwd@));
        if let Some(c) = &self.first_prompt {
            let t = tidy_chars(c.as_slice());
            if is_acceptable_chars(t.as_slice(), cwd) {
                assert(first_acceptable(rest1, cwd@) == Some(t@));
                return Some(t);
            }
        }
        assert(first_acceptable(rest1, cwd@) == first_acceptable(rest2, cwd@));
        if let Some(c) = &self.slug {
            let t = tidy_chars(c.as_slice());
            if is_acceptable_chars(t.as_slice(), cwd) {
                assert(first_acceptable(rest2, cwd@) == Some(t@));
                return Some(t);
            }
        }
        assert(first_acceptable(rest2, cwd@) == first_acceptable(
            Seq::<Option<Seq<char>>>::empty(),
            cwd@,
        ));
        None
    }
}

// ---------------------------------------------------------------------------
// The tiers, executable

/// The newest acceptable title in a tail read: the lines are walked from
/// the last, so a `/rename` appended at the end wins; a first line cut
/// mid-record, or any line that does not parse, is skipped.
pub fn label_from_transcript_tail(tail: &str, cwd: &str) -> (r: Option<String>)
    ensures
        opt_string(r) == tail_label(tail@, cwd@),
{
    let text = chars_of(tail);
    let d = chars_of(cwd);
    let ls = split_lines(text.as_slice());
    let ghost all = lines(tail@);
    let mut j: usize = ls.len();
    assert(all.take(j as int) =~= all);
    while j > 0
        invariant
            all == lines(tail@),
            j <= ls@.len(),
            ls@.len() == all.len(),
            d@ == cwd@,
            forall|i: int| 0 <= i < ls@.len() ==> #[trigger] ls@[i]@ == all[i],
            newest_title(all, cwd@) == newest_title(all.take(j as int), cwd@),
        decreases j,
    {
        let ghost before = all.take(j as int);
        assert(before.last() == all[j - 1]);
        assert(before.drop_last() =~= all.take(j - 1));
        let line = ls[j - 1].as_slice();
        assert(line@ == all[j - 1]);
        if let Some(candidate) = title_record_text(line) {
            let t = tidy_chars(candidate.as_slice());
            if is_acceptable_chars(t.as_slice(), d.as_slice()) {
                assert(newest_title(before, cwd@) == Some(t@));
                return Some(string_of(t));
            }
        }
        j = j - 1;
    }
    None
}

/// The head tiers over a head read: the last title, else the first real
/// user prompt, else the de-kebabed slug, whichever first is acceptable.
/// Malformed lines, a cut final line among them, are skipped.
pub fn label_from_transcript_head(head: &str, cwd: &str) -> (r: Option<String>)
    ensures
        opt_string(r) == head_label(head@, cwd@),
{
    let text = chars_of(head);
    let d = chars_of(cwd);
    let ls = split_lines(text.as_slice());
    let ghost all = lines(head@);
    let mut cands = HeadCandidates::new();
    let mut k: usize = 0;
    while k < ls.len()
        invariant
            k <= ls@.len(),
            ls@.len() == all.len(),
            forall|i: int| 0 <= i < ls@.len() ==> #[trigger] ls@[i]@ == all[i],
            cands@ == head_candidates(all.take(k as int)),
        decreases ls.len() - k,
    {
        assert(all.take(k + 1).drop_last() =~= all.take(k as int));
        assert(all.take(k + 1).last() == all[k as int]);
        cands.absorb_line(ls[k].as_slice());
        k = k + 1;
    }
    assert(all.take(k as int) =~= all);
    match cands.pick(d.as_slice()) {
        Some(label) => Some(string_of(label)),
        None => None,
    }
}

/// Resolves a display label for a session from what was read of its
/// transcript: `tail`, the last bytes of it, and `head`, its first bytes
/// (`None` where the read failed). The tail tier wins; the head tiers are
/// the fallback. `None` — no acceptable name — is a normal outcome.
pub fn resolve_label_from_transcript(tail: Option<&str>, head: Option<&str>, cwd: &str) -> (r:
    Option<String>)
    ensures
        opt_string(r) == resolved_label(opt_str(tail), opt_str(head), cwd@),
{
    if let Some(t) = tail {
        if let Some(label) = label_from_transcript_tail(t, cwd) {
            return Some(label);
        }
    }
    match head {
        Some(h) => label_from_transcript_head(h, cwd),
        None => None,
    }
}

// ---------------------------------------------------------------------------
// Laws

/// A tidied candidate has at most [`MAX_LABEL_LEN`] characters and is words
/// separated by single spaces, with no whitespace at either end.
pub proof fn lemma_tidy_shape(candidate: Seq<char>)
    ensures
        tidy_spec(candidate).len() <= MAX_LABEL_LEN,
        spaced_words(tidy_spec(candidate)),
{
    let collapsed = collapse_ws(candidate);
    lemma_collapse_spaced(candidate);
    if collapsed.len() > MAX_LABEL_LEN {
        let kept = collapsed.take(MAX_LABEL_LEN - 1);
        lemma_spaced_prefix(collapsed, MAX_LABEL_LEN - 1);
        lemma_trim_end_spaced(kept);
        let t = trim_end(kept);
        let r = t.push('\u{2026}');
        assert(!is_ws('\u{2026}'));
        assert forall|i: int| 0 <= i < r.len() && is_ws(#[trigger] r[i]) implies r[i] == ' ' && i
            > 0 && !is_ws(r[i - 1]) by {
            if i < t.len() {
                assert(r[i] == t[i]);
                assert(r[i - 1] == t[i - 1]);
            }
        }
    }
}

/// Tidying is idempotent: a tidied label is already tidy.
pub proof fn lemma_tidy_idempotent(candidate: Seq<char>)
    ensures
        tidy_spec(tidy_spec(candidate)) == tidy_spec(candidate),
{
    let t = tidy_spec(candidate);
    lemma_tidy_shape(candidate);
    lemma_collapse_of_spaced(t);
}

/// Every label the tail tier yields is tidy and acceptable for `cwd`.
pub proof fn lemma_newest_title_acceptable(ls: Seq<Seq<char>>, cwd: Seq<char>)
    ensures
        newest_title(ls, cwd) matches Some(label) ==> is_acceptable_spec(label, cwd) && tidy_spec(
            label,
        ) == label,
    decreases ls.len(),
{
    if ls.len() > 0 {
        lemma_newest_title_acceptable(ls.drop_last(), cwd);
        if let Some(t) = line_title(ls.last()) {
            lemma_tidy_idempotent(t);
        }
    }
}

/// Every label the head tiers yield is tidy and acceptable for `cwd`.
pub proof fn lemma_first_acceptable_acceptable(cands: Seq<Option<Seq<char>>>, cwd: Seq<char>)
    ensures
        first_acceptable(cands, cwd) matches Some(label) ==> is_acceptable_spec(label, cwd)
            && tidy_spec(label) == label,
    decreases cands.len(),
{
    if cands.len() > 0 {
        lemma_first_acceptable_acceptable(cands.drop_first(), cwd);
        if let Some(c) = cands[0] {
            lemma_tidy_idempotent(c);
        }
    }
}

/// Junk is never displayed: whatever label a transcript resolves to is
/// acceptable for `cwd` (not empty or blank, not a hex blob, not the directory name,
/// not the `<dir>-<2hex>` default), already tidy, and at most
/// [`MAX_LABEL_LEN`] characters of single-spaced words.
pub proof fn lemma_resolved_label_is_acceptable(
    tail: Option<Seq<char>>,
    head: Option<Seq<char>>,
    cwd: Seq<char>,
)
    ensures
        resolved_label(tail, head, cwd) matches Some(label) ==> {
            &&& is_acceptable_spec(label, cwd)
            &&& tidy_spec(label) == label
            &&& label.len() <= MAX_LABEL_LEN
            &&& spaced_words(label)
        },
{
    if let Some(t) = tail {
        lemma_newest_title_acceptable(lines(t), cwd);
    }
    if let Some(h) = head {
        let c = head_candidates(lines(h));
        lemma_first_acceptable_acceptable(seq![c.0, c.1, c.2], cwd);
    }
    if let Some(label) = resolved_label(tail, head, cwd) {
        lemma_tidy_shape(label);
    }
}

/// The newest title wins: a line carrying an acceptable title, read after
/// any other lines, names the session in the tail tier, and becomes the
/// head scan's title candidate.
pub proof fn lemma_appended_title_wins(ls: Seq<Seq<char>>, line: Seq<char>, cwd: Seq<char>)
    requires
        line_title(line) is Some,
        is_acceptable_spec(tidy_spec(line_title(line).unwrap()), cwd),
    ensures
        newest_title(ls.push(line), cwd) == Some(tidy_spec(line_title(line).unwrap())),
        head_candidates(ls.push(line)).0 == line_title(line),
{
    assert(ls.push(line).drop_last() =~= ls);
}

/// The first real user prompt and the first slug are kept: once the head
/// scan has found one, no later line replaces it.
pub proof fn lemma_first_prompt_and_slug_stick(ls: Seq<Seq<char>>, more: Seq<Seq<char>>)
    ensures
        head_candidates(ls).1 is Some ==> head_candidates(ls + more).1 == head_candidates(ls).1,
        head_candidates(ls).2 is Some ==> head_candidates(ls + more).2 == head_candidates(ls).2,
    decreases more.len(),
{
    if more.len() == 0 {
        assert(ls + more =~= ls);
    } else {
        lemma_first_prompt_and_slug_stick(ls, more.drop_last());
        assert((ls + more).drop_last() =~= ls + more.drop_last());
    }
}

/// A `/rename` wins: appending a title record line (with its newline) to a
/// transcript of whole lines makes that title, tidied, the name in the tail
/// tier and in the head tiers alike, and so the resolved name whatever the
/// head read holds.
pub proof fn lemma_rename_appended_wins(
    transcript: Seq<char>,
    line: Seq<char>,
    head: Option<Seq<char>>,
    cwd: Seq<char>,
)
    requires
        transcript.len() == 0 || transcript.last() == '\n',
        forall|i: int| 0 <= i < line.len() ==> #[trigger] line[i] != '\n',
        line.len() == 0 || line.last() != '\r',
        line_title(line) is Some,
        is_acceptable_spec(tidy_spec(line_title(line).unwrap()), cwd),
    ensures
        ({
            let renamed = transcript + line + seq!['\n'];
            let name = Some(tidy_spec(line_title(line).unwrap()));
            &&& tail_label(renamed, cwd) == name
            &&& head_label(renamed, cwd) == name
            &&& resolved_label(Some(renamed), head, cwd) == name
        }),
{
    let renamed = transcript + line + seq!['\n'];
    lemma_lines_append_line(transcript, line);
    assert(strip_cr(line) == line);
    lemma_appended_title_wins(lines(transcript), line, cwd);
    let c = head_candidates(lines(renamed));
    let cands = seq![c.0, c.1, c.2];
    assert(cands[0] == line_title(line));
}

/// The tail tier comes first: when the tail read names the session the
/// head read does not matter; when it does not, the head tiers decide.
pub proof fn lemma_tail_tier_first(tail: Seq<char>, head: Option<Seq<char>>, cwd: Seq<char>)
    ensures
        tail_label(tail, cwd) is Some ==> resolved_label(Some(tail), head, cwd) == tail_label(
            tail,
            cwd,
        ),
        tail_label(tail, cwd) is None ==> resolved_label(Some(tail), head, cwd) == resolved_label(
            None,
            head,
            cwd,
        ),
{
}

/// Short hex-looking words are words: fewer than eight digits, hyphens
/// aside, is never a hex blob.
pub proof fn lemma_short_words_are_no_hex_blob(candidate: Seq<char>)
    requires
        remove_char(candidate, '-').len() < 8,
    ensures
        !is_hex_blob_spec(candidate),
{
}

/// Line `i` of `ls` carries a title whose tidied form is acceptable.
pub open spec fn has_acceptable_title(ls: Seq<Seq<char>>, i: int, cwd: Seq<char>) -> bool {
    &&& line_title(ls[i]) is Some
    &&& is_acceptable_spec(tidy_spec(line_title(ls[i]).unwrap()), cwd)
}

/// The tail tier names a session after the newest acceptable title: it
/// finds nothing exactly when no line carries an acceptable title, and
/// otherwise gives the tidied title of a line that carries one, after which
/// no line does.
pub proof fn lemma_tail_tier_is_newest_acceptable(ls: Seq<Seq<char>>, cwd: Seq<char>)
    ensures
        newest_title(ls, cwd) is None <==> forall|i: int|
            0 <= i < ls.len() ==> !#[trigger] has_acceptable_title(ls, i, cwd),
        newest_title(ls, cwd) matches Some(label) ==> exists|i: int|
            0 <= i < ls.len() && #[trigger] has_acceptable_title(ls, i, cwd) && label == tidy_spec(
                line_title(ls[i]).unwrap(),
            ) && forall|j: int| i < j < ls.len() ==> !has_acceptable_title(ls, j, cwd),
    decreases ls.len(),
{
    if ls.len() > 0 {
        let d = ls.drop_last();
        let n = ls.len() - 1;
        lemma_tail_tier_is_newest_acceptable(d, cwd);
        assert forall|i: int| 0 <= i < d.len() implies has_acceptable_title(ls, i, cwd)
            == has_acceptable_title(d, i, cwd) by {
            assert(ls[i] == d[i]);
        }
        assert(ls[n] == ls.last());
        if has_acceptable_title(ls, n, cwd) {
            assert(newest_title(ls, cwd) == Some(tidy_spec(line_title(ls[n]).unwrap())));
        } else {
            assert(newest_title(ls, cwd) == newest_title(d, cwd));
            if let Some(label) = newest_title(d, cwd) {
                let i = choose|i: int|
                    0 <= i < d.len() && #[trigger] has_acceptable_title(d, i, cwd) && label
                        == tidy_spec(line_title(d[i]).unwrap()) && forall|j: int|
                        i < j < d.len() ==> !has_acceptable_title(d, j, cwd);
                assert(ls[i] == d[i]);
                assert(has_acceptable_title(ls, i, cwd));
                assert forall|j: int| i < j < ls.len() implies !has_acceptable_title(ls, j, cwd) by {
                    if j < n {
                        assert(ls[j] == d[j]);
                        assert(!has_acceptable_title(d, j, cwd));
                    }
                }
            } else {
                assert forall|i: int| 0 <= i < ls.len() implies !#[trigger] has_acceptable_title(
                    ls,
                    i,
                    cwd,
                ) by {
                    if i < n {
                        assert(ls[i] == d[i]);
                        assert(!has_acceptable_title(d, i, cwd));
                    }
                }
            }
        }
    }
}

/// A later line without an acceptable title (a record that is no title, or
/// a junk title such as the `<dir>-<2hex>` default) never hides an earlier
/// acceptable one: the tail tier ignores it.
pub proof fn lemma_junk_title_is_skipped(ls: Seq<Seq<char>>, line: Seq<char>, cwd: Seq<char>)
    requires
        !(line_title(line) is Some && is_acceptable_spec(tidy_spec(line_title(line).unwrap()), cwd)),
    ensures
        newest_title(ls.push(line), cwd) == newest_title(ls, cwd),
{
    lemma_tail_tier_is_newest_acceptable(ls, cwd);
    lemma_tail_tier_is_newest_acceptable(ls.push(line), cwd);
    let e = ls.push(line);
    assert(e.drop_last() =~= ls);
    assert(e.last() == line);
}

/// On whole transcripts: appending a line without an acceptable title
/// leaves the tail tier's label as it was.
pub proof fn lemma_junk_title_appended_is_skipped(transcript: Seq<char>, line: Seq<char>, cwd: Seq<char>)
    requires
        transcript.len() == 0 || transcript.last() == '\n',
        forall|i: int| 0 <= i < line.len() ==> #[trigger] line[i] != '\n',
        line.len() == 0 || line.last() != '\r',
        !(line_title(line) is Some && is_acceptable_spec(tidy_spec(line_title(line).unwrap()), cwd)),
    ensures
        tail_label(transcript + line + seq!['\n'], cwd) == tail_label(transcript, cwd),
{
    lemma_lines_append_line(transcript, line);
    assert(strip_cr(line) == line);
    lemma_junk_title_is_skipped(lines(transcript), line, cwd);
}

/// The head tiers in order: an acceptable last title names the session;
/// failing that, an acceptable first real user prompt does, whatever slug
/// the head carries; the slug names it only when neither does.
pub proof fn lemma_head_tier_order(head: Seq<char>, cwd: Seq<char>)
    ensures
        ({
            let c = head_candidates(lines(head));
            let title_ok = c.0 is Some && is_acceptable_spec(tidy_spec(c.0.unwrap()), cwd);
            let prompt_ok = c.1 is Some && is_acceptable_spec(tidy_spec(c.1.unwrap()), cwd);
            let slug_ok = c.2 is Some && is_acceptable_spec(tidy_spec(c.2.unwrap()), cwd);
            &&& title_ok ==> head_label(head, cwd) == Some(tidy_spec(c.0.unwrap()))
            &&& !title_ok && prompt_ok ==> head_label(head, cwd) == Some(tidy_spec(c.1.unwrap()))
            &&& !title_ok && !prompt_ok && slug_ok ==> head_label(head, cwd) == Some(
                tidy_spec(c.2.unwrap()),
            )
            &&& !title_ok && !prompt_ok && !slug_ok ==> head_label(head, cwd) is None
        }),
{
    let c = head_candidates(lines(head));
    let cands = seq![c.0, c.1, c.2];
    let rest1 = seq![c.1, c.2];
    let rest2 = seq![c.2];
    let empty = Seq::<Option<Seq<char>>>::empty();
    assert(cands.drop_first() =~= rest1);
    assert(rest1.drop_first() =~= rest2);
    assert(rest2.drop_first() =~= empty);
    assert(cands[0] == c.0);
    assert(rest1[0] == c.1);
    assert(rest2[0] == c.2);
    assert(first_acceptable(empty, cwd) is None);
    assert(head_label(head, cwd) == first_acceptable(cands, cwd));
    let slug_ok = c.2 is Some && is_acceptable_spec(tidy_spec(c.2.unwrap()), cwd);
    if slug_ok {
        assert(first_acceptable(rest2, cwd) == Some(tidy_spec(c.2.unwrap())));
    } else {
        assert(first_acceptable(rest2, cwd) is None);
    }
    let prompt_ok = c.1 is Some && is_acceptable_spec(tidy_spec(c.1.unwrap()), cwd);
    if prompt_ok {
        assert(first_acceptable(rest1, cwd) == Some(tidy_spec(c.1.unwrap())));
    } else {
        assert(first_acceptable(rest1, cwd) == first_acceptable(rest2, cwd));
    }
    let title_ok = c.0 is Some && is_acceptable_spec(tidy_spec(c.0.unwrap()), cwd);
    if title_ok {
        assert(first_acceptable(cands, cwd) == Some(tidy_spec(c.0.unwrap())));
    } else {
        assert(first_acceptable(cands, cwd) == first_acceptable(rest1, cwd));
    }
}

/// The head scan's prompt candidate is the first real user prompt and its
/// slug candidate the first slug, de-kebabed: a line that parses to a
/// `"user"` record with a real prompt sets the prompt while none was found,
/// and a line that parses to a record with a string `"slug"` sets the slug
/// while none was found.
pub proof fn lemma_head_scan_takes_prompt_and_slug(ls: Seq<Seq<char>>, line: Seq<char>)
    requires
        parsed_json(line) is Some,
    ensures
        ({
            let before = head_candidates(ls);
            let after = head_candidates(ls.push(line));
            let record = parsed_json(line).unwrap();
            &&& before.1 is None && contains_seq(line, "\"user\""@) && record_type(record) == Some(
                "user"@,
            ) && real_user_prompt_spec(record) is Some ==> after.1 == real_user_prompt_spec(record)
            &&& before.2 is None && contains_seq(line, "\"slug\""@) && json_as_str(
                json_get(record, "slug"@),
            ) is Some ==> after.2 == Some(
                replace_char(json_as_str(json_get(record, "slug"@)).unwrap(), '-', ' '),
            )
        }),
{
    let e = ls.push(line);
    assert(e.drop_last() =~= ls);
    assert(e.last() == line);
    let record = parsed_json(line).unwrap();
    if record_type(record) == Some("user"@) {
        reveal_strlit("user");
        reveal_strlit("ai-title");
        reveal_strlit("agent-name");
        assert("user"@.len() != "ai-title"@.len());
        assert("user"@.len() != "agent-name"@.len());
        assert(!is_title_type("user"@));
    }
}

} // verus!
