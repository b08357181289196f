//! Where the coding-agent CLI keeps the session transcripts of a working directory:
//! `<config>/projects/<encoded-cwd>/<session-id>.jsonl`.
//!
//! The configuration directory itself comes from the environment, so it is
//! looked up by the caller and handed in.
use vstd::prelude::*;
use crate::json::opt_string;
use crate::text::{is_ascii_alnum, chars_of, string_of, is_ascii_alnum_char};
use crate::transcript_naming::opt_str;

verus! {

/// The CLI's directory name for a working directory: every character that is
/// not an ASCII letter or digit becomes `-`.
pub open spec fn encode_cwd_spec(cwd: Seq<char>) -> Seq<char> {
    cwd.map_values(|c: char| if is_ascii_alnum(c) { c } else { '-' })
}

/// `PathBuf::push`: an absolute `part` replaces `base`; otherwise `part` is
/// appended, after a `/` unless `base` is empty or already ends in one.
pub open spec fn join_path(base: Seq<char>, part: Seq<char>) -> Seq<char> {
    if part.len() > 0 && part[0] == '/' {
        part
    } else if base.len() == 0 || base.last() == '/' {
        base + part
    } else {
        base.push('/') + part
    }
}

/// `<config>/projects/<encoded-cwd>`.
pub open spec fn project_dir_spec(config_dir: Seq<char>, cwd: Seq<char>) -> Seq<char> {
    join_path(join_path(config_dir, "projects"@), encode_cwd_spec(cwd))
}

/// `<config>/projects/<encoded-cwd>/<session-id>.jsonl`.
pub open spec fn transcript_path_spec(config_dir: Seq<char>, cwd: Seq<char>, session_id: Seq<char>) -> Seq<char> {
    join_path(project_dir_spec(config_dir, cwd), session_id + ".jsonl"@)
}

/// The CLI's directory name for `cwd`: non-alphanumeric characters become
/// `-`.
pub fn encode_cwd(cwd: &str) -> (r: String)
    ensures
        r@ == encode_cwd_spec(cwd@),
{
    let chars = chars_of(cwd);
    let mut out: Vec<char> = Vec::new();
    let mut k: usize = 0;
    while k < chars.len()
        invariant
            chars@ == cwd@,
            k <= chars@.len(),
            out@ == encode_cwd_spec(chars@.take(k as int)),
        decreases chars.len() - k,
    {
        let c = chars[k];
        if is_ascii_alnum_char(c) {
            out.push(c);
        } else {
            out.push('-');
        }
        k = k + 1;
        assert(out@ =~= encode_cwd_spec(chars@.take(k as int)));
    }
    assert(chars@.take(chars@.len() as int) =~= chars@);
    string_of(out)
}

/// `PathBuf::push` on `/`-separated paths held as characters.
fn join_chars(base: Vec<char>, part: &[char]) -> (r: Vec<char>)
    ensures
        r@ == join_path(base@, part@),
{
    if part.len() > 0 && part[0] == '/' {
        return vstd::slice::slice_to_vec(part);
    }
    let mut out = base;
    let ghost b = out@;
    if out.len() > 0 && out[out.len() - 1] != '/' {
        out.push('/');
    }
    let ghost mid = out@;
    let mut k: usize = 0;
    while k < part.len()
        invariant
            k <= part@.len(),
            out@ == mid + part@.take(k as int),
        decreases part.len() - k,
    {
        out.push(part[k]);
        k = k + 1;
        assert(out@ =~= mid + part@.take(k as int));
    }
    assert(part@.take(part@.len() as int) =~= part@);
    out
}

/// The directory holding every transcript the CLI recorded for `cwd`,
/// under the configuration directory `config_dir`; `None` when there is no
/// configuration directory. `cwd` is used as given.
pub fn claude_project_dir(config_dir: Option<&str>, cwd: &str) -> (r: Option<String>)
    ensures
        opt_string(r) == match opt_str(config_dir) {
            Some(c) => Some(project_dir_spec(c, cwd@)),
            None => None,
        },
{
    match config_dir {
        Some(config) => {
            let base = chars_of(config);
            let projects = chars_of("projects");
            let encoded = chars_of(encode_cwd(cwd).as_str());
            let dir = join_chars(join_chars(base, projects.as_slice()), encoded.as_slice());
            Some(string_of(dir))
        },
        None => None,
    }
}

/// Where the CLI stores the transcript of `session_id` started in
/// `cwd`: `<config>/projects/<encoded-cwd>/<session_id>.jsonl`.
pub fn claude_transcript_path(config_dir: Option<&str>, cwd: &str, session_id: &str) -> (r: Option<
    String,
>)
    ensures
        opt_string(r) == match opt_str(config_dir) {
            Some(c) => Some(transcript_path_spec(c, cwd@, session_id@)),
            None => None,
        },
{
    match claude_project_dir(config_dir, cwd) {
        Some(dir) => {
            let mut file = chars_of(session_id);
            let suffix = chars_of(".jsonl");
            let mut k: usize = 0;
            let ghost id = file@;
            while k < suffix.len()
                invariant
                    k <= suffix@.len(),
                    file@ == id + suffix@.take(k as int),
                decreases suffix.len() - k,
            {
                file.push(suffix[k]);
                k = k + 1;
                assert(file@ =~= id + suffix@.take(k as int));
            }
            assert(suffix@.take(suffix@.len() as int) =~= suffix@);
            let path = join_chars(chars_of(dir.as_str()), file.as_slice());
            Some(string_of(path))
        },
        None => None,
    }
}

/// Encoding keeps the length and leaves only ASCII letters, digits and
/// `-`; encoding an encoded directory name changes nothing.
pub proof fn lemma_encode_cwd_shape(cwd: Seq<char>)
    ensures
        encode_cwd_spec(cwd).len() == cwd.len(),
        forall|i: int|
            0 <= i < cwd.len() ==> is_ascii_alnum(#[trigger] encode_cwd_spec(cwd)[i])
                || encode_cwd_spec(cwd)[i] == '-',
        encode_cwd_spec(encode_cwd_spec(cwd)) == encode_cwd_spec(cwd),
{
    assert(encode_cwd_spec(encode_cwd_spec(cwd)) =~= encode_cwd_spec(cwd));
}

/// A transcript lies directly inside its project directory: the path is the
/// directory, a separator where the directory does not end in one, and
/// `<session_id>.jsonl`.
pub proof fn lemma_transcript_in_project_dir(config_dir: Seq<char>, cwd: Seq<char>, session_id: Seq<char>)
    requires
        session_id.len() == 0 || session_id[0] != '/',
    ensures
        ({
            let dir = project_dir_spec(config_dir, cwd);
            let file = session_id + ".jsonl"@;
            transcript_path_spec(config_dir, cwd, session_id) == if dir.len() == 0 || dir.last()
                == '/' {
                dir + file
            } else {
                dir.push('/') + file
            }
        }),
{
    reveal_strlit(".jsonl");
    let file = session_id + ".jsonl"@;
    assert(file.len() > 0);
    if session_id.len() > 0 {
        assert(file[0] == session_id[0]);
    } else {
        assert(file[0] == '.');
    }
}

} // verus!
