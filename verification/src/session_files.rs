//! Which files of a project directory are session transcripts: exactly
//! `<lowercase uuid>.jsonl`, nothing before or after.
use vstd::prelude::*;

verus! {

/// A lowercase hexadecimal digit.
pub open spec fn is_lower_hex(c: char) -> bool {
    ('0' <= c && c <= '9') || ('a' <= c && c <= 'f')
}

/// The positions of the hyphens in a uuid's 8-4-4-4-12 form.
pub open spec fn is_uuid_hyphen_position(i: int) -> bool {
    i == 8 || i == 13 || i == 18 || i == 23
}

/// A session id as the CLI writes it: a lowercase uuid in 8-4-4-4-12 form.
pub open spec fn is_session_id(s: Seq<char>) -> bool {
    &&& s.len() == 36
    &&& forall|i: int|
        0 <= i < 36 ==> if is_uuid_hyphen_position(i) {
            #[trigger] s[i] == '-'
        } else {
            is_lower_hex(s[i])
        }
}

/// The session id a transcript file name carries: `<session id>.jsonl`.
pub open spec fn session_id_of_file_name(name: Seq<char>) -> Option<Seq<char>> {
    if name.len() == 36 + ".jsonl"@.len() && is_session_id(name.take(36)) && name.skip(36)
        == ".jsonl"@ {
        Some(name.take(36))
    } else {
        None
    }
}

fn is_lower_hex_char(c: char) -> (r: bool)
    ensures
        r == is_lower_hex(c),
{
    ('0' <= c && c <= '9') || ('a' <= c && c <= 'f')
}

/// The session id of a transcript file name, or `None` for anything that is
/// not exactly `<lowercase uuid>.jsonl` (a session's side directory, a
/// foreign file, an uppercase or partial id).
pub fn session_id_from_transcript_file_name(name: &str) -> (r: Option<&str>)
    ensures
        match r {
            Some(id) => session_id_of_file_name(name@) == Some(id@),
            None => session_id_of_file_name(name@) is None,
        },
{
    let n = name.unicode_len();
    let suffix = ".jsonl";
    proof {
        reveal_strlit(".jsonl");
    }
    let m = suffix.unicode_len();
    if n != 36 + m {
        return None;
    }
    let mut i: usize = 0;
    while i < 36
        invariant
            n == name@.len(),
            n == 36 + m,
            i <= 36,
            forall|j: int|
                0 <= j < i ==> if is_uuid_hyphen_position(j) {
                    #[trigger] name@[j] == '-'
                } else {
                    is_lower_hex(name@[j])
                },
        decreases 36 - i,
    {
        let c = name.get_char(i);
        let ok = if i == 8 || i == 13 || i == 18 || i == 23 {
            c == '-'
        } else {
            is_lower_hex_char(c)
        };
        if !ok {
            assert(!is_session_id(name@.take(36))) by {
                assert(name@.take(36)[i as int] == name@[i as int]);
            }
            return None;
        }
        i = i + 1;
    }
    assert(is_session_id(name@.take(36))) by {
        assert forall|j: int| 0 <= j < 36 implies if is_uuid_hyphen_position(j) {
            #[trigger] name@.take(36)[j] == '-'
        } else {
            is_lower_hex(name@.take(36)[j])
        } by {
            assert(name@.take(36)[j] == name@[j]);
        }
    }
    let tail = name.substring_char(36, n);
    let id = name.substring_char(0, 36);
    assert(name@.subrange(36, n as int) =~= name@.skip(36));
    assert(name@.subrange(0, 36) =~= name@.take(36));
    if crate::text::eq_lit(crate::text::chars_of(tail).as_slice(), suffix) {
        Some(id)
    } else {
        None
    }
}

/// The file name of a session id is recognised again, and gives back that
/// very id.
pub proof fn lemma_file_name_round_trip(id: Seq<char>)
    requires
        is_session_id(id),
    ensures
        session_id_of_file_name(id + ".jsonl"@) == Some(id),
{
    let name = id + ".jsonl"@;
    assert(name.take(36) =~= id);
    assert(name.skip(36) =~= ".jsonl"@);
}

/// A recognised file name is its session id followed by `.jsonl`.
pub proof fn lemma_recognised_name_shape(name: Seq<char>)
    ensures
        session_id_of_file_name(name) matches Some(id) ==> is_session_id(id) && name == id
            + ".jsonl"@,
{
    if session_id_of_file_name(name) is Some {
        assert(name =~= name.take(36) + name.skip(36));
    }
}

} // verus!
