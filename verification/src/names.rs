//! File-name logic: extensions, base names, artifact names, and the naming
//! conventions that mark a file as one of this tool's own outputs.

use vstd::prelude::*;
use vstd::string::StrSliceExecFns;

use crate::errors::EngineError;

verus! {

/// The position of the last dot in a name, or -1 when there is none.
pub open spec fn last_dot(n: Seq<char>) -> int
    decreases n.len(),
{
    if n.len() == 0 {
        -1
    } else if n.last() == '.' {
        n.len() - 1
    } else {
        last_dot(n.drop_last())
    }
}

/// The base name: everything before the final dot. A name without a dot, or
/// whose only dot leads (a hidden file), is its own base name.
pub open spec fn stem_of(n: Seq<char>) -> Seq<char> {
    if last_dot(n) <= 0 {
        n
    } else {
        n.take(last_dot(n))
    }
}

/// The extension: what follows the final dot; absent when no dot follows the
/// first position.
pub open spec fn ext_of(n: Seq<char>) -> Option<Seq<char>> {
    if last_dot(n) <= 0 {
        None
    } else {
        Some(n.skip(last_dot(n) + 1))
    }
}

/// A source frame image.
pub open spec fn png_name(n: Seq<char>) -> bool {
    ext_of(n) == Some("png"@)
}

/// A text artifact.
pub open spec fn txt_name(n: Seq<char>) -> bool {
    ext_of(n) == Some("txt"@)
}

/// A file the interactive picker offers: a video or a standalone picture.
pub open spec fn media_name(n: Seq<char>) -> bool {
    match ext_of(n) {
        None => false,
        Some(e) => e == "mp4"@ || e == "mkv"@ || e == "mov"@ || e == "avi"@ || e == "webm"@ || e
            == "png"@ || e == "jpg"@,
    }
}

/// A name carrying the frame-number prefix of a prior run.
pub open spec fn frame_prefixed(n: Seq<char>) -> bool {
    n.len() >= 6 && n.take(6) == "frame_"@
}

/// An artifact a prior run may have left behind: a frame-prefixed image or
/// text file.
pub open spec fn prior_artifact(n: Seq<char>) -> bool {
    frame_prefixed(n) && (png_name(n) || txt_name(n))
}

/// The artifact name derived from a source name: its base name plus the text
/// extension.
pub open spec fn artifact_name(n: Seq<char>) -> Seq<char> {
    stem_of(n) + ".txt"@
}

proof fn lemma_last_dot_props(n: Seq<char>)
    ensures
        -1 <= last_dot(n) < n.len(),
        last_dot(n) >= 0 ==> n[last_dot(n)] == '.',
    decreases n.len(),
{
    if n.len() > 0 && n.last() != '.' {
        lemma_last_dot_props(n.drop_last());
        if last_dot(n) >= 0 {
            assert(n.drop_last()[last_dot(n)] == n.subrange(0, n.len() - 1)[last_dot(n)]);
        }
    }
}

/// Law: a name with an extension is never empty.
pub proof fn lemma_named_ext_nonempty(n: Seq<char>)
    requires
        ext_of(n) is Some,
    ensures
        n.len() > 0,
{
    lemma_last_dot_props(n);
}

proof fn lemma_last_dot_ignores_clean_suffix(n: Seq<char>, i: int)
    requires
        0 <= i <= n.len(),
        forall|j: int| i <= j < n.len() ==> n[j] != '.',
    ensures
        last_dot(n) == last_dot(n.take(i)),
    decreases n.len(),
{
    if i == n.len() {
        assert(n.take(i) =~= n);
    } else {
        assert(n.last() != '.');
        assert forall|j: int| i <= j < n.drop_last().len() implies n.drop_last()[j] != '.' by {
            assert(n.drop_last()[j] == n[j]);
        }
        lemma_last_dot_ignores_clean_suffix(n.drop_last(), i);
        assert(n.drop_last().take(i) =~= n.take(i));
    }
}

proof fn lemma_last_dot_found(n: Seq<char>, p: int)
    requires
        0 <= p < n.len(),
        n[p] == '.',
        forall|j: int| p < j < n.len() ==> n[j] != '.',
    ensures
        last_dot(n) == p,
{
    lemma_last_dot_ignores_clean_suffix(n, p + 1);
    assert(n.take(p + 1).last() == '.');
}

proof fn lemma_last_dot_absent(n: Seq<char>)
    requires
        forall|j: int| 0 <= j < n.len() ==> n[j] != '.',
    ensures
        last_dot(n) == -1,
{
    lemma_last_dot_ignores_clean_suffix(n, 0);
    assert(n.take(0) =~= Seq::<char>::empty());
}

/// Finds the last dot of a name.
fn last_dot_index(s: &str) -> (r: Option<usize>)
    ensures
        r matches Some(p) ==> last_dot(s@) == p,
        r is None ==> last_dot(s@) == -1,
{
    let n = s.unicode_len();
    let mut i: usize = n;
    while i > 0
        invariant
            n == s@.len(),
            i <= n,
            forall|j: int| i <= j < n ==> s@[j] != '.',
        decreases i,
    {
        if s.get_char(i - 1) == '.' {
            proof {
                lemma_last_dot_found(s@, i - 1);
            }
            return Some(i - 1);
        }
        i = i - 1;
    }
    proof {
        lemma_last_dot_absent(s@);
    }
    None
}

/// Compares two strings character by character.
fn str_eq(a: &str, b: &str) -> (r: bool)
    ensures
        r == (a@ == b@),
{
    let alen = a.unicode_len();
    let blen = b.unicode_len();
    if alen != blen {
        return false;
    }
    let mut i: usize = 0;
    while i < alen
        invariant
            alen == a@.len(),
            alen == b@.len(),
            i <= alen,
            forall|j: int| 0 <= j < i ==> a@[j] == b@[j],
        decreases alen - i,
    {
        if a.get_char(i) != b.get_char(i) {
            return false;
        }
        i = i + 1;
    }
    proof {
        assert(a@ =~= b@);
    }
    true
}

/// The extension of a name, when it has one.
pub fn extension<'a>(s: &'a str) -> (r: Option<&'a str>)
    ensures
        r is Some <==> ext_of(s@) is Some,
        r matches Some(e) ==> ext_of(s@) == Some(e@),
{
    let n = s.unicode_len();
    match last_dot_index(s) {
        None => None,
        Some(p) => {
            if p == 0 {
                None
            } else {
                proof {
                    lemma_last_dot_props(s@);
                }
                let e = s.substring_char(p + 1, n);
                proof {
                    assert(e@ =~= s@.skip(p + 1));
                }
                Some(e)
            }
        },
    }
}

/// Decides whether a name is a source frame image.
pub fn is_png_name(s: &str) -> (r: bool)
    ensures
        r == png_name(s@),
{
    match extension(s) {
        None => false,
        Some(e) => str_eq(e, "png"),
    }
}

/// Decides whether a name is a video or picture the interactive picker
/// offers.
pub fn is_media_name(s: &str) -> (r: bool)
    ensures
        r == media_name(s@),
{
    match extension(s) {
        None => false,
        Some(e) => str_eq(e, "mp4") || str_eq(e, "mkv") || str_eq(e, "mov") || str_eq(e, "avi")
            || str_eq(e, "webm") || str_eq(e, "png") || str_eq(e, "jpg"),
    }
}

/// Decides whether a name carries the frame-number prefix of a prior run.
pub fn is_frame_prefixed(s: &str) -> (r: bool)
    ensures
        r == frame_prefixed(s@),
{
    let n = s.unicode_len();
    if n < 6 {
        return false;
    }
    let p = s.substring_char(0, 6);
    proof {
        assert(p@ =~= s@.take(6));
    }
    str_eq(p, "frame_")
}

/// Decides whether a name is an artifact a prior run may have left behind.
pub fn is_prior_artifact(s: &str) -> (r: bool)
    ensures
        r == prior_artifact(s@),
{
    if !is_frame_prefixed(s) {
        return false;
    }
    match extension(s) {
        None => false,
        Some(e) => str_eq(e, "png") || str_eq(e, "txt"),
    }
}

/// Derives the artifact name for a source: base name plus the text
/// extension. Fails exactly on an empty name, which has no usable base name.
pub fn output_name(s: &str) -> (r: Result<String, EngineError>)
    ensures
        r is Ok <==> s@.len() > 0,
        r matches Ok(o) ==> o@ == artifact_name(s@),
        r matches Err(e) ==> e matches EngineError::Naming(m) && m@ == s@,
{
    let n = s.unicode_len();
    if n == 0 {
        return Err(EngineError::Naming(String::from_str(s)));
    }
    let stem: &str = match last_dot_index(s) {
        None => s,
        Some(p) => {
            if p == 0 {
                s
            } else {
                proof {
                    lemma_last_dot_props(s@);
                }
                s.substring_char(0, p)
            }
        },
    };
    proof {
        assert(stem@ =~= stem_of(s@));
    }
    Ok(String::from_str(stem).concat(".txt"))
}

} // verus!
