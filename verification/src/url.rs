//! URL normalization: trim the raw text, reject it when empty, and prefix
//! `https://` when no explicit scheme is present.

use crate::strings::is_space_char;
use crate::strings::lemma_trim_end_last;
use crate::strings::lemma_trim_end_prefix;
use crate::strings::lemma_trim_start_first;
use crate::strings::seq_starts_with;
use crate::strings::str_starts_with;
use crate::strings::trim_chars;
use crate::strings::trim_of;
use crate::strings::trim_start_of;
use vstd::prelude::*;

verus! {

/// Whether `s` already begins with an explicit scheme.
pub open spec fn has_scheme(s: Seq<char>) -> bool {
    seq_starts_with(s, "http://"@) || seq_starts_with(s, "https://"@)
}

/// The normalized form of raw URL text: `None` when the trimmed text is
/// empty; otherwise the trimmed text, prefixed with `https://` when no
/// scheme is present.
pub open spec fn normalize_spec(s: Seq<char>) -> Option<Seq<char>> {
    let t = trim_of(s);
    if t.len() == 0 {
        None
    } else if has_scheme(t) {
        Some(t)
    } else {
        Some("https://"@ + t)
    }
}

/// Normalizes raw URL text, or returns `None` when the trimmed text is
/// empty.
pub fn normalize_url(raw: &str) -> (r: Option<String>)
    ensures
        r is Some <==> normalize_spec(raw@) is Some,
        r matches Some(u) ==> (normalize_spec(raw@) matches Some(v) && u@ == v),
{
    let t = trim_chars(raw);
    if t.unicode_len() == 0 {
        return None;
    }
    if str_starts_with(t, "http://") || str_starts_with(t, "https://") {
        Some(String::from_str(t))
    } else {
        let mut out = String::from_str("https://");
        out.append(t);
        Some(out)
    }
}

/// A normalized URL is non-empty and carries an explicit scheme.
pub proof fn lemma_normalized_has_scheme(s: Seq<char>)
    ensures
        normalize_spec(s) matches Some(v) ==> v.len() > 0 && has_scheme(v),
{
    let t = trim_of(s);
    if t.len() > 0 && !has_scheme(t) {
        let r = "https://"@ + t;
        assert forall|q: int| 0 <= q < "https://"@.len() implies r[q] == "https://"@[q] by {}
        assert(seq_starts_with(r, "https://"@));
    }
}

/// Normalization is idempotent: a value that normalization produced is
/// returned unchanged when normalized again.
pub proof fn lemma_normalize_idempotent(s: Seq<char>)
    ensures
        normalize_spec(s) matches Some(v) ==> normalize_spec(v) == Some(v),
{
    let t = trim_of(s);
    if t.len() > 0 {
        let tss = trim_start_of(s);
        lemma_trim_start_first(s);
        lemma_trim_end_last(tss);
        lemma_trim_end_prefix(tss);
        assert(t[0] == tss[0]);
        assert(!is_space_char(t[0]));
        assert(!is_space_char(t.last()));
        assert(trim_of(t) == t);
        if has_scheme(t) {
            assert(normalize_spec(t) == Some(t));
        } else {
            let r = "https://"@ + t;
            reveal_strlit("https://");
            assert(r.len() > 0);
            assert(r[0] == 'h');
            assert(!is_space_char('h'));
            assert(trim_start_of(r) == r);
            assert(r.last() == t.last());
            assert(trim_of(r) == r);
            lemma_normalized_has_scheme(s);
            assert(has_scheme(r));
            assert(normalize_spec(r) == Some(r));
        }
    }
}

} // verus!
