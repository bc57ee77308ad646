//! Canonical content-id extraction.
//!
//! A watched-content URL carries its video id right after one of a fixed set
//! of markers (`youtu.be/`, `v/`, `vi/`, `u/w/`, `embed/`, `?v=`, `?vi=`,
//! `&v=`, `&vi=`); the id runs until the first `#`, `&` or `?` or the end of
//! the string.  When several markers occur, the rightmost one wins.
//! Extraction fails when no marker occurs at all.

use vstd::prelude::*;

verus! {

/// `youtu.be/` begins at position `k`.
pub open spec fn is_youtu_be_at(s: Seq<char>, k: int) -> bool {
    &&& 0 <= k
    &&& k + 9 <= s.len()
    &&& s[k] == 'y'
    &&& s[k + 1] == 'o'
    &&& s[k + 2] == 'u'
    &&& s[k + 3] == 't'
    &&& s[k + 4] == 'u'
    &&& s[k + 5] == '.'
    &&& s[k + 6] == 'b'
    &&& s[k + 7] == 'e'
    &&& s[k + 8] == '/'
}

/// `vi/` begins at position `k`.
pub open spec fn is_vi_slash_at(s: Seq<char>, k: int) -> bool {
    &&& 0 <= k
    &&& k + 3 <= s.len()
    &&& s[k] == 'v'
    &&& s[k + 1] == 'i'
    &&& s[k + 2] == '/'
}

/// `v/` begins at position `k`.
pub open spec fn is_v_slash_at(s: Seq<char>, k: int) -> bool {
    &&& 0 <= k
    &&& k + 2 <= s.len()
    &&& s[k] == 'v'
    &&& s[k + 1] == '/'
}

/// `u/w/` begins at position `k`.
pub open spec fn is_u_w_at(s: Seq<char>, k: int) -> bool {
    &&& 0 <= k
    &&& k + 4 <= s.len()
    &&& s[k] == 'u'
    &&& s[k + 1] == '/'
    &&& s[k + 2] == 'w'
    &&& s[k + 3] == '/'
}

/// `embed/` begins at position `k`.
pub open spec fn is_embed_at(s: Seq<char>, k: int) -> bool {
    &&& 0 <= k
    &&& k + 6 <= s.len()
    &&& s[k] == 'e'
    &&& s[k + 1] == 'm'
    &&& s[k + 2] == 'b'
    &&& s[k + 3] == 'e'
    &&& s[k + 4] == 'd'
    &&& s[k + 5] == '/'
}

/// `?vi=` begins at position `k`.
pub open spec fn is_qmark_vi_at(s: Seq<char>, k: int) -> bool {
    &&& 0 <= k
    &&& k + 4 <= s.len()
    &&& s[k] == '?'
    &&& s[k + 1] == 'v'
    &&& s[k + 2] == 'i'
    &&& s[k + 3] == '='
}

/// `?v=` begins at position `k`.
pub open spec fn is_qmark_v_at(s: Seq<char>, k: int) -> bool {
    &&& 0 <= k
    &&& k + 3 <= s.len()
    &&& s[k] == '?'
    &&& s[k + 1] == 'v'
    &&& s[k + 2] == '='
}

/// `&vi=` begins at position `k`.
pub open spec fn is_amp_vi_at(s: Seq<char>, k: int) -> bool {
    &&& 0 <= k
    &&& k + 4 <= s.len()
    &&& s[k] == '&'
    &&& s[k + 1] == 'v'
    &&& s[k + 2] == 'i'
    &&& s[k + 3] == '='
}

/// `&v=` begins at position `k`.
pub open spec fn is_amp_v_at(s: Seq<char>, k: int) -> bool {
    &&& 0 <= k
    &&& k + 3 <= s.len()
    &&& s[k] == '&'
    &&& s[k + 1] == 'v'
    &&& s[k + 2] == '='
}

/// The length of the marker that begins at position `k`, if any does.
/// At most one marker form can begin at a given position, since no form is a
/// prefix of another with the same first character.
pub open spec fn marker_len_at(s: Seq<char>, k: int) -> Option<int> {
    if is_youtu_be_at(s, k) {
        Some(9int)
    } else if is_u_w_at(s, k) {
        Some(4int)
    } else if is_embed_at(s, k) {
        Some(6int)
    } else if is_vi_slash_at(s, k) {
        Some(3int)
    } else if is_v_slash_at(s, k) {
        Some(2int)
    } else if is_qmark_vi_at(s, k) {
        Some(4int)
    } else if is_qmark_v_at(s, k) {
        Some(3int)
    } else if is_amp_vi_at(s, k) {
        Some(4int)
    } else if is_amp_v_at(s, k) {
        Some(3int)
    } else {
        None
    }
}

/// The greatest position `<= k` at which a marker begins, if any.
pub open spec fn last_marker_from(s: Seq<char>, k: int) -> Option<int>
    decreases k + 1,
{
    if k < 0 {
        None
    } else if marker_len_at(s, k) is Some {
        Some(k)
    } else {
        last_marker_from(s, k - 1)
    }
}

/// A character that ends a video id.
pub open spec fn is_id_terminator(c: char) -> bool {
    c == '#' || c == '&' || c == '?'
}

/// The first position `>= e` holding an id terminator, or the end of the
/// string.
pub open spec fn id_end_from(s: Seq<char>, e: int) -> int
    decreases s.len() - e,
{
    if e < 0 || e >= s.len() {
        e
    } else if is_id_terminator(s[e]) {
        e
    } else {
        id_end_from(s, e + 1)
    }
}

/// The canonical video id of a watched-content URL: the run of
/// non-terminator characters right after the rightmost marker, or nothing
/// when no marker occurs.
pub open spec fn youtube_id_of(s: Seq<char>) -> Option<Seq<char>> {
    match last_marker_from(s, s.len() - 1) {
        None => None,
        Some(k) => match marker_len_at(s, k) {
            None => None,
            Some(l) => Some(s.subrange(k + l, id_end_from(s, k + l))),
        },
    }
}

proof fn lemma_no_marker_in_range(s: Seq<char>, lo: int, hi: int)
    requires
        -1 <= lo <= hi,
        hi < s.len(),
        forall|j: int| lo < j <= hi ==> marker_len_at(s, j) is None,
    ensures
        last_marker_from(s, hi) == last_marker_from(s, lo),
    decreases hi - lo,
{
    if lo < hi {
        lemma_no_marker_in_range(s, lo, hi - 1);
    }
}

proof fn lemma_id_end_reaches(s: Seq<char>, e: int, j: int)
    requires
        0 <= e <= j <= s.len(),
        forall|m: int| e <= m < j ==> !is_id_terminator(s[m]),
        j == s.len() || is_id_terminator(s[j]),
    ensures
        id_end_from(s, e) == j,
    decreases j - e,
{
    if e < j {
        lemma_id_end_reaches(s, e + 1, j);
    }
}

/// Whether a marker begins at position `k`, and how long it is.
fn marker_len_at_exec(s: &str, k: usize, n: usize) -> (r: Option<usize>)
    requires
        n == s@.len(),
        k < n,
    ensures
        match r {
            Some(l) => marker_len_at(s@, k as int) == Some(l as int),
            None => marker_len_at(s@, k as int) is None,
        },
{
    let c0 = s.get_char(k);
    if c0 == 'y' {
        if n - k >= 9 && s.get_char(k + 1) == 'o' && s.get_char(k + 2) == 'u'
            && s.get_char(k + 3) == 't' && s.get_char(k + 4) == 'u' && s.get_char(k + 5) == '.'
            && s.get_char(k + 6) == 'b' && s.get_char(k + 7) == 'e' && s.get_char(k + 8) == '/' {
            Some(9)
        } else {
            None
        }
    } else if c0 == 'v' {
        if n - k >= 3 && s.get_char(k + 1) == 'i' && s.get_char(k + 2) == '/' {
            Some(3)
        } else if n - k >= 2 && s.get_char(k + 1) == '/' {
            Some(2)
        } else {
            None
        }
    } else if c0 == 'u' {
        if n - k >= 4 && s.get_char(k + 1) == '/' && s.get_char(k + 2) == 'w'
            && s.get_char(k + 3) == '/' {
            Some(4)
        } else {
            None
        }
    } else if c0 == 'e' {
        if n - k >= 6 && s.get_char(k + 1) == 'm' && s.get_char(k + 2) == 'b'
            && s.get_char(k + 3) == 'e' && s.get_char(k + 4) == 'd' && s.get_char(k + 5) == '/' {
            Some(6)
        } else {
            None
        }
    } else if c0 == '?' {
        if n - k >= 4 && s.get_char(k + 1) == 'v' && s.get_char(k + 2) == 'i'
            && s.get_char(k + 3) == '=' {
            Some(4)
        } else if n - k >= 3 && s.get_char(k + 1) == 'v' && s.get_char(k + 2) == '=' {
            Some(3)
        } else {
            None
        }
    } else if c0 == '&' {
        if n - k >= 4 && s.get_char(k + 1) == 'v' && s.get_char(k + 2) == 'i'
            && s.get_char(k + 3) == '=' {
            Some(4)
        } else if n - k >= 3 && s.get_char(k + 1) == 'v' && s.get_char(k + 2) == '=' {
            Some(3)
        } else {
            None
        }
    } else {
        None
    }
}

/// Extracts the canonical video id from a watched-content URL, or nothing
/// when the URL carries no marker.
pub fn get_youtube_videoid(videoUrl: &str) -> (r: Option<String>)
    ensures
        match r {
            Some(id) => youtube_id_of(videoUrl@) == Some(id@),
            None => youtube_id_of(videoUrl@) is None,
        },
{
    let n = videoUrl.unicode_len();
    let mut i: usize = n;
    let mut found: bool = false;
    let mut found_k: usize = 0;
    let mut found_len: usize = 0;
    while i > 0
        invariant_except_break
            n == videoUrl@.len(),
            i <= n,
            !found,
            forall|j: int| i <= j < n ==> marker_len_at(videoUrl@, j) is None,
        ensures
            n == videoUrl@.len(),
            found ==> found_k < n && marker_len_at(videoUrl@, found_k as int) == Some(
                found_len as int,
            ) && (forall|j: int| found_k < j < n ==> marker_len_at(videoUrl@, j) is None),
            !found ==> (forall|j: int| 0 <= j < n ==> marker_len_at(videoUrl@, j) is None),
        decreases i,
    {
        i = i - 1;
        match marker_len_at_exec(videoUrl, i, n) {
            Some(l) => {
                found = true;
                found_k = i;
                found_len = l;
                break ;
            },
            None => {},
        }
    }
    if found {
        proof {
            lemma_no_marker_in_range(videoUrl@, found_k as int, n as int - 1);
        }
        let e = found_k + found_len;
        let mut j: usize = e;
        while j < n
            invariant_except_break
                n == videoUrl@.len(),
                e <= j <= n,
                forall|m: int| e <= m < j ==> !is_id_terminator(videoUrl@[m]),
            ensures
                n == videoUrl@.len(),
                e <= j <= n,
                forall|m: int| e <= m < j ==> !is_id_terminator(videoUrl@[m]),
                j == n || is_id_terminator(videoUrl@[j as int]),
            decreases n - j,
        {
            let c = videoUrl.get_char(j);
            if c == '#' || c == '&' || c == '?' {
                break ;
            }
            j = j + 1;
        }
        proof {
            lemma_id_end_reaches(videoUrl@, e as int, j as int);
        }
        let id = videoUrl.substring_char(e, j);
        Some(id.to_owned())
    } else {
        proof {
            lemma_no_marker_in_range(videoUrl@, -1, n as int - 1);
        }
        None
    }
}

} // verus!
