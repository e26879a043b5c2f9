//! Release version comparison.
//!
//! Release tags are rough semantic versions: dot-separated segments, each
//! read as a number when it is one and as zero otherwise, compared left to
//! right with missing segments counting as zero.

use vstd::prelude::*;
use crate::level::{dot_count, dot_pos, lemma_dot_basics, lemma_no_dot_count};
use crate::strutil::{all_digits, digits_value, parse_digits_u64};

verus! {

/// Information about an available update.
#[derive(Debug, Clone, PartialEq)]
pub struct UpdateInfo {
    /// Semantic version string of the remote release.
    pub version: String,
    /// Address of the release page or changelog.
    pub changelog_url: String,
}

/// The dot-separated segments of a version string.
pub open spec fn segments(s: Seq<char>) -> Seq<Seq<char>>
    decreases s.len(),
        via segments_dec
{
    if dot_count(s) == 0 {
        seq![s]
    } else {
        seq![s.take(dot_pos(s))] + segments(s.skip(dot_pos(s) + 1))
    }
}

#[via_fn]
proof fn segments_dec(s: Seq<char>) {
    lemma_dot_basics(s);
}

/// What one segment counts for: its number when it is one that fits,
/// zero otherwise.
pub open spec fn segment_value(s: Seq<char>) -> nat {
    if s.len() > 0 && all_digits(s) && digits_value(s) <= u64::MAX {
        digits_value(s)
    } else {
        0
    }
}

/// Whether the remote segments, from position `i` on, denote a strictly
/// newer version than the current ones; missing segments count as zero.
pub open spec fn newer_from(rs: Seq<Seq<char>>, cs: Seq<Seq<char>>, i: int) -> bool
    decreases rs.len() + cs.len() - i,
{
    if i >= rs.len() && i >= cs.len() {
        false
    } else {
        let rv = if i < rs.len() { segment_value(rs[i]) } else { 0 };
        let cv = if i < cs.len() { segment_value(cs[i]) } else { 0 };
        if rv > cv {
            true
        } else if rv < cv {
            false
        } else {
            newer_from(rs, cs, i + 1)
        }
    }
}

/// Whether `remote` denotes a strictly newer version than `current`.
pub open spec fn spec_is_newer(remote: Seq<char>, current: Seq<char>) -> bool {
    newer_from(segments(remote), segments(current), 0)
}

/// Split a version string on dots.
#[verifier::loop_isolation(false)]
fn split_segments(s: &str) -> (r: Vec<String>)
    ensures
        r@.map_values(|p: String| p@) == segments(s@),
    decreases s@.len(),
{
    let len = s.unicode_len();
    let mut i: usize = 0;
    while i < len
        invariant
            i <= len,
            forall|j: int| 0 <= j < i ==> s@[j] != '.',
        decreases len - i,
    {
        if s.get_char(i) == '.' {
            proof {
                lemma_dot_first(s@, i as int);
            }
            let head = s.substring_char(0, i);
            let tail = s.substring_char(i + 1, len);
            let mut out: Vec<String> = Vec::new();
            out.push(String::from_str(head));
            let rest = split_segments(tail);
            let mut k: usize = 0;
            while k < rest.len()
                invariant
                    k <= rest@.len(),
                    out@.len() == k + 1,
                    out@[0]@ == head@,
                    forall|j: int| 0 <= j < k ==> out@[j + 1]@ == rest@[j]@,
                decreases rest@.len() - k,
            {
                out.push(rest[k].clone());
                k = k + 1;
            }
            proof {
                let rvw = rest@.map_values(|p: String| p@);
                assert(out@.map_values(|p: String| p@) =~= segments(s@)) by {
                    assert(segments(s@) == seq![s@.take(i as int)] + segments(
                        s@.skip(i as int + 1),
                    ));
                    assert(rvw == segments(tail@));
                    assert(forall|j: int| 0 <= j < rest@.len() ==> #[trigger] rvw[j] == rest@[j]@);
                }
            }
            return out;
        }
        i = i + 1;
    }
    proof {
        lemma_no_dot_count(s@);
    }
    let mut out: Vec<String> = Vec::new();
    out.push(String::from_str(s));
    proof {
        assert(out@.map_values(|p: String| p@) =~= segments(s@));
    }
    out
}

/// With no dot before `i` and a dot at `i`, the first dot is at `i`.
proof fn lemma_dot_first(s: Seq<char>, i: int)
    requires
        0 <= i < s.len(),
        s[i] == '.',
        forall|j: int| 0 <= j < i ==> s[j] != '.',
    ensures
        dot_count(s) > 0,
        dot_pos(s) == i,
    decreases i,
{
    lemma_dot_basics(s);
    if i == 0 {
    } else {
        assert(forall|j: int| 0 <= j < i - 1 ==> s.skip(1)[j] != '.');
        assert(s.skip(1)[i - 1] == '.');
        lemma_dot_first(s.skip(1), i - 1);
    }
}

/// What one segment counts for.
fn segment_value_of(s: &str) -> (r: u64)
    ensures
        r as nat == segment_value(s@),
{
    match parse_digits_u64(s) {
        Option::Some(n) => n,
        Option::None => 0,
    }
}

/// Whether `remote` denotes a strictly newer version than `current`:
/// dot-separated segments compared numerically left to right, missing and
/// non-numeric segments counting as zero.
#[verifier::loop_isolation(false)]
pub fn is_newer(remote: &str, current: &str) -> (r: bool)
    ensures
        r == spec_is_newer(remote@, current@),
{
    let r_parts = split_segments(remote);
    let c_parts = split_segments(current);
    let ghost rs = r_parts@.map_values(|p: String| p@);
    let ghost cs = c_parts@.map_values(|p: String| p@);
    proof {
        assert(forall|j: int| 0 <= j < r_parts@.len() ==> #[trigger] rs[j] == r_parts@[j]@);
        assert(forall|j: int| 0 <= j < c_parts@.len() ==> #[trigger] cs[j] == c_parts@[j]@);
    }
    let rn = r_parts.len();
    let cn = c_parts.len();
    let n = if rn > cn { rn } else { cn };
    let mut i: usize = 0;
    while i < n
        invariant
            i <= n,
            n == if rn > cn { rn } else { cn },
            rn == rs.len() && cn == cs.len(),
            spec_is_newer(remote@, current@) == newer_from(rs, cs, i as int),
        decreases n - i,
    {
        let rv = if i < rn { segment_value_of(r_parts[i].as_str()) } else { 0 };
        let cv = if i < cn { segment_value_of(c_parts[i].as_str()) } else { 0 };
        if rv > cv {
            return true;
        }
        if rv < cv {
            return false;
        }
        i = i + 1;
    }
    assert(!newer_from(rs, cs, i as int));
    false
}

/// Strip every leading `v` from a release tag.
pub open spec fn spec_strip_v(s: Seq<char>) -> Seq<char>
    decreases s.len(),
{
    if s.len() > 0 && s[0] == 'v' {
        spec_strip_v(s.skip(1))
    } else {
        s
    }
}

/// The executable side of [`spec_strip_v`].
#[verifier::loop_isolation(false)]
pub fn strip_v(s: &str) -> (r: &str)
    ensures
        r@ == spec_strip_v(s@),
{
    let len = s.unicode_len();
    let mut i: usize = 0;
    proof {
        assert(s@.skip(0) =~= s@);
    }
    while i < len && s.get_char(i) == 'v'
        invariant
            i <= len,
            spec_strip_v(s@) == spec_strip_v(s@.skip(i as int)),
        decreases len - i,
    {
        proof {
            assert(s@.skip(i as int)[0] == s@[i as int]);
            assert(s@.skip(i as int).skip(1) =~= s@.skip(i as int + 1));
        }
        i = i + 1;
    }
    proof {
        if i < len {
            assert(s@.skip(i as int)[0] == s@[i as int]);
        }
    }
    let r = s.substring_char(i, len);
    proof {
        assert(r@ =~= s@.skip(i as int));
    }
    r
}

/// Judge a release: the tag with its leading `v` stripped is the remote
/// version; an update is reported exactly when it is newer than the
/// current version.
pub fn evaluate_release(tag: &str, html_url: &str, current: &str) -> (r: Option<UpdateInfo>)
    ensures
        match r {
            Option::Some(info) => spec_is_newer(spec_strip_v(tag@), current@) && info.version@
                == spec_strip_v(tag@) && info.changelog_url@ == html_url@,
            Option::None => !spec_is_newer(spec_strip_v(tag@), current@),
        },
{
    let remote = strip_v(tag);
    if is_newer(remote, current) {
        Option::Some(
            UpdateInfo {
                version: String::from_str(remote),
                changelog_url: String::from_str(html_url),
            },
        )
    } else {
        Option::None
    }
}


/// Whether a persisted dismissal note covers this version: the note's
/// trimmed text must be exactly the version.
pub fn is_dismissed_text(note: &str, version: &str) -> (r: bool)
    ensures
        r == (crate::strutil::trimmed(note@) == version@),
{
    crate::strutil::str_eq(crate::strutil::trim(note), version)
}

} // verus!
