//! The on-disk layout of a transfer directory — the names of the partial
//! archive, the config sidecar, the resume record and the extracted content
//! — and the sanitizer for a user-supplied executable path inside it.

use vstd::prelude::*;
use vstd::string::StrSliceExecFns;

use crate::text::{is_blank, str_is_blank};

verus! {

/// The transfer directory of `id` under the destination root.
pub fn transfer_dir(dest_dir: &str, id: &str) -> (r: String)
    ensures
        r@ == dest_dir@ + "/"@ + id@,
{
    dest_dir.to_owned().concat("/").concat(id)
}

/// The partial (or final) archive's file name: the id with the archive
/// suffix.
pub fn archive_file_name(id: &str) -> (r: String)
    ensures
        r@ == id@ + ".tar.gz"@,
{
    id.to_owned().concat(".tar.gz")
}

/// The config sidecar's file name: the id with the config suffix.
pub fn config_file_name(id: &str) -> (r: String)
    ensures
        r@ == id@ + ".cfg"@,
{
    id.to_owned().concat(".cfg")
}

/// The resume record's file name inside the transfer directory.
pub fn record_file_name() -> (r: String)
    ensures
        r@ == "download.json"@,
{
    "download.json".to_owned()
}

/// The directory the archive is extracted into; its existence is how an
/// installed transfer is recognized.
pub fn content_dir_name() -> (r: String)
    ensures
        r@ == "content"@,
{
    "content".to_owned()
}

/// The characters `[i, j)` form one `/`-separated segment of `s`.
pub open spec fn seg_at(s: Seq<char>, i: int, j: int) -> bool {
    &&& 0 <= i <= j <= s.len()
    &&& (i == 0 || s[i - 1] == '/')
    &&& (j == s.len() || s[j] == '/')
    &&& forall|k: int| i <= k < j ==> s[k] != '/'
}

/// Whether some segment of `s` is `.` or `..`.
pub open spec fn has_dot_segment(s: Seq<char>) -> bool {
    exists|i: int, j: int|
        seg_at(s, i, j) && (s.subrange(i, j) == "."@ || s.subrange(i, j) == ".."@)
}

/// The position of the first separator at or after `i`, or the end.
pub open spec fn seg_end(s: Seq<char>, i: int) -> int
    decreases s.len() - i,
{
    if i < 0 || i >= s.len() {
        s.len() as int
    } else if s[i] == '/' {
        i
    } else {
        seg_end(s, i + 1)
    }
}

/// The first separator at or after `i` lies between `i` and the end, with
/// no separator before it.
pub proof fn lemma_seg_end_bounds(s: Seq<char>, i: int)
    requires
        0 <= i <= s.len(),
    ensures
        i <= seg_end(s, i) <= s.len(),
        forall|k: int| i <= k < seg_end(s, i) ==> s[k] != '/',
        seg_end(s, i) == s.len() || s[seg_end(s, i)] == '/',
    decreases s.len() - i,
{
    if i < s.len() && s[i] != '/' {
        lemma_seg_end_bounds(s, i + 1);
    }
}

/// A separator-free run ending at a separator or at the end is found whole.
pub proof fn lemma_seg_end_run(s: Seq<char>, i: int, j: int)
    requires
        0 <= i <= j <= s.len(),
        forall|k: int| i <= k < j ==> s[k] != '/',
        j == s.len() || s[j] == '/',
    ensures
        seg_end(s, i) == j,
    decreases j - i,
{
    if i < j {
        lemma_seg_end_run(s, i + 1, j);
    }
}

/// The nonempty `/`-separated segments of `s` from position `i` on, in
/// order.
pub open spec fn segments_from(s: Seq<char>, i: int) -> Seq<Seq<char>>
    decreases s.len() + 1 - i,
    when true
    via segments_from_decreases
{
    if i < 0 || i >= s.len() {
        Seq::empty()
    } else if s[i] == '/' {
        segments_from(s, i + 1)
    } else {
        seq![s.subrange(i, seg_end(s, i))] + segments_from(s, seg_end(s, i) + 1)
    }
}

#[via_fn]
proof fn segments_from_decreases(s: Seq<char>, i: int) {
    if 0 <= i && i < s.len() && s[i] != '/' {
        lemma_seg_end_bounds(s, i);
    }
}

/// The nonempty `/`-separated segments of `s`, in order.
pub open spec fn segments_of(s: Seq<char>) -> Seq<Seq<char>> {
    segments_from(s, 0)
}

/// Every segment of a path is nonempty and free of separators: joined in
/// order below a base directory, the segments name a location strictly
/// inside it.
pub proof fn lemma_segments_are_plain(s: Seq<char>, i: int)
    ensures
        forall|m: int|
            0 <= m < segments_from(s, i).len() ==> (#[trigger] segments_from(s, i)[m]).len() > 0,
        forall|m: int, k: int|
            0 <= m < segments_from(s, i).len() && 0 <= k < segments_from(s, i)[m].len()
                ==> #[trigger] segments_from(s, i)[m][k] != '/',
    decreases s.len() - i,
{
    if i < 0 || i >= s.len() {
    } else if s[i] == '/' {
        lemma_segments_are_plain(s, i + 1);
        assert(segments_from(s, i) == segments_from(s, i + 1));
        assert forall|m: int|
            0 <= m < segments_from(s, i).len() implies (#[trigger] segments_from(s, i)[m]).len()
            > 0 by {
            assert(segments_from(s, i)[m] == segments_from(s, i + 1)[m]);
        }
        assert forall|m: int, k: int|
            0 <= m < segments_from(s, i).len() && 0 <= k < segments_from(s, i)[m].len()
            implies #[trigger] segments_from(s, i)[m][k] != '/' by {
            assert(segments_from(s, i)[m] == segments_from(s, i + 1)[m]);
        }
    } else {
        lemma_seg_end_bounds(s, i);
        let e = seg_end(s, i);
        let head = s.subrange(i, e);
        let rest = segments_from(s, e + 1);
        if e + 1 <= s.len() {
            lemma_segments_are_plain(s, e + 1);
        } else {
            assert(rest =~= Seq::<Seq<char>>::empty());
        }
        assert(segments_from(s, i) == seq![head] + rest);
        assert(head.len() > 0);
        assert forall|m: int|
            0 <= m < segments_from(s, i).len() implies (#[trigger] segments_from(s, i)[m]).len()
            > 0 by {
            if m == 0 {
                assert(segments_from(s, i)[m] == head);
            } else {
                assert(segments_from(s, i)[m] == rest[m - 1]);
            }
        }
        assert forall|m: int, k: int|
            0 <= m < segments_from(s, i).len() && 0 <= k < segments_from(s, i)[m].len()
            implies #[trigger] segments_from(s, i)[m][k] != '/' by {
            if m == 0 {
                assert(segments_from(s, i)[m] == head);
                assert(head[k] == s[i + k]);
            } else {
                assert(segments_from(s, i)[m] == rest[m - 1]);
            }
        }
    }
}

/// Validate a user-supplied executable path relative to a transfer's
/// content directory: it must be non-blank, relative, and free of current-
/// and parent-directory segments. The path's nonempty `/`-separated
/// segments are returned, in order, for the host to join below the content
/// directory.
pub fn resolve_executable(executable: &str) -> (r: Result<Vec<String>, String>)
    ensures
        is_blank(executable@) ==> (r matches Err(e) && e@ == "Missing executable path."@),
        !is_blank(executable@) && executable@[0] == '/' ==> (r matches Err(e) && e@
            == "Executable must be a relative path."@),
        !is_blank(executable@) && executable@[0] != '/' && has_dot_segment(executable@) ==> (
        r matches Err(e) && e@ == "Executable path is not safe."@),
        !is_blank(executable@) && executable@[0] != '/' && !has_dot_segment(executable@) ==> (
        r matches Ok(segs) && segs.deep_view() == segments_of(executable@)),
{
    proof {
        reveal_strlit(".");
        reveal_strlit("..");
    }
    if str_is_blank(executable) {
        return Err("Missing executable path.".to_owned());
    }
    let n = executable.unicode_len();
    if executable.get_char(0) == '/' {
        return Err("Executable must be a relative path.".to_owned());
    }
    let mut segs: Vec<String> = Vec::new();
    let mut start: usize = 0;
    let mut i: usize = 0;
    proof {
        assert(segs.deep_view() + segments_from(executable@, 0) =~= segments_of(executable@));
    }
    while i < n
        invariant
            n == executable@.len(),
            !is_blank(executable@),
            executable@[0] != '/',
            start <= i <= n,
            start == 0 || executable@[start - 1] == '/',
            forall|k: int| start <= k < i ==> executable@[k] != '/',
            forall|a: int, b: int|
                #[trigger] seg_at(executable@, a, b) && b < start ==> !(executable@.subrange(a, b)
                    == "."@ || executable@.subrange(a, b) == ".."@),
            segments_of(executable@) == segs.deep_view() + segments_from(
                executable@,
                start as int,
            ),
        decreases n - i,
    {
        if executable.get_char(i) == '/' {
            proof {
                assert(seg_at(executable@, start as int, i as int));
            }
            if segment_is_dot(executable, start, i) {
                proof {
                    assert(has_dot_segment(executable@));
                }
                return Err("Executable path is not safe.".to_owned());
            }
            if i > start {
                let seg = executable.substring_char(start, i).to_owned();
                let ghost dv0 = segs.deep_view();
                segs.push(seg);
                proof {
                    let s = executable@;
                    lemma_seg_end_run(s, start as int, i as int);
                    assert(s[start as int] != '/');
                    assert(segments_from(s, start as int) == seq![
                        s.subrange(start as int, i as int),
                    ] + segments_from(s, i + 1));
                    assert(segs.deep_view() =~= dv0.push(seg@));
                    assert(dv0.push(seg@) + segments_from(s, i + 1) =~= dv0 + (seq![
                        s.subrange(start as int, i as int),
                    ] + segments_from(s, i + 1)));
                }
            } else {
                proof {
                    let s = executable@;
                    assert(s[start as int] == '/');
                    assert(segments_from(s, start as int) == segments_from(s, i + 1));
                }
            }
            proof {
                lemma_segment_closed(executable@, start as int, i as int);
            }
            start = i + 1;
        }
        i = i + 1;
    }
    proof {
        assert(seg_at(executable@, start as int, n as int));
    }
    if segment_is_dot(executable, start, n) {
        proof {
            assert(has_dot_segment(executable@));
        }
        return Err("Executable path is not safe.".to_owned());
    }
    if n > start {
        let seg = executable.substring_char(start, n).to_owned();
        let ghost dv0 = segs.deep_view();
        segs.push(seg);
        proof {
            let s = executable@;
            lemma_seg_end_run(s, start as int, n as int);
            assert(s[start as int] != '/');
            assert(segments_from(s, start as int) == seq![s.subrange(start as int, n as int)]
                + segments_from(s, n + 1));
            assert(segs.deep_view() =~= dv0.push(seg@));
            assert(dv0.push(seg@) =~= dv0 + (seq![s.subrange(start as int, n as int)]
                + segments_from(s, n + 1)));
        }
    } else {
        proof {
            assert(segments_from(executable@, start as int) =~= Seq::<Seq<char>>::empty());
            assert(segs.deep_view() + segments_from(executable@, start as int)
                =~= segs.deep_view());
        }
    }
    proof {
        lemma_segment_closed(executable@, start as int, n as int);
        assert forall|a: int, b: int|
            #[trigger] seg_at(executable@, a, b) implies !(executable@.subrange(a, b) == "."@
            || executable@.subrange(a, b) == ".."@) by {
            if b <= n {
                if b < start {
                } else {
                    assert(b == n || executable@[b] == '/');
                    if b < n {
                        assert(executable@[b] != '/');
                    }
                }
            }
        }
        assert(!has_dot_segment(executable@));
    }
    Ok(segs)
}

/// Whether the segment `[start, end)` of `s` is `.` or `..`.
fn segment_is_dot(s: &str, start: usize, end: usize) -> (r: bool)
    requires
        start <= end <= s@.len(),
    ensures
        r == (s@.subrange(start as int, end as int) == "."@ || s@.subrange(start as int, end as int)
            == ".."@),
{
    proof {
        reveal_strlit(".");
        reveal_strlit("..");
    }
    if end - start == 1 && s.get_char(start) == '.' {
        proof {
            assert(s@.subrange(start as int, end as int) =~= "."@);
        }
        true
    } else if end - start == 2 && s.get_char(start) == '.' && s.get_char(start + 1) == '.' {
        proof {
            assert(s@.subrange(start as int, end as int) =~= ".."@);
        }
        true
    } else {
        proof {
            let sub = s@.subrange(start as int, end as int);
            if sub == "."@ {
                assert(sub.len() == "."@.len());
                assert(sub[0] == "."@[0]);
                assert(sub[0] == s@[start as int]);
                assert(end - start == 1 && s@[start as int] == '.');
            }
            if sub == ".."@ {
                assert(sub.len() == ".."@.len());
                assert(sub[0] == ".."@[0]);
                assert(sub[1] == ".."@[1]);
                assert(sub[0] == s@[start as int]);
                assert(sub[1] == s@[start + 1]);
                assert(end - start == 2 && s@[start as int] == '.' && s@[start + 1] == '.');
            }
        }
        false
    }
}

/// Once the scan has passed a separator, every segment ending at or before
/// it is the one segment that was just checked, or an earlier one.
proof fn lemma_segment_closed(s: Seq<char>, start: int, end: int)
    requires
        seg_at(s, start, end),
        !(s.subrange(start, end) == "."@ || s.subrange(start, end) == ".."@),
        forall|a: int, b: int|
            #[trigger] seg_at(s, a, b) && b < start ==> !(s.subrange(a, b) == "."@ || s.subrange(
                a,
                b,
            ) == ".."@),
    ensures
        forall|a: int, b: int|
            #[trigger] seg_at(s, a, b) && b < end + 1 ==> !(s.subrange(a, b) == "."@ || s.subrange(
                a,
                b,
            ) == ".."@),
{
    assert forall|a: int, b: int| #[trigger] seg_at(s, a, b) && b < end + 1 implies !(s.subrange(
        a,
        b,
    ) == "."@ || s.subrange(a, b) == ".."@) by {
        if b >= start {
            assert(b <= end);
            if b < end {
                assert(s[b] == '/' || b == s.len());
                assert(b < s.len());
                assert(start <= b < end ==> s[b] != '/');
                if start <= b {
                    assert(false);
                }
            } else {
                assert(b == end);
                if a < start {
                    if start > 0 {
                        assert(s[start - 1] == '/');
                        assert(a <= start - 1 < b);
                        assert(false);
                    } else {
                        assert(a >= 0);
                        assert(false);
                    }
                } else if a > start {
                    assert(s[a - 1] == '/');
                    assert(start <= a - 1 < end);
                    assert(false);
                }
            }
        }
    }
}

} // verus!
