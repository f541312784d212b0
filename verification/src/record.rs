//! The resume record: the durable descriptor written beside the partial
//! archive. It is the sole mechanism for reconstructing a transfer whose
//! in-memory handle was lost, and it is deleted together with the partial
//! file on completion or cancellation.

use vstd::prelude::*;
use vstd::string::StrSliceExecFns;

use crate::text::{chars_to_string, dec_digit, dec_rep, u64_to_dec};

verus! {

/// The persisted descriptor of one transfer, stored as `download.json` in
/// the transfer directory.
pub struct ResumeRecord {
    /// The transfer id.
    pub id: String,
    /// Where the archive is fetched from.
    pub archive_url: String,
    /// Where the small config resource is fetched from.
    pub config_url: String,
    /// The destination root directory the transfer was started with.
    pub dest_dir: String,
    /// The stored credential, if any; a caller-supplied fallback is used
    /// when absent.
    pub token: Option<String>,
    /// The archive's total size, once a response settled it.
    pub total: Option<u64>,
}

impl Clone for ResumeRecord {
    fn clone(&self) -> (r: ResumeRecord)
        ensures
            r == *self,
    {
        ResumeRecord {
            id: self.id.clone(),
            archive_url: self.archive_url.clone(),
            config_url: self.config_url.clone(),
            dest_dir: self.dest_dir.clone(),
            token: match &self.token {
                Some(t) => Some(t.clone()),
                None => None,
            },
            total: self.total,
        }
    }
}

/// How one character is written inside a quoted string of the record file:
/// a quote or a backslash is preceded by a backslash, anything else stands
/// as itself.
pub open spec fn esc_char(c: char) -> Seq<char> {
    if c == '"' || c == '\\' {
        seq!['\\', c]
    } else {
        seq![c]
    }
}

/// The escaped form of a string's characters.
pub open spec fn esc(s: Seq<char>) -> Seq<char>
    decreases s.len(),
{
    if s.len() == 0 {
        Seq::empty()
    } else {
        esc(s.drop_last()) + esc_char(s.last())
    }
}

/// A string field as written in the record file: its escaped characters
/// between double quotes.
pub open spec fn quoted(s: Seq<char>) -> Seq<char> {
    seq!['"'] + esc(s) + seq!['"']
}

/// The text of the record file for a given record: one object with the
/// fields in fixed order, strings quoted and escaped, the optional
/// credential and total written as `null` when absent.
pub open spec fn encode_spec(rec: ResumeRecord) -> Seq<char> {
    "{\"id\":"@ + quoted(rec.id@) + ",\"archiveUrl\":"@ + quoted(rec.archive_url@)
        + ",\"configUrl\":"@ + quoted(rec.config_url@) + ",\"destDir\":"@ + quoted(rec.dest_dir@)
        + ",\"token\":"@ + (match rec.token {
        Some(t) => quoted(t@),
        None => "null"@,
    }) + ",\"total\":"@ + (match rec.total {
        Some(n) => dec_rep(n as nat),
        None => "null"@,
    }) + "}"@
}

/// Escaping from the front: the escaped head followed by the escaped tail.
pub proof fn lemma_esc_front(s: Seq<char>)
    requires
        s.len() > 0,
    ensures
        esc(s) == esc_char(s[0]) + esc(s.drop_first()),
    decreases s.len(),
{
    if s.len() == 1 {
        assert(s.drop_last() =~= Seq::<char>::empty());
        assert(s.drop_first() =~= Seq::<char>::empty());
        assert(esc(s) =~= esc_char(s[0]) + esc(s.drop_first()));
    } else {
        let dl = s.drop_last();
        lemma_esc_front(dl);
        assert(s.drop_first().drop_last() =~= dl.drop_first());
        assert(s.drop_first().last() == s.last());
        assert(esc(s.drop_first()) == esc(dl.drop_first()) + esc_char(s.last()));
        assert((esc_char(s[0]) + esc(dl.drop_first())) + esc_char(s.last()) =~= esc_char(s[0]) + (
        esc(dl.drop_first()) + esc_char(s.last())));
    }
}

/// Append `s`'s characters to `out`.
fn push_str_chars(out: &mut Vec<char>, s: &str)
    ensures
        final(out)@ == old(out)@ + s@,
{
    let n = s.unicode_len();
    let mut i: usize = 0;
    proof {
        assert(out@ + s@.take(0) =~= out@);
    }
    while i < n
        invariant
            n == s@.len(),
            i <= n,
            out@ == old(out)@ + s@.take(i as int),
        decreases n - i,
    {
        out.push(s.get_char(i));
        proof {
            assert((old(out)@ + s@.take(i as int)).push(s@[i as int]) =~= old(out)@ + s@.take(
                i + 1,
            ));
        }
        i = i + 1;
    }
    proof {
        assert(old(out)@ + s@.take(n as int) =~= old(out)@ + s@);
    }
}

/// Append the quoted, escaped form of `s` to `out`.
fn push_quoted(out: &mut Vec<char>, s: &str)
    ensures
        final(out)@ == old(out)@ + quoted(s@),
{
    let n = s.unicode_len();
    out.push('"');
    let mut i: usize = 0;
    proof {
        assert(esc(s@.take(0)) =~= Seq::<char>::empty());
        assert(out@ =~= old(out)@ + seq!['"'] + esc(s@.take(0)));
    }
    while i < n
        invariant
            n == s@.len(),
            i <= n,
            out@ == old(out)@ + seq!['"'] + esc(s@.take(i as int)),
        decreases n - i,
    {
        let c = s.get_char(i);
        proof {
            assert(s@.take(i + 1).drop_last() =~= s@.take(i as int));
            assert(s@.take(i + 1).last() == s@[i as int]);
            assert(esc(s@.take(i + 1)) == esc(s@.take(i as int)) + esc_char(s@[i as int]));
        }
        if c == '"' || c == '\\' {
            out.push('\\');
            out.push(c);
            proof {
                assert(((old(out)@ + seq!['"'] + esc(s@.take(i as int))).push('\\')).push(c)
                    =~= old(out)@ + seq!['"'] + esc(s@.take(i + 1)));
            }
        } else {
            out.push(c);
            proof {
                assert((old(out)@ + seq!['"'] + esc(s@.take(i as int))).push(c) =~= old(out)@ + seq![
                    '"',
                ] + esc(s@.take(i + 1)));
            }
        }
        i = i + 1;
    }
    proof {
        assert(s@.take(n as int) =~= s@);
    }
    out.push('"');
    proof {
        assert((old(out)@ + seq!['"'] + esc(s@)).push('"') =~= old(out)@ + quoted(s@));
    }
}

/// The abstract content of a record file: the four string fields, the
/// optional credential and the optional total.
pub type RecordModel = (Seq<char>, Seq<char>, Seq<char>, Seq<char>, Option<Seq<char>>, Option<u64>);

/// The abstract content of a record value.
pub open spec fn record_model(rec: ResumeRecord) -> RecordModel {
    (
        rec.id@,
        rec.archive_url@,
        rec.config_url@,
        rec.dest_dir@,
        match rec.token {
            Some(t) => Some(t@),
            None => None,
        },
        rec.total,
    )
}

/// Whether `c` is a decimal digit.
pub open spec fn is_digit(c: char) -> bool {
    c == '0' || c == '1' || c == '2' || c == '3' || c == '4' || c == '5' || c == '6' || c == '7'
        || c == '8' || c == '9'
}

/// The value of a decimal digit.
pub open spec fn digit_val(c: char) -> int {
    if c == '0' {
        0
    } else if c == '1' {
        1
    } else if c == '2' {
        2
    } else if c == '3' {
        3
    } else if c == '4' {
        4
    } else if c == '5' {
        5
    } else if c == '6' {
        6
    } else if c == '7' {
        7
    } else if c == '8' {
        8
    } else {
        9
    }
}

/// The value of a digit string, most significant digit first.
pub open spec fn dec_val(s: Seq<char>) -> int
    decreases s.len(),
{
    if s.len() == 0 {
        0
    } else {
        dec_val(s.drop_last()) * 10 + digit_val(s.last())
    }
}

/// The position after `lit` if it stands at `pos` in `v`.
pub open spec fn eat_lit(v: Seq<char>, pos: int, lit: Seq<char>) -> Option<int> {
    if 0 <= pos && pos + lit.len() <= v.len() && v.subrange(pos, pos + lit.len()) == lit {
        Some(pos + lit.len())
    } else {
        None
    }
}

/// Scan the body of a quoted string starting at `pos` (just after the
/// opening quote): characters up to the closing quote, with exactly the
/// two canonical escapes accepted.
pub open spec fn scan_str(v: Seq<char>, pos: int) -> Option<(Seq<char>, int)>
    decreases v.len() - pos,
{
    if pos < 0 || pos >= v.len() {
        None
    } else if v[pos] == '"' {
        Some((Seq::empty(), pos + 1))
    } else if v[pos] == '\\' {
        if pos + 1 < v.len() && (v[pos + 1] == '"' || v[pos + 1] == '\\') {
            match scan_str(v, pos + 2) {
                Some(t) => Some((seq![v[pos + 1]] + t.0, t.1)),
                None => None,
            }
        } else {
            None
        }
    } else {
        match scan_str(v, pos + 1) {
            Some(t) => Some((seq![v[pos]] + t.0, t.1)),
            None => None,
        }
    }
}

/// A quoted string starting at `pos`: an opening quote, then its body.
pub open spec fn eat_quoted(v: Seq<char>, pos: int) -> Option<(Seq<char>, int)> {
    if 0 <= pos && pos < v.len() && v[pos] == '"' {
        scan_str(v, pos + 1)
    } else {
        None
    }
}

/// The end of the run of digits starting at `pos`.
pub open spec fn digits_end(v: Seq<char>, pos: int) -> int
    decreases v.len() - pos,
{
    if pos < 0 || pos >= v.len() || !is_digit(v[pos]) {
        pos
    } else {
        digits_end(v, pos + 1)
    }
}

/// A canonical number starting at `pos`: at least one digit, no leading
/// zero except for zero itself, and a value that fits.
pub open spec fn eat_num(v: Seq<char>, pos: int) -> Option<(u64, int)> {
    let end = digits_end(v, pos);
    if end == pos {
        None
    } else if v[pos] == '0' && end > pos + 1 {
        None
    } else if dec_val(v.subrange(pos, end)) > u64::MAX {
        None
    } else {
        Some((dec_val(v.subrange(pos, end)) as u64, end))
    }
}

/// An optional string value: a quoted string, or the word `null`.
pub open spec fn eat_opt_str(v: Seq<char>, pos: int) -> Option<(Option<Seq<char>>, int)> {
    if 0 <= pos && pos < v.len() && v[pos] == '"' {
        match eat_quoted(v, pos) {
            Some(t) => Some((Some(t.0), t.1)),
            None => None,
        }
    } else {
        match eat_lit(v, pos, "null"@) {
            Some(p) => Some((None, p)),
            None => None,
        }
    }
}

/// An optional number value: a canonical number, or the word `null`.
pub open spec fn eat_opt_num(v: Seq<char>, pos: int) -> Option<(Option<u64>, int)> {
    if 0 <= pos && pos < v.len() && is_digit(v[pos]) {
        match eat_num(v, pos) {
            Some(t) => Some((Some(t.0), t.1)),
            None => None,
        }
    } else {
        match eat_lit(v, pos, "null"@) {
            Some(p) => Some((None, p)),
            None => None,
        }
    }
}

/// The record a whole file's text denotes, if it is well-formed: the
/// object structure of [`encode_spec`], with nothing before or after it.
pub open spec fn parse_spec(v: Seq<char>) -> Option<RecordModel> {
    match eat_lit(v, 0, "{\"id\":"@) {
        None => None,
        Some(p1) => match eat_quoted(v, p1) {
            None => None,
            Some((id, p2)) => match eat_lit(v, p2, ",\"archiveUrl\":"@) {
                None => None,
                Some(p3) => match eat_quoted(v, p3) {
                    None => None,
                    Some((archive_url, p4)) => match eat_lit(v, p4, ",\"configUrl\":"@) {
                        None => None,
                        Some(p5) => match eat_quoted(v, p5) {
                            None => None,
                            Some((config_url, p6)) => match eat_lit(v, p6, ",\"destDir\":"@) {
                                None => None,
                                Some(p7) => match eat_quoted(v, p7) {
                                    None => None,
                                    Some((dest_dir, p8)) => match eat_lit(v, p8, ",\"token\":"@) {
                                        None => None,
                                        Some(p9) => match eat_opt_str(v, p9) {
                                            None => None,
                                            Some((token, p10)) => match eat_lit(
                                                v,
                                                p10,
                                                ",\"total\":"@,
                                            ) {
                                                None => None,
                                                Some(p11) => match eat_opt_num(v, p11) {
                                                    None => None,
                                                    Some((total, p12)) => match eat_lit(
                                                        v,
                                                        p12,
                                                        "}"@,
                                                    ) {
                                                        None => None,
                                                        Some(p13) => if p13 == v.len() {
                                                            Some(
                                                                (
                                                                    id,
                                                                    archive_url,
                                                                    config_url,
                                                                    dest_dir,
                                                                    token,
                                                                    total,
                                                                ),
                                                            )
                                                        } else {
                                                            None
                                                        },
                                                    },
                                                },
                                            },
                                        },
                                    },
                                },
                            },
                        },
                    },
                },
            },
        },
    }
}

/// Scanning the escaped form of `x` followed by a closing quote yields
/// exactly `x` and stops just past the quote.
proof fn lemma_scan_esc(v: Seq<char>, pos: int, x: Seq<char>)
    requires
        0 <= pos,
        pos + esc(x).len() < v.len(),
        v.subrange(pos, pos + esc(x).len()) == esc(x),
        v[pos + esc(x).len()] == '"',
    ensures
        scan_str(v, pos) == Some((x, pos + esc(x).len() + 1)),
    decreases x.len(),
{
    if x.len() == 0 {
        assert(esc(x).len() == 0);
        assert(v[pos] == '"');
    } else {
        lemma_esc_front(x);
        let c = x[0];
        let x1 = x.drop_first();
        let e1 = esc(x1);
        if c == '"' || c == '\\' {
            assert(esc(x) == seq!['\\', c] + e1);
            assert(v[pos] == esc(x)[0]) by {
                assert(v.subrange(pos, pos + esc(x).len())[0] == v[pos]);
            }
            assert(esc(x)[0] == '\\');
            assert(v[pos + 1] == esc(x)[1]) by {
                assert(v.subrange(pos, pos + esc(x).len())[1] == v[pos + 1]);
            }
            assert(esc(x)[1] == c);
            assert(v.subrange(pos + 2, pos + 2 + e1.len()) =~= e1) by {
                assert forall|k: int| 0 <= k < e1.len() implies v.subrange(
                    pos + 2,
                    pos + 2 + e1.len(),
                )[k] == e1[k] by {
                    assert(v.subrange(pos, pos + esc(x).len())[2 + k] == v[pos + 2 + k]);
                    assert(esc(x)[2 + k] == e1[k]);
                }
            }
            assert(v[pos + 2 + e1.len()] == '"');
            lemma_scan_esc(v, pos + 2, x1);
            assert(seq![c] + x1 =~= x);
        } else {
            assert(esc(x) == seq![c] + e1);
            assert(v[pos] == esc(x)[0]) by {
                assert(v.subrange(pos, pos + esc(x).len())[0] == v[pos]);
            }
            assert(esc(x)[0] == c);
            assert(v.subrange(pos + 1, pos + 1 + e1.len()) =~= e1) by {
                assert forall|k: int| 0 <= k < e1.len() implies v.subrange(
                    pos + 1,
                    pos + 1 + e1.len(),
                )[k] == e1[k] by {
                    assert(v.subrange(pos, pos + esc(x).len())[1 + k] == v[pos + 1 + k]);
                    assert(esc(x)[1 + k] == e1[k]);
                }
            }
            assert(v[pos + 1 + e1.len()] == '"');
            lemma_scan_esc(v, pos + 1, x1);
            assert(seq![c] + x1 =~= x);
        }
    }
}

/// A quoted string standing at `pos` is read back as its content.
proof fn lemma_eat_quoted_at(v: Seq<char>, pos: int, x: Seq<char>)
    requires
        0 <= pos,
        pos + quoted(x).len() <= v.len(),
        v.subrange(pos, pos + quoted(x).len()) == quoted(x),
    ensures
        eat_quoted(v, pos) == Some((x, pos + quoted(x).len())),
{
    let q = quoted(x);
    let el = esc(x).len() as int;
    assert(q.len() == el + 2);
    assert(v[pos] == q[0]) by {
        assert(v.subrange(pos, pos + q.len())[0] == v[pos]);
    }
    assert(q[0] == '"');
    assert(v.subrange(pos + 1, pos + 1 + el) =~= esc(x)) by {
        assert forall|k: int| 0 <= k < el implies v.subrange(pos + 1, pos + 1 + el)[k] == esc(x)[k]
        by {
            assert(v.subrange(pos, pos + q.len())[1 + k] == v[pos + 1 + k]);
            assert(q[1 + k] == esc(x)[k]);
        }
    }
    assert(v[pos + 1 + el] == q[1 + el]) by {
        assert(v.subrange(pos, pos + q.len())[1 + el] == v[pos + 1 + el]);
    }
    assert(q[1 + el] == '"');
    lemma_scan_esc(v, pos + 1, x);
}

/// The decimal rendering of a number consists of digits, has no leading
/// zero unless the number is zero, and denotes the number.
proof fn lemma_dec_rep_value(n: nat)
    ensures
        dec_rep(n).len() >= 1,
        forall|i: int| 0 <= i < dec_rep(n).len() ==> is_digit(#[trigger] dec_rep(n)[i]),
        dec_rep(n)[0] == '0' ==> n == 0,
        dec_val(dec_rep(n)) == n,
    decreases n,
{
    if n < 10 {
        assert(dec_rep(n) == seq![dec_digit(n as int)]);
        assert(dec_rep(n).drop_last() =~= Seq::<char>::empty());
        assert(digit_val(dec_digit(n as int)) == n);
        assert(dec_val(Seq::<char>::empty()) == 0);
        assert(dec_rep(n).last() == dec_digit(n as int));
        assert(dec_val(dec_rep(n)) == dec_val(dec_rep(n).drop_last()) * 10 + digit_val(
            dec_rep(n).last(),
        ));
    } else {
        lemma_dec_rep_value(n / 10);
        let d = dec_rep(n / 10);
        assert(dec_rep(n) == d + seq![dec_digit((n % 10) as int)]);
        assert(dec_rep(n).drop_last() =~= d);
        assert(dec_rep(n)[0] == d[0]);
        assert(dec_val(dec_rep(n)) == dec_val(d) * 10 + digit_val(dec_digit((n % 10) as int)));
        assert(digit_val(dec_digit((n % 10) as int)) == n % 10);
        assert(n / 10 * 10 + n % 10 == n);
    }
}

/// A maximal run of digits ends where the digits end.
proof fn lemma_digits_end_run(v: Seq<char>, pos: int, end: int)
    requires
        0 <= pos <= end <= v.len(),
        forall|k: int| pos <= k < end ==> is_digit(#[trigger] v[k]),
        end == v.len() || !is_digit(v[end]),
    ensures
        digits_end(v, pos) == end,
    decreases end - pos,
{
    if pos < end {
        lemma_digits_end_run(v, pos + 1, end);
    }
}

/// The decimal rendering of a number standing at `pos`, followed by a
/// non-digit, is read back as that number.
proof fn lemma_eat_num_at(v: Seq<char>, pos: int, n: u64)
    requires
        0 <= pos,
        pos + dec_rep(n as nat).len() <= v.len(),
        v.subrange(pos, pos + dec_rep(n as nat).len()) == dec_rep(n as nat),
        pos + dec_rep(n as nat).len() == v.len() || !is_digit(v[pos + dec_rep(n as nat).len()]),
    ensures
        eat_num(v, pos) == Some((n, pos + dec_rep(n as nat).len())),
{
    let d = dec_rep(n as nat);
    lemma_dec_rep_value(n as nat);
    assert forall|k: int| pos <= k < pos + d.len() implies is_digit(#[trigger] v[k]) by {
        assert(v.subrange(pos, pos + d.len())[k - pos] == v[k]);
        assert(is_digit(d[k - pos]));
    }
    lemma_digits_end_run(v, pos, pos + d.len());
    assert(v.subrange(pos, pos + d.len()) == d);
    assert(v[pos] == d[0]) by {
        assert(v.subrange(pos, pos + d.len())[0] == v[pos]);
    }
    if v[pos] == '0' {
        assert(n == 0);
        assert(d.len() == 1);
    }
    assert(dec_val(v.subrange(pos, pos + d.len())) == n);
}

/// The boundaries of the fields inside the encoded text.
spec fn pos1(rec: ResumeRecord) -> int {
    "{\"id\":"@.len() as int
}

spec fn pos2(rec: ResumeRecord) -> int {
    pos1(rec) + quoted(rec.id@).len()
}

spec fn pos3(rec: ResumeRecord) -> int {
    pos2(rec) + ",\"archiveUrl\":"@.len()
}

spec fn pos4(rec: ResumeRecord) -> int {
    pos3(rec) + quoted(rec.archive_url@).len()
}

spec fn pos5(rec: ResumeRecord) -> int {
    pos4(rec) + ",\"configUrl\":"@.len()
}

spec fn pos6(rec: ResumeRecord) -> int {
    pos5(rec) + quoted(rec.config_url@).len()
}

spec fn pos7(rec: ResumeRecord) -> int {
    pos6(rec) + ",\"destDir\":"@.len()
}

spec fn pos8(rec: ResumeRecord) -> int {
    pos7(rec) + quoted(rec.dest_dir@).len()
}

spec fn pos9(rec: ResumeRecord) -> int {
    pos8(rec) + ",\"token\":"@.len()
}

/// The text of the optional credential field.
spec fn token_text(rec: ResumeRecord) -> Seq<char> {
    match rec.token {
        Some(t) => quoted(t@),
        None => "null"@,
    }
}

/// The text of the optional total field.
spec fn total_text(rec: ResumeRecord) -> Seq<char> {
    match rec.total {
        Some(n) => dec_rep(n as nat),
        None => "null"@,
    }
}

spec fn pos10(rec: ResumeRecord) -> int {
    pos9(rec) + token_text(rec).len()
}

spec fn pos11(rec: ResumeRecord) -> int {
    pos10(rec) + ",\"total\":"@.len()
}

spec fn pos12(rec: ResumeRecord) -> int {
    pos11(rec) + total_text(rec).len()
}

spec fn pos13(rec: ResumeRecord) -> int {
    pos12(rec) + "}"@.len()
}

/// The credential as the parser reports it.
spec fn token_model(rec: ResumeRecord) -> Option<Seq<char>> {
    match rec.token {
        Some(t) => Some(t@),
        None => None,
    }
}

/// The id and archive fields are read back from their slots.
proof fn lemma_rt_head(rec: ResumeRecord)
    ensures
        eat_lit(encode_spec(rec), 0, "{\"id\":"@) == Some(pos1(rec)),
        eat_quoted(encode_spec(rec), pos1(rec)) == Some((rec.id@, pos2(rec))),
        eat_lit(encode_spec(rec), pos2(rec), ",\"archiveUrl\":"@) == Some(pos3(rec)),
        eat_quoted(encode_spec(rec), pos3(rec)) == Some((rec.archive_url@, pos4(rec))),
{
    let v = encode_spec(rec);
    assert(v.len() == pos13(rec));
    assert(v.subrange(0, pos1(rec)) =~= "{\"id\":"@);
    assert(v.subrange(pos1(rec), pos2(rec)) =~= quoted(rec.id@));
    lemma_eat_quoted_at(v, pos1(rec), rec.id@);
    assert(v.subrange(pos2(rec), pos3(rec)) =~= ",\"archiveUrl\":"@);
    assert(v.subrange(pos3(rec), pos4(rec)) =~= quoted(rec.archive_url@));
    lemma_eat_quoted_at(v, pos3(rec), rec.archive_url@);
}

/// The config and destination fields are read back from their slots.
proof fn lemma_rt_mid(rec: ResumeRecord)
    ensures
        eat_lit(encode_spec(rec), pos4(rec), ",\"configUrl\":"@) == Some(pos5(rec)),
        eat_quoted(encode_spec(rec), pos5(rec)) == Some((rec.config_url@, pos6(rec))),
        eat_lit(encode_spec(rec), pos6(rec), ",\"destDir\":"@) == Some(pos7(rec)),
        eat_quoted(encode_spec(rec), pos7(rec)) == Some((rec.dest_dir@, pos8(rec))),
{
    let v = encode_spec(rec);
    assert(v.len() == pos13(rec));
    assert(v.subrange(pos4(rec), pos5(rec)) =~= ",\"configUrl\":"@);
    assert(v.subrange(pos5(rec), pos6(rec)) =~= quoted(rec.config_url@));
    lemma_eat_quoted_at(v, pos5(rec), rec.config_url@);
    assert(v.subrange(pos6(rec), pos7(rec)) =~= ",\"destDir\":"@);
    assert(v.subrange(pos7(rec), pos8(rec)) =~= quoted(rec.dest_dir@));
    lemma_eat_quoted_at(v, pos7(rec), rec.dest_dir@);
}

/// The credential field is read back from its slot.
proof fn lemma_rt_token(rec: ResumeRecord)
    ensures
        eat_lit(encode_spec(rec), pos8(rec), ",\"token\":"@) == Some(pos9(rec)),
        eat_opt_str(encode_spec(rec), pos9(rec)) == Some((token_model(rec), pos10(rec))),
{
    let v = encode_spec(rec);
    assert(v.len() == pos13(rec));
    assert(v.subrange(pos8(rec), pos9(rec)) =~= ",\"token\":"@);
    match rec.token {
        Some(t) => {
            assert(v.subrange(pos9(rec), pos10(rec)) =~= quoted(t@));
            lemma_eat_quoted_at(v, pos9(rec), t@);
            assert(v[pos9(rec)] == quoted(t@)[0]) by {
                assert(v.subrange(pos9(rec), pos10(rec))[0] == v[pos9(rec)]);
            }
            assert(v[pos9(rec)] == '"');
        },
        None => {
            reveal_strlit("null");
            assert(v.subrange(pos9(rec), pos10(rec)) =~= "null"@);
            assert(v[pos9(rec)] == "null"@[0]) by {
                assert(v.subrange(pos9(rec), pos10(rec))[0] == v[pos9(rec)]);
            }
            assert(v[pos9(rec)] != '"');
            assert(eat_lit(v, pos9(rec), "null"@) == Some(pos10(rec)));
        },
    }
}

/// The total field and the closing brace are read back, ending at the end
/// of the text.
proof fn lemma_rt_total(rec: ResumeRecord)
    ensures
        eat_lit(encode_spec(rec), pos10(rec), ",\"total\":"@) == Some(pos11(rec)),
        eat_opt_num(encode_spec(rec), pos11(rec)) == Some((rec.total, pos12(rec))),
        eat_lit(encode_spec(rec), pos12(rec), "}"@) == Some(pos13(rec)),
        encode_spec(rec).len() == pos13(rec),
{
    let v = encode_spec(rec);
    assert(v.len() == pos13(rec));
    assert(v.subrange(pos10(rec), pos11(rec)) =~= ",\"total\":"@);
    assert(v.subrange(pos12(rec), pos13(rec)) =~= "}"@);
    reveal_strlit("}");
    match rec.total {
        Some(n) => {
            assert(v.subrange(pos11(rec), pos12(rec)) =~= dec_rep(n as nat));
            lemma_dec_rep_value(n as nat);
            assert(v[pos12(rec)] == "}"@[0]) by {
                assert(v.subrange(pos12(rec), pos13(rec))[0] == v[pos12(rec)]);
            }
            assert(v[pos12(rec)] == '}');
            assert(!is_digit(v[pos12(rec)]));
            lemma_eat_num_at(v, pos11(rec), n);
            assert(v[pos11(rec)] == dec_rep(n as nat)[0]) by {
                assert(v.subrange(pos11(rec), pos12(rec))[0] == v[pos11(rec)]);
            }
            assert(is_digit(v[pos11(rec)]));
            assert(eat_opt_num(v, pos11(rec)) == Some((Some(n), pos12(rec))));
        },
        None => {
            reveal_strlit("null");
            assert(v.subrange(pos11(rec), pos12(rec)) =~= "null"@);
            assert(v[pos11(rec)] == "null"@[0]) by {
                assert(v.subrange(pos11(rec), pos12(rec))[0] == v[pos11(rec)]);
            }
            assert(v[pos11(rec)] == 'n');
            assert(!is_digit(v[pos11(rec)]));
            assert(eat_lit(v, pos11(rec), "null"@) == Some(pos12(rec)));
            assert(eat_opt_num(v, pos11(rec)) == Some((None::<u64>, pos12(rec))));
        },
    }
}

/// Reading the file written for a record yields the record: the codec
/// round-trips, so a transfer reconstructed from disk is the transfer
/// that was persisted.
#[verifier::rlimit(100)]
pub proof fn lemma_record_round_trip(rec: ResumeRecord)
    ensures
        parse_spec(encode_spec(rec)) == Some(record_model(rec)),
{
    let v = encode_spec(rec);
    lemma_rt_head(rec);
    lemma_rt_mid(rec);
    lemma_rt_token(rec);
    lemma_rt_total(rec);
    assert(parse_spec(v) == Some(record_model(rec)));
}

/// Whether `c` is a decimal digit.
fn is_digit_exec(c: char) -> (r: bool)
    ensures
        r == is_digit(c),
{
    c == '0' || c == '1' || c == '2' || c == '3' || c == '4' || c == '5' || c == '6' || c == '7'
        || c == '8' || c == '9'
}

/// The value of a decimal digit.
fn digit_val_exec(c: char) -> (r: u64)
    requires
        is_digit(c),
    ensures
        r == digit_val(c),
{
    if c == '0' {
        0
    } else if c == '1' {
        1
    } else if c == '2' {
        2
    } else if c == '3' {
        3
    } else if c == '4' {
        4
    } else if c == '5' {
        5
    } else if c == '6' {
        6
    } else if c == '7' {
        7
    } else if c == '8' {
        8
    } else {
        9
    }
}

/// Match `lit` at `pos`.
fn eat_lit_exec(v: &Vec<char>, pos: usize, lit: &str) -> (r: Option<usize>)
    ensures
        match r {
            Some(p) => eat_lit(v@, pos as int, lit@) == Some(p as int),
            None => eat_lit(v@, pos as int, lit@) is None,
        },
{
    let n = lit.unicode_len();
    if pos > v.len() || n > v.len() - pos {
        return None;
    }
    let mut k: usize = 0;
    while k < n
        invariant
            n == lit@.len(),
            pos + n <= v@.len(),
            pos + n <= usize::MAX,
            k <= n,
            forall|j: int| 0 <= j < k ==> v@[pos + j] == lit@[j],
        decreases n - k,
    {
        if v[pos + k] != lit.get_char(k) {
            proof {
                assert(v@.subrange(pos as int, pos + lit@.len())[k as int] != lit@[k as int]);
            }
            return None;
        }
        k = k + 1;
    }
    proof {
        assert(v@.subrange(pos as int, pos + lit@.len()) =~= lit@);
    }
    Some(pos + n)
}

/// Scan the body of a quoted string starting just after its opening quote.
fn scan_str_exec(v: &Vec<char>, start: usize) -> (r: Option<(Vec<char>, usize)>)
    ensures
        match r {
            Some(t) => scan_str(v@, start as int) == Some((t.0@, t.1 as int)),
            None => scan_str(v@, start as int) is None,
        },
{
    let mut acc: Vec<char> = Vec::new();
    let mut pos: usize = start;
    loop
        invariant
            start <= pos,
            (match scan_str(v@, pos as int) {
                Some(t) => scan_str(v@, start as int) == Some::<(Seq<char>, int)>(
                    (acc@ + t.0, t.1),
                ),
                None => scan_str(v@, start as int) is None,
            }),
        decreases v@.len() - pos,
    {
        if pos >= v.len() {
            return None;
        }
        let c = v[pos];
        if c == '"' {
            proof {
                assert(scan_str(v@, pos as int) == Some((Seq::<char>::empty(), pos + 1)));
                assert(acc@ + Seq::<char>::empty() =~= acc@);
            }
            return Some((acc, pos + 1));
        } else if c == '\\' {
            if pos + 1 >= v.len() {
                return None;
            }
            let c2 = v[pos + 1];
            if c2 == '"' || c2 == '\\' {
                proof {
                    match scan_str(v@, pos + 2) {
                        Some(t2) => {
                            assert(scan_str(v@, pos as int) == Some((seq![c2] + t2.0, t2.1)));
                            assert(acc@ + (seq![c2] + t2.0) =~= acc@.push(c2) + t2.0);
                        },
                        None => {
                            assert(scan_str(v@, pos as int) is None);
                        },
                    }
                }
                acc.push(c2);
                pos = pos + 2;
            } else {
                return None;
            }
        } else {
            proof {
                match scan_str(v@, pos + 1) {
                    Some(t1) => {
                        assert(scan_str(v@, pos as int) == Some((seq![c] + t1.0, t1.1)));
                        assert(acc@ + (seq![c] + t1.0) =~= acc@.push(c) + t1.0);
                    },
                    None => {
                        assert(scan_str(v@, pos as int) is None);
                    },
                }
            }
            acc.push(c);
            pos = pos + 1;
        }
    }
}

/// Match a quoted string at `pos`.
fn eat_quoted_exec(v: &Vec<char>, pos: usize) -> (r: Option<(Vec<char>, usize)>)
    ensures
        match r {
            Some(t) => eat_quoted(v@, pos as int) == Some((t.0@, t.1 as int)),
            None => eat_quoted(v@, pos as int) is None,
        },
{
    if pos < v.len() && v[pos] == '"' {
        scan_str_exec(v, pos + 1)
    } else {
        None
    }
}

/// Every position of a digit run up to its end holds a digit.
proof fn lemma_digits_end_bounds(v: Seq<char>, pos: int)
    requires
        0 <= pos,
    ensures
        pos <= digits_end(v, pos) <= v.len() || (pos > v.len() && digits_end(v, pos) == pos),
        forall|k: int| pos <= k < digits_end(v, pos) ==> is_digit(#[trigger] v[k]),
    decreases v.len() - pos,
{
    if pos < v.len() && is_digit(v[pos]) {
        lemma_digits_end_bounds(v, pos + 1);
    }
}

/// A digit string's value never shrinks as digits are appended.
proof fn lemma_dec_val_nonneg(s: Seq<char>)
    ensures
        dec_val(s) >= 0,
    decreases s.len(),
{
    if s.len() > 0 {
        lemma_dec_val_nonneg(s.drop_last());
    }
}

/// Extending a digit run can only grow its value.
proof fn lemma_dec_val_mono(v: Seq<char>, pos: int, i: int, j: int)
    requires
        0 <= pos <= i <= j <= v.len(),
    ensures
        dec_val(v.subrange(pos, j)) >= dec_val(v.subrange(pos, i)),
    decreases j - i,
{
    if i < j {
        lemma_dec_val_mono(v, pos, i, j - 1);
        let s = v.subrange(pos, j);
        assert(s.drop_last() =~= v.subrange(pos, j - 1));
        lemma_dec_val_nonneg(v.subrange(pos, j - 1));
    }
}

/// The end of a digit run is unchanged by skipping over leading digits.
proof fn lemma_digits_end_skip(v: Seq<char>, pos: int, p: int)
    requires
        0 <= pos <= p <= v.len(),
        forall|k: int| pos <= k < p ==> is_digit(#[trigger] v[k]),
    ensures
        digits_end(v, pos) == digits_end(v, p),
    decreases p - pos,
{
    if pos < p {
        lemma_digits_end_skip(v, pos + 1, p);
    }
}

/// Match a canonical number at `pos`.
fn eat_num_exec(v: &Vec<char>, pos: usize) -> (r: Option<(u64, usize)>)
    ensures
        match r {
            Some(t) => eat_num(v@, pos as int) == Some((t.0, t.1 as int)),
            None => eat_num(v@, pos as int) is None,
        },
{
    proof {
        lemma_digits_end_bounds(v@, pos as int);
    }
    if pos >= v.len() || !is_digit_exec(v[pos]) {
        return None;
    }
    if v[pos] == '0' {
        if pos + 1 < v.len() && is_digit_exec(v[pos + 1]) {
            proof {
                lemma_digits_end_bounds(v@, pos + 2);
                assert(digits_end(v@, pos as int) == digits_end(v@, pos + 1));
                assert(digits_end(v@, pos + 1) == digits_end(v@, pos + 2));
            }
            return None;
        }
        proof {
            assert(digits_end(v@, pos as int) == digits_end(v@, pos + 1));
            assert(digits_end(v@, pos + 1) == pos + 1);
            let s = v@.subrange(pos as int, pos + 1);
            assert(s.drop_last() =~= Seq::<char>::empty());
            assert(s.last() == '0');
            assert(dec_val(Seq::<char>::empty()) == 0);
            assert(dec_val(s) == 0);
        }
        return Some((0, pos + 1));
    }
    let mut p: usize = pos;
    let mut val: u64 = 0;
    proof {
        assert(v@.subrange(pos as int, pos as int) =~= Seq::<char>::empty());
    }
    while p < v.len() && is_digit_exec(v[p])
        invariant
            pos <= p <= v@.len(),
            val == dec_val(v@.subrange(pos as int, p as int)),
            forall|k: int| pos <= k < p ==> is_digit(#[trigger] v@[k]),
            pos < v@.len() && is_digit(v@[pos as int]) && v@[pos as int] != '0',
        decreases v@.len() - p,
    {
        let c = v[p];
        let d = digit_val_exec(c);
        proof {
            let s1 = v@.subrange(pos as int, p + 1);
            assert(s1.drop_last() =~= v@.subrange(pos as int, p as int));
            assert(s1.last() == c);
            assert(dec_val(s1) == val * 10 + digit_val(c));
        }
        if val > (u64::MAX - d) / 10 {
            proof {
                assert((val as int) * 10 + d > u64::MAX) by {
                    assert(val as int > (u64::MAX - d) / 10);
                    assert(((u64::MAX - d) / 10 + 1) * 10 > u64::MAX - d);
                }
                lemma_digits_end_skip(v@, pos as int, p as int);
                lemma_digits_end_bounds(v@, p + 1);
                assert(digits_end(v@, p as int) == digits_end(v@, p + 1));
                let end = digits_end(v@, pos as int);
                assert(p + 1 <= end <= v@.len());
                lemma_dec_val_mono(v@, pos as int, p + 1, end);
                assert(v@.subrange(pos as int, p + 1).drop_last() =~= v@.subrange(
                    pos as int,
                    p as int,
                ));
                assert(dec_val(v@.subrange(pos as int, p + 1)) == val * 10 + digit_val(c));
                assert(dec_val(v@.subrange(pos as int, end)) > u64::MAX);
            }
            return None;
        }
        val = val * 10 + d;
        p = p + 1;
    }
    proof {
        lemma_digits_end_run(v@, pos as int, p as int);
    }
    Some((val, p))
}

/// Match an optional string value (a quoted string or `null`) at `pos`.
fn eat_opt_str_exec(v: &Vec<char>, pos: usize) -> (r: Option<(Option<Vec<char>>, usize)>)
    ensures
        match r {
            Some(t) => match t.0 {
                Some(s) => eat_opt_str(v@, pos as int) == Some((Some(s@), t.1 as int)),
                None => eat_opt_str(v@, pos as int) == Some((None::<Seq<char>>, t.1 as int)),
            },
            None => eat_opt_str(v@, pos as int) is None,
        },
{
    if pos < v.len() && v[pos] == '"' {
        match eat_quoted_exec(v, pos) {
            Some((s, p)) => Some((Some(s), p)),
            None => None,
        }
    } else {
        match eat_lit_exec(v, pos, "null") {
            Some(p) => Some((None, p)),
            None => None,
        }
    }
}

/// Match an optional number value (a canonical number or `null`) at `pos`.
fn eat_opt_num_exec(v: &Vec<char>, pos: usize) -> (r: Option<(Option<u64>, usize)>)
    ensures
        match r {
            Some(t) => eat_opt_num(v@, pos as int) == Some((t.0, t.1 as int)),
            None => eat_opt_num(v@, pos as int) is None,
        },
{
    if pos < v.len() && is_digit_exec(v[pos]) {
        match eat_num_exec(v, pos) {
            Some((n, p)) => Some((Some(n), p)),
            None => None,
        }
    } else {
        match eat_lit_exec(v, pos, "null") {
            Some(p) => Some((None, p)),
            None => None,
        }
    }
}

/// Read a record back from the text of its file. Only the exact shape
/// written by [`ResumeRecord::encode`] is accepted; anything else — a
/// truncated, reordered or otherwise corrupted file — yields `None`.
pub fn parse_record(s: &str) -> (r: Option<ResumeRecord>)
    ensures
        match r {
            Some(rec) => parse_spec(s@) == Some(record_model(rec)),
            None => parse_spec(s@) is None,
        },
{
    let mut v: Vec<char> = Vec::new();
    push_str_chars(&mut v, s);
    proof {
        assert(v@ =~= s@);
    }
    let p1 = match eat_lit_exec(&v, 0, "{\"id\":") {
        Some(p) => p,
        None => {
            return None;
        },
    };
    let (id, p2) = match eat_quoted_exec(&v, p1) {
        Some(t) => t,
        None => {
            return None;
        },
    };
    let p3 = match eat_lit_exec(&v, p2, ",\"archiveUrl\":") {
        Some(p) => p,
        None => {
            return None;
        },
    };
    let (archive_url, p4) = match eat_quoted_exec(&v, p3) {
        Some(t) => t,
        None => {
            return None;
        },
    };
    let p5 = match eat_lit_exec(&v, p4, ",\"configUrl\":") {
        Some(p) => p,
        None => {
            return None;
        },
    };
    let (config_url, p6) = match eat_quoted_exec(&v, p5) {
        Some(t) => t,
        None => {
            return None;
        },
    };
    let p7 = match eat_lit_exec(&v, p6, ",\"destDir\":") {
        Some(p) => p,
        None => {
            return None;
        },
    };
    let (dest_dir, p8) = match eat_quoted_exec(&v, p7) {
        Some(t) => t,
        None => {
            return None;
        },
    };
    let p9 = match eat_lit_exec(&v, p8, ",\"token\":") {
        Some(p) => p,
        None => {
            return None;
        },
    };
    let (token, p10) = match eat_opt_str_exec(&v, p9) {
        Some(t) => t,
        None => {
            return None;
        },
    };
    let p11 = match eat_lit_exec(&v, p10, ",\"total\":") {
        Some(p) => p,
        None => {
            return None;
        },
    };
    let (total, p12) = match eat_opt_num_exec(&v, p11) {
        Some(t) => t,
        None => {
            return None;
        },
    };
    let p13 = match eat_lit_exec(&v, p12, "}") {
        Some(p) => p,
        None => {
            return None;
        },
    };
    if p13 != v.len() {
        return None;
    }
    let rec = ResumeRecord {
        id: chars_to_string(&id),
        archive_url: chars_to_string(&archive_url),
        config_url: chars_to_string(&config_url),
        dest_dir: chars_to_string(&dest_dir),
        token: match &token {
            Some(t) => Some(chars_to_string(t)),
            None => None,
        },
        total,
    };
    Some(rec)
}

impl ResumeRecord {
    /// The record as the text of its file.
    pub fn encode(&self) -> (s: String)
        ensures
            s@ == encode_spec(*self),
    {
        let mut out: Vec<char> = Vec::new();
        push_str_chars(&mut out, "{\"id\":");
        push_quoted(&mut out, self.id.as_str());
        push_str_chars(&mut out, ",\"archiveUrl\":");
        push_quoted(&mut out, self.archive_url.as_str());
        push_str_chars(&mut out, ",\"configUrl\":");
        push_quoted(&mut out, self.config_url.as_str());
        push_str_chars(&mut out, ",\"destDir\":");
        push_quoted(&mut out, self.dest_dir.as_str());
        push_str_chars(&mut out, ",\"token\":");
        match &self.token {
            Some(t) => push_quoted(&mut out, t.as_str()),
            None => push_str_chars(&mut out, "null"),
        }
        push_str_chars(&mut out, ",\"total\":");
        match self.total {
            Some(n) => {
                let d = u64_to_dec(n);
                push_str_chars(&mut out, d.as_str());
            },
            None => push_str_chars(&mut out, "null"),
        }
        push_str_chars(&mut out, "}");
        proof {
            assert(out@ =~= encode_spec(*self));
        }
        chars_to_string(&out)
    }
}

} // verus!
