//! Where the staging and final forms of a referenced file are stored.
//!
//! `<root>/v1/<YYYY>/<MM>/<DD>_<HH>/<YYYYMMDD>_<HHMMSS>_s<size|unknown>_<hex random>.<tmp|bin>`,
//! with the date and time of `created_at` in UTC.
use vstd::prelude::*;
use vstd::string::StringExecFns;
use crate::text::{decimal, hex_encode, hex_text, pad2, push_decimal, push_pad2};
use crate::token::{FileRef, FileRefV1View};

verus! {

/// The UTC calendar date (year, month, day) of `secs` seconds after the Unix
/// epoch, when the calendar covers it.
pub uninterp spec fn utc_date(secs: int) -> Option<(int, int, int)>;

/// Relies on chrono's `DateTime::<Utc>::from_timestamp` and its `Datelike` and
/// `Timelike` accessors: the proleptic Gregorian date of the instant in UTC, and
/// the time of day, which in UTC is the remainder of the seconds in a day.
#[verifier::external_body]
fn utc_calendar(secs: i64) -> (r: Option<(i32, u32, u32, u32, u32, u32)>)
    requires
        secs >= 0,
    ensures
        match utc_date(secs as int) {
            Some((y, m, d)) => r matches Some((ry, rm, rd, h, mi, s)) && ry == y && rm == m
                && rd == d && 1970 <= y && 1 <= m <= 12 && 1 <= d <= 31 && h == (secs % 86400)
                / 3600 && mi == (secs % 3600) / 60 && s == secs % 60,
            None => r is None,
        },
{
    chrono::DateTime::<chrono::Utc>::from_timestamp(secs, 0).map(
        |t|
            (
                chrono::Datelike::year(&t),
                chrono::Datelike::month(&t),
                chrono::Datelike::day(&t),
                chrono::Timelike::hour(&t),
                chrono::Timelike::minute(&t),
                chrono::Timelike::second(&t),
            ),
    )
}

/// The year as chrono's `%Y` writes it: four digits, or a sign and more digits
/// past 9999.
pub open spec fn year_text(y: nat) -> Seq<char> {
    if y <= 9999 {
        decimal(y)
    } else {
        seq!['+'] + decimal(y)
    }
}

/// The declared size, or `unknown`.
pub open spec fn size_text(size: Option<u64>) -> Seq<char> {
    match size {
        Some(n) => decimal(n as nat),
        None => seq!['u', 'n', 'k', 'n', 'o', 'w', 'n'],
    }
}

/// The directory that holds both forms of the file of `v`, under `root`.
pub open spec fn dir_path(root: Seq<char>, v: FileRefV1View) -> Option<Seq<char>> {
    if v.created_at > i64::MAX {
        None
    } else {
        match utc_date(v.created_at as int) {
            Some((y, m, d)) => {
                let h = (v.created_at % 86400) / 3600;
                Some(
                    root + seq!['/', 'v', '1', '/'] + year_text(y as nat) + seq!['/'] + pad2(
                        m as nat,
                    ) + seq!['/'] + pad2(d as nat) + seq!['_'] + pad2(h as nat),
                )
            },
            None => None,
        }
    }
}

/// Date and time of creation as the file name spells them.
pub open spec fn stamp_text(s: u64, y: int, m: int, d: int) -> Seq<char> {
    year_text(y as nat) + pad2(m as nat) + pad2(d as nat) + seq!['_'] + pad2(
        ((s % 86400) / 3600) as nat,
    ) + pad2(((s % 3600) / 60) as nat) + pad2((s % 60) as nat)
}

/// The rest of the file name: size, random bytes and the form's extension.
pub open spec fn tail_text(v: FileRefV1View, tmp: bool) -> Seq<char> {
    seq!['_', 's'] + size_text(v.size) + seq!['_'] + hex_text(v.random) + if tmp {
        seq!['.', 't', 'm', 'p']
    } else {
        seq!['.', 'b', 'i', 'n']
    }
}

/// The file name of `v`, in its staging form (`tmp`) or its final form.
pub open spec fn file_name(v: FileRefV1View, y: int, m: int, d: int, tmp: bool) -> Seq<char> {
    stamp_text(v.created_at, y, m, d) + tail_text(v, tmp)
}

/// The path of the file of `v` under `root`, in its staging form (`tmp`) or its
/// final form; none when its creation time is beyond the calendar.
pub open spec fn file_path(root: Seq<char>, v: FileRefV1View, tmp: bool) -> Option<Seq<char>> {
    match dir_path(root, v) {
        Some(dir) => match utc_date(v.created_at as int) {
            Some((y, m, d)) => Some(dir + seq!['/'] + file_name(v, y, m, d, tmp)),
            None => None,
        },
        None => None,
    }
}

/// The path of the file of reference `r`; none for a version that is not
/// recognised.
pub open spec fn ref_path(root: Seq<char>, r: Option<FileRefV1View>, tmp: bool) -> Option<
    Seq<char>,
> {
    match r {
        Some(v) => file_path(root, v, tmp),
        None => None,
    }
}

/// The directory of reference `r`.
pub open spec fn ref_dir(root: Seq<char>, r: Option<FileRefV1View>) -> Option<Seq<char>> {
    match r {
        Some(v) => dir_path(root, v),
        None => None,
    }
}

/// Paths are a function of the reference alone, and its staging and final
/// paths differ.
pub proof fn lemma_paths_distinct(root: Seq<char>, r1: Option<FileRefV1View>, r2: Option<FileRefV1View>)
    requires
        r1 == r2,
    ensures
        ref_path(root, r1, true) == ref_path(root, r2, true),
        ref_path(root, r1, false) == ref_path(root, r2, false),
        ref_path(root, r1, true) matches Some(p) ==> ref_path(root, r1, false) matches Some(q)
            && p != q,
{
    if let Some(p) = ref_path(root, r1, true) {
        let q = ref_path(root, r1, false).unwrap();
        assert(p.len() == q.len());
        assert(p[p.len() - 1] == 'p');
        assert(q[q.len() - 1] == 'n');
    }
}

/// Appends the pieces of `dir_path` after `root`.
fn push_dir(out: &mut String, y: u64, m: u64, d: u64, h: u64)
    ensures
        final(out)@ == old(out)@ + seq!['/', 'v', '1', '/'] + year_text(y as nat) + seq!['/']
            + pad2(m as nat) + seq!['/'] + pad2(d as nat) + seq!['_'] + pad2(h as nat),
{
    proof {
        reveal_strlit("/v1/");
        reveal_strlit("/");
        reveal_strlit("_");
    }
    let ghost start = out@;
    out.append("/v1/");
    push_year(out, y);
    out.append("/");
    push_pad2(out, m);
    out.append("/");
    push_pad2(out, d);
    out.append("_");
    push_pad2(out, h);
    assert(out@ =~= start + seq!['/', 'v', '1', '/'] + year_text(y as nat) + seq!['/'] + pad2(
        m as nat,
    ) + seq!['/'] + pad2(d as nat) + seq!['_'] + pad2(h as nat));
}

fn push_year(out: &mut String, y: u64)
    ensures
        final(out)@ == old(out)@ + year_text(y as nat),
{
    let ghost start = out@;
    if y > 9999 {
        proof {
            reveal_strlit("+");
        }
        out.append("+");
    }
    push_decimal(out, y);
    assert(out@ =~= start + year_text(y as nat));
}

fn push_stamp(out: &mut String, s: u64, y: u64, m: u64, d: u64)
    ensures
        final(out)@ == old(out)@ + stamp_text(s, y as int, m as int, d as int),
{
    proof {
        reveal_strlit("_");
    }
    let ghost start = out@;
    push_year(out, y);
    push_pad2(out, m);
    push_pad2(out, d);
    out.append("_");
    push_pad2(out, (s % 86400) / 3600);
    push_pad2(out, (s % 3600) / 60);
    push_pad2(out, s % 60);
    assert(out@ =~= start + stamp_text(s, y as int, m as int, d as int));
}

fn push_tail(out: &mut String, v: &crate::token::FileRefV1, tmp: bool)
    ensures
        final(out)@ == old(out)@ + tail_text(v@, tmp),
{
    proof {
        reveal_strlit("_");
        reveal_strlit("_s");
        reveal_strlit("unknown");
        reveal_strlit(".tmp");
        reveal_strlit(".bin");
    }
    let ghost start = out@;
    out.append("_s");
    match v.size {
        Some(n) => push_decimal(out, n),
        None => out.append("unknown"),
    }
    out.append("_");
    let hex = hex_encode(v.random.as_slice());
    out.append(hex.as_str());
    if tmp {
        out.append(".tmp");
    } else {
        out.append(".bin");
    }
    assert(out@ =~= start + tail_text(v@, tmp));
}

/// Appends the file name.
fn push_name(out: &mut String, v: &crate::token::FileRefV1, y: u64, m: u64, d: u64, tmp: bool)
    ensures
        final(out)@ == old(out)@ + file_name(v@, y as int, m as int, d as int, tmp),
{
    let ghost start = out@;
    push_stamp(out, v.created_at, y, m, d);
    push_tail(out, v, tmp);
    assert(out@ =~= start + file_name(v@, y as int, m as int, d as int, tmp));
}

impl FileRef {
    /// The directory that holds the files of this reference, under `root`.
    pub fn to_dir(&self, root: &str) -> (r: Option<String>)
        ensures
            match ref_dir(root@, self@) {
                Some(p) => r matches Some(s) && s@ == p,
                None => r is None,
            },
    {
        let v = match self.v1() {
            Some(v) => v,
            None => return None,
        };
        if v.created_at > i64::MAX as u64 {
            return None;
        }
        let (y, m, d, h, _mi, _s) = match utc_calendar(v.created_at as i64) {
            Some(c) => c,
            None => return None,
        };
        let mut out = String::from_str(root);
        push_dir(&mut out, y as u64, m as u64, d as u64, h as u64);
        Some(out)
    }

    /// The path of this reference's file under `root`: its staging form when
    /// `tmp`, else its final form. `None` for an unrecognised version.
    pub fn to_path(&self, root: &str, tmp: bool) -> (r: Option<String>)
        ensures
            match ref_path(root@, self@, tmp) {
                Some(p) => r matches Some(s) && s@ == p,
                None => r is None,
            },
    {
        let v = match self.v1() {
            Some(v) => v,
            None => return None,
        };
        if v.created_at > i64::MAX as u64 {
            return None;
        }
        let (y, m, d, h, _mi, _s) = match utc_calendar(v.created_at as i64) {
            Some(c) => c,
            None => return None,
        };
        proof {
            reveal_strlit("/");
        }
        let mut out = String::from_str(root);
        push_dir(&mut out, y as u64, m as u64, d as u64, h as u64);
        out.append("/");
        push_name(&mut out, v, y as u64, m as u64, d as u64, tmp);
        Some(out)
    }
}

} // verus!
