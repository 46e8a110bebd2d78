//! What is said of expected lines that a file does not have.
use vstd::prelude::*;
#[allow(unused_imports)]
use vstd::string::*;

#[allow(unused_imports)]
use crate::patch::closest::{ClosestMatch, closest, closest_match, region_similarity};
#[allow(unused_imports)]
use crate::precision::single::{
    Digits, Single, below, hundredfold, rounded, tenths_of, tenths_shown, tenths_text,
};
#[allow(unused_imports)]
use crate::text::{cat3, cat5, decimal, decimal_text, lines, smaller, trim_back, trim_end};

verus! {

/// How many lines of a region are shown.
pub const MAX_DISPLAY_LINES: usize = 20;

/// What is said where nothing is similar.
pub open spec fn no_region(path: Seq<char>) -> Seq<char> {
    "No similar region was found in "@ + path
        + ". Re-read the file to see its current contents."@
}

/// The first `k` lines of a region, each with its number.
pub open spec fn shown_lines(lines: Seq<String>, start: int, k: nat) -> Seq<char>
    decreases k,
{
    if k == 0 {
        Seq::empty()
    } else {
        shown_lines(lines, start, (k - 1) as nat) + decimal((start + k) as nat) + "\t"@ + lines[start
            + k - 1]@ + "\n"@
    }
}

/// What is said of a region.
pub open spec fn region_text(
    lines: Seq<String>,
    path: Seq<char>,
    start: int,
    len: nat,
    alike: Digits,
    search_start: int,
) -> Seq<char> {
    let head = "Closest match in "@ + path + " at lines "@ + decimal((start + 1) as nat) + "-"@
        + decimal((start + len) as nat) + " (similarity: "@ + tenths_shown(
        tenths_of(hundredfold(alike)) as nat,
    ) + "%):\n"@;
    let body = shown_lines(lines, start, smaller(len as int, MAX_DISPLAY_LINES as int) as nat);
    let more = if len > MAX_DISPLAY_LINES {
        "\t… ("@ + decimal((len - MAX_DISPLAY_LINES) as nat) + " more lines)\n"@
    } else {
        Seq::empty()
    };
    let order = if !below(alike, rounded(999, 1000, 0)) && start < search_start {
        "These lines exist but occur BEFORE the position where the previous hunk matched; hunks must be ordered top-to-bottom within the file."@
    } else {
        Seq::empty()
    };
    trim_back(head + body + more + order)
}

/// What is said of expected lines that a file does not have: the region that
/// is most like them, if it is alike by three tenths at least.
pub open spec fn diagnosis(
    lines: Seq<String>,
    pattern: Seq<String>,
    path: Seq<char>,
    search_start: int,
) -> Seq<char> {
    match closest(lines, pattern) {
        None => no_region(path),
        Some((start, len)) => {
            let alike = region_similarity(lines, pattern, start, len);
            if below(alike, rounded(3, 10, 0)) {
                no_region(path)
            } else {
                region_text(lines, path, start, len, alike, search_start)
            }
        },
    }
}

fn no_match(path: &str) -> (r: String)
    ensures
        r@ == no_region(path@),
{
    cat3(
        "No similar region was found in ",
        path,
        ". Re-read the file to see its current contents.",
    )
}

fn append_lines(out: &mut String, lines: &[String], start: usize, shown: usize)
    requires
        start + shown <= lines@.len(),
    ensures
        final(out)@ == old(out)@ + shown_lines(lines@, start as int, shown as nat),
{
    let count: usize = lines.len();
    let ghost before = out@;
    let mut k: usize = 0;
    proof {
        assert(before + shown_lines(lines@, start as int, 0) =~= before);
    }
    while k < shown
        invariant
            k <= shown,
            start + shown <= lines@.len() == count,
            out@ == before + shown_lines(lines@, start as int, k as nat),
        decreases shown - k,
    {
        out.append(decimal_text((start + k + 1) as u64).as_str());
        out.append("\t");
        out.append(lines[start + k].as_str());
        out.append("\n");
        proof {
            let kk = (k + 1) as nat;
            assert(out@ =~= before + shown_lines(lines@, start as int, kk));
        }
        k += 1;
    }
}

/// Says what is closest to expected lines that a file does not have. The
/// search for them began at `search_start`.
pub fn diagnose_missing_lines(
    lines: &[String],
    pattern: &[String],
    path: &str,
    search_start: usize,
) -> (r: String)
    ensures
        r@ == diagnosis(lines@, pattern@, path@, search_start as int),
{
    let m: ClosestMatch = match closest_match(lines, pattern) {
        Some(m) => m,
        None => {
            return no_match(path);
        },
    };
    if m.similarity.is_below(&Single::ratio(3, 10)) {
        return no_match(path);
    }
    let tenths: u64 = m.similarity.hundredfold().tenths();
    let count: usize = lines.len();
    proof {
        assert(m.start + m.len <= count);
    }
    let mut out: String = cat5(
        "Closest match in ",
        path,
        " at lines ",
        decimal_text(m.start as u64 + 1).as_str(),
        "-",
    );
    out.append(decimal_text((m.start + m.len) as u64).as_str());
    out.append(" (similarity: ");
    out.append(tenths_text(tenths).as_str());
    out.append("%):\n");
    let shown: usize = if m.len < MAX_DISPLAY_LINES {
        m.len
    } else {
        MAX_DISPLAY_LINES
    };
    append_lines(&mut out, lines, m.start, shown);
    if m.len > MAX_DISPLAY_LINES {
        out.append(
            cat3("\t… (", decimal_text((m.len - MAX_DISPLAY_LINES) as u64).as_str(), " more lines)\n").as_str(),
        );
    }
    if !m.similarity.is_below(&Single::ratio(999, 1000)) && m.start < search_start {
        out.append(
            "These lines exist but occur BEFORE the position where the previous hunk matched; hunks must be ordered top-to-bottom within the file.",
        );
    }
    trim_end(out.as_str()).to_owned()
}

} // verus!
