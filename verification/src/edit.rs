//! The editing operations: locating a line by a pattern and splicing new
//! lines in at a signed offset from it, extracting captured substrings, and
//! capture-aware replacement with no-op write suppression.
//!
//! Every operation works on content handed in as plain values (the full
//! text, or the file's lines with terminators stripped) and returns the
//! computed result; reading and writing the backing store is the caller's
//! part.
use vstd::prelude::*;

use crate::FileError;
use crate::pattern;
use crate::pattern::{valid_pattern, regex_matches};

verus! {

/// The lines as mathematical values.
pub open spec fn lines_view(lines: Seq<String>) -> Seq<Seq<char>> {
    Seq::new(lines.len(), |i: int| lines[i]@)
}

/// The lines with a block spliced in at index `at`: the prefix, the block
/// in its given order, then the rest.
pub open spec fn spliced(lines: Seq<Seq<char>>, new: Seq<Seq<char>>, at: int) -> Seq<Seq<char>>
    recommends
        0 <= at <= lines.len(),
{
    lines.subrange(0, at) + new + lines.subrange(at, lines.len() as int)
}

/// `i` is the anchor: the first line that matches the expression.
pub open spec fn is_anchor(rx: Seq<char>, lines: Seq<Seq<char>>, i: int) -> bool {
    &&& 0 <= i < lines.len()
    &&& regex_matches(rx, lines[i])
    &&& forall|j: int| 0 <= j < i ==> !regex_matches(rx, lines[j])
}

/// Some line matches the expression.
pub open spec fn some_line_matches(rx: Seq<char>, lines: Seq<Seq<char>>) -> bool {
    exists|i: int| 0 <= i < lines.len() && regex_matches(rx, lines[i])
}

/// The anchor's index.
pub open spec fn anchor_of(rx: Seq<char>, lines: Seq<Seq<char>>) -> int {
    choose|i: int| is_anchor(rx, lines, i)
}

/// The insertion index: anchor plus offset, clamped to the line count at
/// the top (an offset past the end appends).
pub open spec fn insertion_index(anchor: int, offset: int, len: int) -> int {
    if anchor + offset <= len {
        anchor + offset
    } else {
        len
    }
}

/// Law: the anchor is unique — no two indices are both the first matching
/// line.
pub proof fn lemma_anchor_unique(rx: Seq<char>, lines: Seq<Seq<char>>, i: int, j: int)
    requires
        is_anchor(rx, lines, i),
        is_anchor(rx, lines, j),
    ensures
        i == j,
{
}

/// Law: splicing a block in at `at` puts the block there contiguously in
/// its given order, keeps every earlier line in place, and shifts every
/// later line up by the block's length — so the relative order of the
/// original lines, and of the block, is unchanged.
pub proof fn lemma_spliced_structure(lines: Seq<Seq<char>>, new: Seq<Seq<char>>, at: int)
    requires
        0 <= at <= lines.len(),
    ensures
        spliced(lines, new, at).len() == lines.len() + new.len(),
        forall|i: int| 0 <= i < at ==> spliced(lines, new, at)[i] == lines[i],
        forall|i: int| 0 <= i < new.len() ==> spliced(lines, new, at)[at + i] == new[i],
        forall|i: int| at <= i < lines.len() ==> spliced(lines, new, at)[i + new.len()] == lines[i],
{
}

/// Law: an insertion with offset 0 lands the block immediately before the
/// anchor (the first matching line), and one with offset 1 immediately
/// after it; either way the block keeps its given order.
pub proof fn lemma_insert_offsets(
    rx: Seq<char>,
    lines: Seq<Seq<char>>,
    new: Seq<Seq<char>>,
    a: int,
)
    requires
        is_anchor(rx, lines, a),
    ensures
        insertion_index(a, 0, lines.len() as int) == a,
        insertion_index(a, 1, lines.len() as int) == a + 1,
        forall|i: int| 0 <= i < new.len() ==> spliced(lines, new, a)[a + i] == new[i],
        spliced(lines, new, a)[a + new.len()] == lines[a],
        spliced(lines, new, a + 1)[a] == lines[a],
        forall|i: int| 0 <= i < new.len() ==> spliced(lines, new, a + 1)[a + 1 + i] == new[i],
{
    lemma_spliced_structure(lines, new, a);
    lemma_spliced_structure(lines, new, a + 1);
}

/// The groups of one match that participated, in group order, unwrapped.
pub open spec fn participating(groups: Seq<Option<Seq<char>>>) -> Seq<Seq<char>>
    decreases groups.len(),
{
    if groups.len() == 0 {
        Seq::empty()
    } else {
        match groups.last() {
            Option::Some(s) => participating(groups.drop_last()).push(s),
            Option::None => participating(groups.drop_last()),
        }
    }
}

/// Every participating group of every match, matches in document order and
/// groups in group order within a match.
pub open spec fn flat_caps(caps: Seq<Seq<Option<Seq<char>>>>) -> Seq<Seq<char>>
    decreases caps.len(),
{
    if caps.len() == 0 {
        Seq::empty()
    } else {
        flat_caps(caps.drop_last()) + participating(caps.last())
    }
}

/// A match whose group 0 participated contributes at least one value.
proof fn lemma_participating_nonempty(groups: Seq<Option<Seq<char>>>)
    requires
        groups.len() > 0,
        groups[0] is Some,
    ensures
        participating(groups).len() > 0,
    decreases groups.len(),
{
    if groups.len() > 1 {
        assert(groups.drop_last()[0] == groups[0]);
        lemma_participating_nonempty(groups.drop_last());
    }
}

/// Whether the first match has a participating capture group 1.
pub open spec fn group1_present(caps: Seq<Seq<Option<Seq<char>>>>) -> bool {
    caps.len() > 0 && caps[0].len() > 1 && caps[0][1] is Some
}

/// Returns the text of capture group 1 of the first match of the regular
/// expression in the content.
///
/// Fails with `InvalidPattern` when the expression does not compile, and
/// with `ExtractionFailed` when nothing matches or the first match has no
/// participating group 1.
pub fn extract(data: &str, rx: &str) -> (r: Result<String, FileError>)
    ensures
        !valid_pattern(rx@) ==> r == Err::<String, FileError>(FileError::InvalidPattern),
        valid_pattern(rx@) ==> {
            let caps = pattern::all_captures(rx@, data@);
            &&& group1_present(caps) <==> r is Ok
            &&& (r matches Ok(v) ==> Some(v@) == caps[0][1])
            &&& !group1_present(caps) ==> r == Err::<String, FileError>(
                FileError::ExtractionFailed,
            )
        },
        valid_pattern(rx@) && !regex_matches(rx@, data@) ==> r == Err::<String, FileError>(
            FileError::ExtractionFailed,
        ),
{
    let re = match pattern::compile(rx) {
        Some(re) => re,
        None => {
            return Err(FileError::InvalidPattern);
        },
    };
    let caps = pattern::captures_of(&re, data);
    if caps.len() == 0 {
        return Err(FileError::ExtractionFailed);
    }
    let groups = &caps[0];
    if groups.len() <= 1 {
        return Err(FileError::ExtractionFailed);
    }
    match &groups[1] {
        Some(s) => Ok(s.clone()),
        None => Err(FileError::ExtractionFailed),
    }
}

/// Returns every participating captured string of every match of the
/// regular expression in the content: matches in document order, and within
/// a match the groups in group order (group 0, the whole match, first).
/// Groups that did not participate are skipped. Zero matches yield an empty
/// sequence, not an error.
///
/// Fails with `InvalidPattern` when the expression does not compile.
#[verifier::loop_isolation(false)]
pub fn extract_all(data: &str, rx: &str) -> (r: Result<Vec<String>, FileError>)
    ensures
        !valid_pattern(rx@) ==> r == Err::<Vec<String>, FileError>(FileError::InvalidPattern),
        valid_pattern(rx@) ==> (r matches Ok(v) && lines_view(v@) == flat_caps(
            pattern::all_captures(rx@, data@),
        )),
        valid_pattern(rx@) ==> (r matches Ok(v) && (v@.len() == 0 <==> !regex_matches(
            rx@,
            data@,
        ))),
{
    let re = match pattern::compile(rx) {
        Some(re) => re,
        None => {
            return Err(FileError::InvalidPattern);
        },
    };
    let caps = pattern::captures_of(&re, data);
    let ghost cv = pattern::caps_view(caps@);
    let mut values: Vec<String> = Vec::new();
    let mut i: usize = 0;
    while i < caps.len()
        invariant
            i <= caps@.len(),
            lines_view(values@) == flat_caps(cv.take(i as int)),
        decreases caps@.len() - i,
    {
        let groups = &caps[i];
        let ghost gv = pattern::groups_view(groups@);
        let mut j: usize = 0;
        while j < groups.len()
            invariant
                j <= groups@.len(),
                lines_view(values@) == flat_caps(cv.take(i as int)) + participating(
                    gv.take(j as int),
                ),
            decreases groups@.len() - j,
        {
            proof {
                assert(gv.take(j + 1).drop_last() =~= gv.take(j as int));
                assert(gv.take(j + 1).last() == gv[j as int]);
            }
            match &groups[j] {
                Some(s) => {
                    let ghost prev = values@;
                    values.push(s.clone());
                    proof {
                        assert(gv[j as int] == Some(s@));
                        assert(participating(gv.take(j + 1)) == participating(
                            gv.take(j as int),
                        ).push(s@));
                        assert(values@ == prev.push(*s));
                        assert(lines_view(values@) =~= lines_view(prev).push(s@));
                        assert(lines_view(values@) =~= flat_caps(cv.take(i as int))
                            + participating(gv.take(j + 1)));
                    }
                },
                None => {
                    proof {
                        assert(participating(gv.take(j + 1)) == participating(gv.take(j as int)));
                    }
                },
            }
            j += 1;
        }
        proof {
            assert(gv.take(groups@.len() as int) =~= gv);
            assert(cv.take(i + 1).drop_last() =~= cv.take(i as int));
            assert(cv.take(i + 1).last() == cv[i as int]);
            assert(cv[i as int] == gv);
        }
        i += 1;
    }
    proof {
        assert(cv.take(caps@.len() as int) =~= cv);
        if caps@.len() > 0 {
            let last = (caps@.len() - 1) as int;
            assert(caps@[last]@.len() > 0 && caps@[last]@[0] is Some);
            assert(cv.last() == pattern::groups_view(caps@[last]@));
            assert(cv.last()[0] is Some);
            lemma_participating_nonempty(cv.last());
            assert(flat_caps(cv).len() > 0);
        }
    }
    Ok(values)
}

/// Inserts the given lines into the file's lines at the location determined
/// by the regular expression and the offset.
///
/// The anchor is the first line matching the expression; the block lands at
/// the anchor's index plus the offset, so offset 0 inserts immediately
/// before the anchor and offset 1 immediately after it. A negative offset
/// may reach back to earlier lines but may not drive the index below zero;
/// an offset past the last line appends at the end. Returns the modified
/// line sequence to write back; the input is not touched.
#[verifier::loop_isolation(false)]
pub fn insert_lines(f_lines: &Vec<String>, lines: &Vec<String>, rx: &str, offset: isize) -> (r:
    Result<Vec<String>, FileError>)
    ensures
        !valid_pattern(rx@) ==> r == Err::<Vec<String>, FileError>(FileError::InvalidPattern),
        valid_pattern(rx@) && !some_line_matches(rx@, lines_view(f_lines@)) ==> r == Err::<
            Vec<String>,
            FileError,
        >(FileError::InsertLocationNotFound),
        valid_pattern(rx@) && some_line_matches(rx@, lines_view(f_lines@)) ==> {
            let a = anchor_of(rx@, lines_view(f_lines@));
            &&& is_anchor(rx@, lines_view(f_lines@), a)
            &&& a + offset < 0 ==> r == Err::<Vec<String>, FileError>(
                FileError::InsertLocationNotFound,
            )
            &&& a + offset >= 0 ==> (r matches Ok(v) && lines_view(v@) == spliced(
                lines_view(f_lines@),
                lines_view(lines@),
                insertion_index(a, offset as int, f_lines@.len() as int),
            ))
        },
{
    let re = match pattern::compile(rx) {
        Some(re) => re,
        None => {
            return Err(FileError::InvalidPattern);
        },
    };
    let ghost lv = lines_view(f_lines@);

    // Scan for the anchor: the first line the expression matches.
    let mut loc: usize = 0;
    let mut found: bool = false;
    let mut i: usize = 0;
    while i < f_lines.len()
        invariant
            i <= f_lines@.len(),
            !found ==> forall|j: int| 0 <= j < i ==> !regex_matches(rx@, lv[j]),
            found ==> is_anchor(rx@, lv, loc as int),
        decreases f_lines@.len() - i,
    {
        if !found {
            if pattern::is_match(&re, f_lines[i].as_str()) {
                found = true;
                loc = i;
            }
        }
        i += 1;
    }
    if !found {
        return Err(FileError::InsertLocationNotFound);
    }
    proof {
        assert(some_line_matches(rx@, lv));
        assert(is_anchor(rx@, lv, anchor_of(rx@, lv)));
        lemma_anchor_unique(rx@, lv, loc as int, anchor_of(rx@, lv));
    }

    // Validate the offset against the low bound and clamp at the high end.
    let target_wide: i128 = loc as i128 + offset as i128;
    if target_wide < 0 {
        return Err(FileError::InsertLocationNotFound);
    }
    let target: usize = if target_wide >= f_lines.len() as i128 {
        f_lines.len()
    } else {
        target_wide as usize
    };

    // Splice: the prefix, the new block, then the rest.
    let mut out: Vec<String> = Vec::new();
    let mut i: usize = 0;
    while i < target
        invariant
            i <= target,
            out@.len() == i as int,
            forall|k: int| 0 <= k < i ==> out@[k] == f_lines@[k],
        decreases target - i,
    {
        out.push(f_lines[i].clone());
        i += 1;
    }
    let mut j: usize = 0;
    while j < lines.len()
        invariant
            j <= lines@.len(),
            out@.len() == target + j,
            forall|k: int| 0 <= k < target ==> out@[k] == f_lines@[k],
            forall|k: int| 0 <= k < j ==> out@[target + k] == lines@[k],
        decreases lines@.len() - j,
    {
        out.push(lines[j].clone());
        j += 1;
    }
    let mut m: usize = target;
    while m < f_lines.len()
        invariant
            target <= m <= f_lines@.len(),
            out@.len() == m + lines@.len(),
            forall|k: int| 0 <= k < target ==> out@[k] == f_lines@[k],
            forall|k: int| 0 <= k < lines@.len() ==> out@[target + k] == lines@[k],
            forall|k: int| target <= k < m ==> out@[k + lines@.len()] == f_lines@[k],
        decreases f_lines@.len() - m,
    {
        out.push(f_lines[m].clone());
        m += 1;
    }
    proof {
        assert(lines_view(out@) =~= spliced(
            lv,
            lines_view(lines@),
            insertion_index(loc as int, offset as int, f_lines@.len() as int),
        ));
    }
    Ok(out)
}

/// Replaces every match of the regular expression in the content with the
/// value, expanding `$name`/`${name}`/`$N` references to capture groups of
/// the match (group 0 is the whole match). Returns `Ok(Some(text))` with
/// the substituted text when it differs from the content, and `Ok(None)`
/// when the substitution changes nothing — in particular whenever the
/// expression has zero matches — so that an unchanged file is never
/// rewritten.
///
/// Fails with `InvalidPattern` when the expression does not compile.
pub fn replace_all(data: &str, rx: &str, value: &str) -> (r: Result<Option<String>, FileError>)
    ensures
        !valid_pattern(rx@) ==> r == Err::<Option<String>, FileError>(FileError::InvalidPattern),
        valid_pattern(rx@) ==> {
            let new = pattern::replaced(rx@, data@, value@);
            &&& (new == data@ <==> r == Ok::<Option<String>, FileError>(None))
            &&& new != data@ ==> (r matches Ok(w) && w matches Some(s) && s@ == new)
        },
        valid_pattern(rx@) && !regex_matches(rx@, data@) ==> r == Ok::<Option<String>, FileError>(
            None,
        ),
        valid_pattern(rx@) ==> (r matches Ok(w) ==> (w matches Some(s) ==> (!regex_matches(
            rx@,
            s@,
        ) ==> pattern::replaced(rx@, s@, value@) == s@))),
{
    let re = match pattern::compile(rx) {
        Some(re) => re,
        None => {
            return Err(FileError::InvalidPattern);
        },
    };
    let read_data = data.to_owned();
    let write_data = pattern::replace_with(&re, data, value);
    if read_data == write_data {
        Ok(None)
    } else {
        Ok(Some(write_data))
    }
}

/// Replaces every match of the regular expression in the content with the
/// value inserted verbatim: a `$` in the value is never treated as a group
/// reference. Returns `Ok(Some(text))` with the substituted text when it
/// differs from the content, and `Ok(None)` when the substitution changes
/// nothing — in particular whenever the expression has zero matches — so
/// that an unchanged file is never rewritten.
///
/// Fails with `InvalidPattern` when the expression does not compile.
pub fn replace_all_ne(data: &str, rx: &str, value: &str) -> (r: Result<Option<String>, FileError>)
    ensures
        !valid_pattern(rx@) ==> r == Err::<Option<String>, FileError>(FileError::InvalidPattern),
        valid_pattern(rx@) ==> {
            let new = pattern::replaced_verbatim(rx@, data@, value@);
            &&& (new == data@ <==> r == Ok::<Option<String>, FileError>(None))
            &&& new != data@ ==> (r matches Ok(w) && w matches Some(s) && s@ == new)
        },
        valid_pattern(rx@) && !regex_matches(rx@, data@) ==> r == Ok::<Option<String>, FileError>(
            None,
        ),
        valid_pattern(rx@) ==> (r matches Ok(w) ==> (w matches Some(s) ==> (!regex_matches(
            rx@,
            s@,
        ) ==> pattern::replaced_verbatim(rx@, s@, value@) == s@))),
{
    let re = match pattern::compile(rx) {
        Some(re) => re,
        None => {
            return Err(FileError::InvalidPattern);
        },
    };
    let read_data = data.to_owned();
    let write_data = pattern::replace_verbatim(&re, data, value);
    if read_data == write_data {
        Ok(None)
    } else {
        Ok(Some(write_data))
    }
}

} // verus!
