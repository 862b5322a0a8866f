//! The difference between two test reports, file by file.
//!
//! `generate` lists the test scripts of both reports in the byte order of
//! their paths, each once, and says for each what changed between the old
//! report and the new one. Scripts without a change are left out.

use vstd::prelude::*;
use vstd::string::{StringExecFns, StringSliceAdditionalSpecFns};
use vstd::utf8::{encode_utf8, encode_utf8_decode_utf8};
use itertools::Itertools;
use crate::ci_reports::{CIAssert, CIFullReport, CIReportData, CIReportHeader, opt_text};

verus! {

// ---------------------------------------------------------------------------
// The order of paths
// ---------------------------------------------------------------------------

/// `a` comes before `b` in lexicographic byte order, given that they agree
/// below index `i`.
pub open spec fn bytes_lt_from(a: Seq<u8>, b: Seq<u8>, i: int) -> bool
    decreases a.len() - i,
{
    if i < 0 || i >= b.len() {
        false
    } else if i >= a.len() {
        true
    } else if a[i] != b[i] {
        a[i] < b[i]
    } else {
        bytes_lt_from(a, b, i + 1)
    }
}

/// The order of paths: that of their UTF-8 bytes, which is how strings compare.
pub open spec fn path_lt(a: Seq<char>, b: Seq<char>) -> bool {
    bytes_lt_from(encode_utf8(a), encode_utf8(b), 0)
}

/// The texts of a sequence of string slices.
pub open spec fn texts(v: Seq<&str>) -> Seq<Seq<char>> {
    Seq::new(v.len(), |i: int| v[i]@)
}

enum PathOrder {
    Before,
    Same,
    After,
}

fn compare_paths(a: &str, b: &str) -> (r: PathOrder)
    ensures
        r is Before <==> path_lt(a@, b@),
        r is Same <==> a@ == b@,
        r is After <==> path_lt(b@, a@),
{
    let x = a.as_bytes();
    let y = b.as_bytes();
    let mut i: usize = 0;
    while i < x.len() && i < y.len() && x[i] == y[i]
        invariant
            i <= x.len(),
            i <= y.len(),
            forall|j: int| 0 <= j < i ==> x@[j] == y@[j],
            bytes_lt_from(x@, y@, 0) == bytes_lt_from(x@, y@, i as int),
            bytes_lt_from(y@, x@, 0) == bytes_lt_from(y@, x@, i as int),
        decreases x.len() - i,
    {
        i += 1;
    }
    if i == x.len() && i == y.len() {
        proof {
            assert(x@ =~= y@);
            encode_utf8_decode_utf8(a@);
            encode_utf8_decode_utf8(b@);
        }
        PathOrder::Same
    } else if i == x.len() {
        PathOrder::Before
    } else if i == y.len() {
        PathOrder::After
    } else if x[i] < y[i] {
        PathOrder::Before
    } else {
        PathOrder::After
    }
}

fn same_text(a: &str, b: &str) -> (r: bool)
    ensures
        r == (a@ == b@),
{
    match compare_paths(a, b) {
        PathOrder::Same => true,
        _ => false,
    }
}

// ---------------------------------------------------------------------------
// The paths of a report, in order and each once
// ---------------------------------------------------------------------------

/// The first index from `i` on whose path does not come before `p`.
pub open spec fn insert_pos(keys: Seq<Seq<char>>, p: Seq<char>, i: int) -> int
    decreases keys.len() - i,
{
    if 0 <= i < keys.len() && path_lt(keys[i], p) {
        insert_pos(keys, p, i + 1)
    } else {
        i
    }
}

/// `keys` with `p` put at its place, unless it stands there already.
pub open spec fn insert_path(keys: Seq<Seq<char>>, p: Seq<char>) -> Seq<Seq<char>> {
    let i = insert_pos(keys, p, 0);
    if 0 <= i < keys.len() && keys[i] == p {
        keys
    } else {
        keys.insert(i, p)
    }
}

/// The paths of a report's entries: each entry's path put at its place among
/// those of the entries before it.
pub open spec fn report_paths(entries: Seq<CIReportHeader>) -> Seq<Seq<char>>
    decreases entries.len(),
{
    if entries.len() == 0 {
        Seq::empty()
    } else {
        insert_path(report_paths(entries.drop_last()), entries.last().filepath@)
    }
}

/// Two ordered lists in one, from `a[i]` and `b[j]` on: the smaller head
/// first, and that of `a` where the heads are equal.
pub open spec fn merge_from(a: Seq<Seq<char>>, b: Seq<Seq<char>>, i: int, j: int) -> Seq<Seq<char>>
    decreases (if i < a.len() { a.len() - i } else { 0 }) + (if j < b.len() { b.len() - j } else { 0 }),
{
    if i < 0 || j < 0 || (i >= a.len() && j >= b.len()) {
        Seq::empty()
    } else if j >= b.len() {
        seq![a[i]] + merge_from(a, b, i + 1, j)
    } else if i >= a.len() {
        seq![b[j]] + merge_from(a, b, i, j + 1)
    } else if !path_lt(b[j], a[i]) {
        seq![a[i]] + merge_from(a, b, i + 1, j)
    } else {
        seq![b[j]] + merge_from(a, b, i, j + 1)
    }
}

/// `s` without each item that equals the one before it.
pub open spec fn dedup_adjacent(s: Seq<Seq<char>>) -> Seq<Seq<char>>
    decreases s.len(),
{
    if s.len() <= 1 {
        s
    } else if s[s.len() - 2] == s.last() {
        dedup_adjacent(s.drop_last())
    } else {
        dedup_adjacent(s.drop_last()).push(s.last())
    }
}

/// The paths of both reports, in order and each once.
pub open spec fn all_paths(old: Seq<CIReportHeader>, new: Seq<CIReportHeader>) -> Seq<Seq<char>> {
    dedup_adjacent(merge_from(report_paths(old), report_paths(new), 0, 0))
}

/// The index of the entry that counts for the path `p`: the last one of that
/// path.
pub open spec fn find_entry(entries: Seq<CIReportHeader>, p: Seq<char>) -> Option<int>
    decreases entries.len(),
{
    if entries.len() == 0 {
        None
    } else if entries.last().filepath@ == p {
        Some(entries.len() - 1)
    } else {
        find_entry(entries.drop_last(), p)
    }
}

fn find_slot(keys: &Vec<&str>, p: &str) -> (r: (usize, bool))
    ensures
        r.0 == insert_pos(texts(keys@), p@, 0),
        r.0 <= keys.len(),
        r.1 == (r.0 < keys.len() && texts(keys@)[r.0 as int] == p@),
{
    let mut i: usize = 0;
    while i < keys.len()
        invariant
            i <= keys.len(),
            insert_pos(texts(keys@), p@, 0) == insert_pos(texts(keys@), p@, i as int),
        decreases keys.len() - i,
    {
        match compare_paths(keys[i], p) {
            PathOrder::Before => {
                i += 1;
            },
            PathOrder::Same => {
                return (i, true);
            },
            PathOrder::After => {
                return (i, false);
            },
        }
    }
    (i, false)
}

fn insert_key<'a>(keys: &mut Vec<&'a str>, p: &'a str)
    ensures
        texts(final(keys)@) == insert_path(texts(old(keys)@), p@),
{
    let (i, present) = find_slot(keys, p);
    if !present {
        keys.insert(i, p);
        assert(texts(keys@) =~= texts(old(keys)@).insert(i as int, p@));
    }
}

fn sorted_paths<'a>(report: &'a CIFullReport) -> (keys: Vec<&'a str>)
    ensures
        texts(keys@) == report_paths(report.entries@),
{
    let mut keys: Vec<&'a str> = Vec::new();
    let mut i: usize = 0;
    assert(texts(keys@) =~= report_paths(report.entries@.take(0)));
    while i < report.entries.len()
        invariant
            i <= report.entries.len(),
            texts(keys@) == report_paths(report.entries@.take(i as int)),
        decreases report.entries.len() - i,
    {
        insert_key(&mut keys, report.entries[i].filepath.as_str());
        proof {
            assert(report.entries@.take(i + 1).drop_last() =~= report.entries@.take(i as int));
        }
        i += 1;
    }
    assert(report.entries@.take(i as int) =~= report.entries@);
    keys
}

fn merge_paths<'a>(a: &Vec<&'a str>, b: &Vec<&'a str>) -> (out: Vec<&'a str>)
    ensures
        texts(out@) == merge_from(texts(a@), texts(b@), 0, 0),
{
    let mut out: Vec<&'a str> = Vec::new();
    let mut i: usize = 0;
    let mut j: usize = 0;
    assert(texts(out@) + merge_from(texts(a@), texts(b@), 0, 0) =~= merge_from(
        texts(a@),
        texts(b@),
        0,
        0,
    ));
    while i < a.len() || j < b.len()
        invariant
            i <= a.len(),
            j <= b.len(),
            merge_from(texts(a@), texts(b@), 0, 0) == texts(out@) + merge_from(
                texts(a@),
                texts(b@),
                i as int,
                j as int,
            ),
        decreases (a.len() - i) + (b.len() - j),
    {
        let take_a = if j >= b.len() {
            true
        } else if i >= a.len() {
            false
        } else {
            match compare_paths(b[j], a[i]) {
                PathOrder::Before => false,
                _ => true,
            }
        };
        let ghost before = texts(out@);
        if take_a {
            out.push(a[i]);
            assert(texts(out@) =~= before.push(a@[i as int]@));
            assert(before.push(a@[i as int]@) + merge_from(
                texts(a@),
                texts(b@),
                i + 1,
                j as int,
            ) =~= before + (seq![a@[i as int]@] + merge_from(texts(a@), texts(b@), i + 1, j as int)));
            i += 1;
        } else {
            out.push(b[j]);
            assert(texts(out@) =~= before.push(b@[j as int]@));
            assert(before.push(b@[j as int]@) + merge_from(
                texts(a@),
                texts(b@),
                i as int,
                j + 1,
            ) =~= before + (seq![b@[j as int]@] + merge_from(texts(a@), texts(b@), i as int, j + 1)));
            j += 1;
        }
    }
    assert(texts(out@) + Seq::<Seq<char>>::empty() =~= texts(out@));
    out
}

/// `Itertools::dedup` on the paths: of each run of equal neighbours the first
/// stays and the others leave, so what is left is `dedup_adjacent` of what
/// went in.
#[verifier::external_body]
fn dedup_paths<'a>(paths: Vec<&'a str>) -> (r: Vec<&'a str>)
    ensures
        texts(r@) == dedup_adjacent(texts(paths@)),
{
    paths.into_iter().dedup().collect()
}

fn lookup<'a>(report: &'a CIFullReport, p: &str) -> (r: Option<&'a CIReportData>)
    ensures
        match find_entry(report.entries@, p@) {
            Some(k) => 0 <= k < report.entries@.len() && r == Some(&report.entries@[k].data),
            None => r is None,
        },
{
    let mut i: usize = report.entries.len();
    assert(report.entries@.take(i as int) =~= report.entries@);
    while i > 0
        invariant
            i <= report.entries.len(),
            find_entry(report.entries@, p@) == find_entry(report.entries@.take(i as int), p@),
        decreases i,
    {
        i -= 1;
        proof {
            assert(report.entries@.take(i + 1).drop_last() =~= report.entries@.take(i as int));
            assert(report.entries@.take(i + 1).last() == report.entries@[i as int]);
        }
        if same_text(report.entries[i].filepath.as_str(), p) {
            return Some(&report.entries[i].data);
        }
    }
    None
}

// ---------------------------------------------------------------------------
// What changed for one file
// ---------------------------------------------------------------------------

/// An assertion whose outcome changed between the reports, with the error it
/// had in the one report where it failed.
#[derive(Clone, Debug, PartialEq, Eq)]
pub struct AssertDifference<'report> {
    pub line_number: u32,
    pub command: &'report str,
    pub error: &'report str,
}

/// An assertion that fails in both reports, with different errors.
#[derive(Clone, Debug, PartialEq, Eq)]
pub struct AssertDifferenceChangedErrorMsg<'report> {
    pub line_number: u32,
    pub command: &'report str,
    pub old_error: &'report str,
    pub new_error: &'report str,
}

/// What changed for one test script.
#[derive(Clone, Debug, PartialEq, Eq)]
pub enum FileDeltaType<'report> {
    FileAdded,
    FileDeleted,
    NewScriptError,
    ScriptErrorResolved,
    AssertsChanged {
        now_passing: Vec<AssertDifference<'report>>,
        now_failing: Vec<AssertDifference<'report>>,
        now_with_different_error_message: Vec<AssertDifferenceChangedErrorMsg<'report>>,
    },
}

/// A test script and what changed for it.
#[derive(Clone, Debug, PartialEq, Eq)]
pub struct FileDelta<'report> {
    pub filename: &'report str,
    pub ty: FileDeltaType<'report>,
}

/// Why two reports cannot be compared.
#[derive(Clone, Debug, PartialEq, Eq)]
pub enum DeltaError {
    /// The two reports hold different numbers of assertions for this script.
    DifferentAssertCounts { filepath: String },
    /// The new report holds no assertion with the line and command of this
    /// assertion of the old report.
    MissingAssert { filepath: String, line_number: u32, command: String, error: Option<String> },
}

pub struct AssertDifferenceView {
    pub line_number: u32,
    pub command: Seq<char>,
    pub error: Seq<char>,
}

pub struct ChangedErrorView {
    pub line_number: u32,
    pub command: Seq<char>,
    pub old_error: Seq<char>,
    pub new_error: Seq<char>,
}

pub enum FileDeltaTypeView {
    FileAdded,
    FileDeleted,
    NewScriptError,
    ScriptErrorResolved,
    AssertsChanged {
        now_passing: Seq<AssertDifferenceView>,
        now_failing: Seq<AssertDifferenceView>,
        now_with_different_error_message: Seq<ChangedErrorView>,
    },
}

pub struct FileDeltaView {
    pub filename: Seq<char>,
    pub ty: FileDeltaTypeView,
}

pub enum DeltaErrorView {
    DifferentAssertCounts { filepath: Seq<char> },
    MissingAssert { filepath: Seq<char>, line_number: u32, command: Seq<char>, error: Option<Seq<char>> },
}

impl<'report> View for AssertDifference<'report> {
    type V = AssertDifferenceView;

    open spec fn view(&self) -> AssertDifferenceView {
        AssertDifferenceView {
            line_number: self.line_number,
            command: self.command@,
            error: self.error@,
        }
    }
}

impl<'report> View for AssertDifferenceChangedErrorMsg<'report> {
    type V = ChangedErrorView;

    open spec fn view(&self) -> ChangedErrorView {
        ChangedErrorView {
            line_number: self.line_number,
            command: self.command@,
            old_error: self.old_error@,
            new_error: self.new_error@,
        }
    }
}

/// The views of a list of differences.
pub open spec fn diffs_view(v: Seq<AssertDifference>) -> Seq<AssertDifferenceView> {
    Seq::new(v.len(), |i: int| v[i]@)
}

/// The views of a list of changed errors.
pub open spec fn changed_view(v: Seq<AssertDifferenceChangedErrorMsg>) -> Seq<ChangedErrorView> {
    Seq::new(v.len(), |i: int| v[i]@)
}

impl<'report> View for FileDeltaType<'report> {
    type V = FileDeltaTypeView;

    open spec fn view(&self) -> FileDeltaTypeView {
        match *self {
            FileDeltaType::FileAdded => FileDeltaTypeView::FileAdded,
            FileDeltaType::FileDeleted => FileDeltaTypeView::FileDeleted,
            FileDeltaType::NewScriptError => FileDeltaTypeView::NewScriptError,
            FileDeltaType::ScriptErrorResolved => FileDeltaTypeView::ScriptErrorResolved,
            FileDeltaType::AssertsChanged {
                now_passing,
                now_failing,
                now_with_different_error_message,
            } => FileDeltaTypeView::AssertsChanged {
                now_passing: diffs_view(now_passing@),
                now_failing: diffs_view(now_failing@),
                now_with_different_error_message: changed_view(now_with_different_error_message@),
            },
        }
    }
}

impl<'report> View for FileDelta<'report> {
    type V = FileDeltaView;

    open spec fn view(&self) -> FileDeltaView {
        FileDeltaView { filename: self.filename@, ty: self.ty@ }
    }
}

impl View for DeltaError {
    type V = DeltaErrorView;

    open spec fn view(&self) -> DeltaErrorView {
        match *self {
            DeltaError::DifferentAssertCounts { filepath } => DeltaErrorView::DifferentAssertCounts {
                filepath: filepath@,
            },
            DeltaError::MissingAssert {
                filepath,
                line_number,
                command,
                error,
            } => DeltaErrorView::MissingAssert {
                filepath: filepath@,
                line_number,
                command: command@,
                error: opt_text(error),
            },
        }
    }
}

impl FileDeltaTypeView {
    /// A change of assertions names at least one assertion.
    pub open spec fn has_changes(self) -> bool {
        match self {
            FileDeltaTypeView::AssertsChanged {
                now_passing,
                now_failing,
                now_with_different_error_message,
            } => now_passing.len() > 0 || now_failing.len() > 0
                || now_with_different_error_message.len() > 0,
            _ => true,
        }
    }
}

/// The views of a list of deltas.
pub open spec fn deltas_view(v: Seq<FileDelta>) -> Seq<FileDeltaView> {
    Seq::new(v.len(), |i: int| v[i]@)
}

/// The assertions that changed, in three lists.
pub struct ChangesView {
    pub now_passing: Seq<AssertDifferenceView>,
    pub now_failing: Seq<AssertDifferenceView>,
    pub changed: Seq<ChangedErrorView>,
}

/// The first assertion from index `i` on with this line and command.
pub open spec fn find_assert(new: Seq<CIAssert>, line: u32, command: Seq<char>, i: int) -> Option<int>
    decreases new.len() - i,
{
    if !(0 <= i < new.len()) {
        None
    } else if new[i].line_number == line && new[i].command@ == command {
        Some(i)
    } else {
        find_assert(new, line, command, i + 1)
    }
}

/// The lists `c` with what the pair of an old and a new outcome adds: an
/// assertion that failed and passes now, one that passed and fails now, or
/// one that fails with another error.
pub open spec fn note_change(c: ChangesView, o: CIAssert, n: CIAssert) -> ChangesView {
    match (o.error, n.error) {
        (Some(oe), None) => ChangesView {
            now_passing: c.now_passing.push(
                AssertDifferenceView { line_number: o.line_number, command: o.command@, error: oe@ },
            ),
            now_failing: c.now_failing,
            changed: c.changed,
        },
        (None, Some(ne)) => ChangesView {
            now_passing: c.now_passing,
            now_failing: c.now_failing.push(
                AssertDifferenceView { line_number: o.line_number, command: o.command@, error: ne@ },
            ),
            changed: c.changed,
        },
        (Some(oe), Some(ne)) => if oe@ != ne@ {
            ChangesView {
                now_passing: c.now_passing,
                now_failing: c.now_failing,
                changed: c.changed.push(
                    ChangedErrorView {
                        line_number: o.line_number,
                        command: o.command@,
                        old_error: oe@,
                        new_error: ne@,
                    },
                ),
            }
        } else {
            c
        },
        (None, None) => c,
    }
}

/// The changes between the old assertions and their partners among the new
/// ones, in the order of the old; or the index of the first old assertion
/// that has no partner.
pub open spec fn assert_changes(old: Seq<CIAssert>, new: Seq<CIAssert>) -> Result<ChangesView, int>
    decreases old.len(),
{
    if old.len() == 0 {
        Ok(ChangesView { now_passing: Seq::empty(), now_failing: Seq::empty(), changed: Seq::empty() })
    } else {
        match assert_changes(old.drop_last(), new) {
            Err(k) => Err(k),
            Ok(c) => match find_assert(new, old.last().line_number, old.last().command@, 0) {
                None => Err(old.len() - 1),
                Some(j) => Ok(note_change(c, old.last(), new[j])),
            },
        }
    }
}

/// What changed for a script that ran in both reports; `None` where nothing
/// did.
pub open spec fn asserts_delta(path: Seq<char>, old: Seq<CIAssert>, new: Seq<CIAssert>) -> Option<
    Result<FileDeltaTypeView, DeltaErrorView>,
> {
    if old.len() != new.len() {
        Some(Err(DeltaErrorView::DifferentAssertCounts { filepath: path }))
    } else {
        match assert_changes(old, new) {
            Err(k) => Some(
                Err(
                    DeltaErrorView::MissingAssert {
                        filepath: path,
                        line_number: old[k].line_number,
                        command: old[k].command@,
                        error: opt_text(old[k].error),
                    },
                ),
            ),
            Ok(c) => if c.now_passing.len() == 0 && c.now_failing.len() == 0 && c.changed.len()
                == 0 {
                None
            } else {
                Some(
                    Ok(
                        FileDeltaTypeView::AssertsChanged {
                            now_passing: c.now_passing,
                            now_failing: c.now_failing,
                            now_with_different_error_message: c.changed,
                        },
                    ),
                )
            },
        }
    }
}

/// What changed between what the two reports hold for one path.
pub open spec fn data_delta(path: Seq<char>, old: Option<CIReportData>, new: Option<CIReportData>) -> Option<
    Result<FileDeltaTypeView, DeltaErrorView>,
> {
    match (old, new) {
        (None, None) => None,
        (Some(_), None) => Some(Ok(FileDeltaTypeView::FileDeleted)),
        (None, Some(_)) => Some(Ok(FileDeltaTypeView::FileAdded)),
        (Some(CIReportData::ScriptError { .. }), Some(CIReportData::ScriptError { .. })) => None,
        (Some(CIReportData::Assert { .. }), Some(CIReportData::ScriptError { .. })) => Some(
            Ok(FileDeltaTypeView::NewScriptError),
        ),
        (Some(CIReportData::ScriptError { .. }), Some(CIReportData::Assert { .. })) => Some(
            Ok(FileDeltaTypeView::ScriptErrorResolved),
        ),
        (
            Some(CIReportData::Assert { results: a }),
            Some(CIReportData::Assert { results: b }),
        ) => asserts_delta(path, a@, b@),
    }
}

/// What a report holds for a path.
pub open spec fn entry_data(entries: Seq<CIReportHeader>, path: Seq<char>) -> Option<CIReportData> {
    match find_entry(entries, path) {
        Some(k) => Some(entries[k].data),
        None => None,
    }
}

/// The delta of one path, if anything changed for it.
pub open spec fn file_delta(old: Seq<CIReportHeader>, new: Seq<CIReportHeader>, path: Seq<char>) -> Option<
    Result<FileDeltaView, DeltaErrorView>,
> {
    match data_delta(path, entry_data(old, path), entry_data(new, path)) {
        None => None,
        Some(Err(e)) => Some(Err(e)),
        Some(Ok(ty)) => Some(Ok(FileDeltaView { filename: path, ty })),
    }
}

/// The deltas of the paths in their order, or the error of the first path
/// that has one.
pub open spec fn file_deltas(
    old: Seq<CIReportHeader>,
    new: Seq<CIReportHeader>,
    paths: Seq<Seq<char>>,
) -> Result<Seq<FileDeltaView>, DeltaErrorView>
    decreases paths.len(),
{
    if paths.len() == 0 {
        Ok(Seq::empty())
    } else {
        match file_deltas(old, new, paths.drop_last()) {
            Err(e) => Err(e),
            Ok(ds) => match file_delta(old, new, paths.last()) {
                None => Ok(ds),
                Some(Err(e)) => Err(e),
                Some(Ok(d)) => Ok(ds.push(d)),
            },
        }
    }
}

/// An old assertion without a partner among the first `n` stays without one.
proof fn lemma_missing_assert_stays(old: Seq<CIAssert>, new: Seq<CIAssert>, n: int, k: int)
    requires
        0 <= n <= old.len(),
        assert_changes(old.take(n), new) == Err::<ChangesView, int>(k),
    ensures
        assert_changes(old, new) == Err::<ChangesView, int>(k),
    decreases old.len() - n,
{
    if n < old.len() {
        assert(old.take(n + 1).drop_last() =~= old.take(n));
        lemma_missing_assert_stays(old, new, n + 1, k);
    } else {
        assert(old.take(n) =~= old);
    }
}

/// An error among the first `n` paths is the error of them all.
proof fn lemma_delta_error_stays(
    old: Seq<CIReportHeader>,
    new: Seq<CIReportHeader>,
    paths: Seq<Seq<char>>,
    n: int,
    e: DeltaErrorView,
)
    requires
        0 <= n <= paths.len(),
        file_deltas(old, new, paths.take(n)) == Err::<Seq<FileDeltaView>, DeltaErrorView>(e),
    ensures
        file_deltas(old, new, paths) == Err::<Seq<FileDeltaView>, DeltaErrorView>(e),
    decreases paths.len() - n,
{
    if n < paths.len() {
        assert(paths.take(n + 1).drop_last() =~= paths.take(n));
        lemma_delta_error_stays(old, new, paths, n + 1, e);
    } else {
        assert(paths.take(n) =~= paths);
    }
}

fn find_new_assert<'a>(new: &'a Vec<CIAssert>, old_assert: &CIAssert) -> (r: Option<&'a CIAssert>)
    ensures
        match find_assert(new@, old_assert.line_number, old_assert.command@, 0) {
            Some(j) => 0 <= j < new@.len() && r == Some(&new@[j]),
            None => r is None,
        },
{
    let mut i: usize = 0;
    while i < new.len()
        invariant
            i <= new.len(),
            find_assert(new@, old_assert.line_number, old_assert.command@, 0) == find_assert(
                new@,
                old_assert.line_number,
                old_assert.command@,
                i as int,
            ),
        decreases new.len() - i,
    {
        if new[i].line_number == old_assert.line_number && same_text(
            new[i].command.as_str(),
            old_assert.command.as_str(),
        ) {
            return Some(&new[i]);
        }
        i += 1;
    }
    None
}

/// The view of what the comparison of one file returns.
pub open spec fn outcome_view(r: Option<Result<FileDeltaType, DeltaError>>) -> Option<
    Result<FileDeltaTypeView, DeltaErrorView>,
> {
    match r {
        None => None,
        Some(Err(e)) => Some(Err(e@)),
        Some(Ok(t)) => Some(Ok(t@)),
    }
}

fn owned_opt(s: &Option<String>) -> (r: Option<String>)
    ensures
        opt_text(r) == opt_text(*s),
{
    match s {
        Some(x) => Some(x.clone()),
        None => None,
    }
}

fn compare_asserts<'r>(filepath: &'r str, old: &'r Vec<CIAssert>, new: &'r Vec<CIAssert>) -> (r:
    Option<Result<FileDeltaType<'r>, DeltaError>>)
    ensures
        outcome_view(r) == asserts_delta(filepath@, old@, new@),
        r matches Some(Ok(t)) ==> t@.has_changes(),
{
    if old.len() != new.len() {
        return Some(Err(DeltaError::DifferentAssertCounts { filepath: filepath.to_owned() }));
    }
    let mut now_passing: Vec<AssertDifference<'r>> = Vec::new();
    let mut now_failing: Vec<AssertDifference<'r>> = Vec::new();
    let mut changed: Vec<AssertDifferenceChangedErrorMsg<'r>> = Vec::new();
    let mut i: usize = 0;
    assert(diffs_view(now_passing@) =~= Seq::empty());
    assert(diffs_view(now_failing@) =~= Seq::empty());
    assert(changed_view(changed@) =~= Seq::empty());
    while i < old.len()
        invariant
            i <= old.len(),
            old.len() == new.len(),
            assert_changes(old@.take(i as int), new@) == Ok::<ChangesView, int>(
                ChangesView {
                    now_passing: diffs_view(now_passing@),
                    now_failing: diffs_view(now_failing@),
                    changed: changed_view(changed@),
                },
            ),
        decreases old.len() - i,
    {
        let old_assert = &old[i];
        proof {
            assert(old@.take(i + 1).drop_last() =~= old@.take(i as int));
            assert(old@.take(i + 1).last() == old@[i as int]);
        }
        let ghost passing0 = diffs_view(now_passing@);
        let ghost failing0 = diffs_view(now_failing@);
        let ghost changed0 = changed_view(changed@);
        match find_new_assert(new, old_assert) {
            None => {
                proof {
                    lemma_missing_assert_stays(old@, new@, i + 1, i as int);
                }
                return Some(
                    Err(
                        DeltaError::MissingAssert {
                            filepath: filepath.to_owned(),
                            line_number: old_assert.line_number,
                            command: old_assert.command.clone(),
                            error: owned_opt(&old_assert.error),
                        },
                    ),
                );
            },
            Some(new_assert) => {
                match &old_assert.error {
                    Some(old_error) => match &new_assert.error {
                        None => {
                            let d = AssertDifference {
                                line_number: old_assert.line_number,
                                command: old_assert.command.as_str(),
                                error: old_error.as_str(),
                            };
                            now_passing.push(d);
                            assert(diffs_view(now_passing@) =~= passing0.push(d@));
                        },
                        Some(new_error) => {
                            if !same_text(old_error.as_str(), new_error.as_str()) {
                                let d = AssertDifferenceChangedErrorMsg {
                                    line_number: old_assert.line_number,
                                    command: old_assert.command.as_str(),
                                    old_error: old_error.as_str(),
                                    new_error: new_error.as_str(),
                                };
                                changed.push(d);
                                assert(changed_view(changed@) =~= changed0.push(d@));
                            }
                        },
                    },
                    None => match &new_assert.error {
                        Some(new_error) => {
                            let d = AssertDifference {
                                line_number: old_assert.line_number,
                                command: old_assert.command.as_str(),
                                error: new_error.as_str(),
                            };
                            now_failing.push(d);
                            assert(diffs_view(now_failing@) =~= failing0.push(d@));
                        },
                        None => {},
                    },
                }
            },
        }
        i += 1;
    }
    assert(old@.take(i as int) =~= old@);
    if now_passing.len() == 0 && now_failing.len() == 0 && changed.len() == 0 {
        None
    } else {
        Some(
            Ok(
                FileDeltaType::AssertsChanged {
                    now_passing,
                    now_failing,
                    now_with_different_error_message: changed,
                },
            ),
        )
    }
}

fn compare_data<'r>(
    filepath: &'r str,
    old_entry: Option<&'r CIReportData>,
    new_entry: Option<&'r CIReportData>,
) -> (r: Option<Result<FileDeltaType<'r>, DeltaError>>)
    ensures
        outcome_view(r) == data_delta(
            filepath@,
            match old_entry {
                Some(d) => Some(*d),
                None => None,
            },
            match new_entry {
                Some(d) => Some(*d),
                None => None,
            },
        ),
        r matches Some(Ok(t)) ==> t@.has_changes(),
{
    match old_entry {
        None => match new_entry {
            None => None,
            Some(_) => Some(Ok(FileDeltaType::FileAdded)),
        },
        Some(old_data) => match new_entry {
            None => Some(Ok(FileDeltaType::FileDeleted)),
            Some(new_data) => match old_data {
                CIReportData::ScriptError { .. } => match new_data {
                    CIReportData::ScriptError { .. } => None,
                    CIReportData::Assert { .. } => Some(Ok(FileDeltaType::ScriptErrorResolved)),
                },
                CIReportData::Assert { results: old_results } => match new_data {
                    CIReportData::ScriptError { .. } => Some(Ok(FileDeltaType::NewScriptError)),
                    CIReportData::Assert { results: new_results } => compare_asserts(
                        filepath,
                        old_results,
                        new_results,
                    ),
                },
            },
        },
    }
}

/// The deltas between two reports, in the order of the paths.
pub struct FileDeltas<'report>(Vec<FileDelta<'report>>);

impl<'report> FileDeltas<'report> {
    #[verifier::type_invariant]
    spec fn every_delta_has_changes(self) -> bool {
        forall|i: int| 0 <= i < self.0@.len() ==> (#[trigger] self.0@[i])@.ty.has_changes()
    }

    /// The deltas, in their order.
    pub closed spec fn view(self) -> Seq<FileDeltaView> {
        deltas_view(self.0@)
    }

    /// The deltas, in their order.
    pub fn deltas(&self) -> (r: &Vec<FileDelta<'report>>)
        ensures
            deltas_view(r@) == self.view(),
            forall|i: int| 0 <= i < r@.len() ==> (#[trigger] r@[i])@.ty.has_changes(),
    {
        proof {
            use_type_invariant(self);
        }
        &self.0
    }

    pub fn len(&self) -> (n: usize)
        ensures
            n == self.view().len(),
    {
        self.0.len()
    }

    pub fn is_empty(&self) -> (b: bool)
        ensures
            b == (self.view().len() == 0),
    {
        self.0.len() == 0
    }
}

/// Compares two reports. The result lists, in the byte order of their paths,
/// the test scripts for which something changed, each with what changed:
/// the script is in one report only, it stopped or started to run, or some of
/// its assertions pass, fail or fail differently now. The comparison fails
/// with the error of the first path, in that order, for which the reports
/// hold different numbers of assertions or an old assertion has no partner.
pub fn generate<'a>(old_report: &'a CIFullReport, new_report: &'a CIFullReport) -> (r: Result<
    FileDeltas<'a>,
    DeltaError,
>)
    ensures
        match file_deltas(
            old_report.entries@,
            new_report.entries@,
            all_paths(old_report.entries@, new_report.entries@),
        ) {
            Ok(ds) => r matches Ok(v) && v.view() == ds,
            Err(e) => r matches Err(x) && x@ == e,
        },
        r matches Ok(v) ==> sorted_strictly(filenames(v.view())),
        r matches Ok(v) ==> forall|k: int|
            0 <= k < v.view().len() ==> has_path(old_report.entries@, (#[trigger] v.view()[k]).filename)
                || has_path(new_report.entries@, v.view()[k].filename),
{
    proof {
        if file_deltas(
            old_report.entries@,
            new_report.entries@,
            all_paths(old_report.entries@, new_report.entries@),
        ) is Ok {
            lemma_deltas_rise(old_report.entries@, new_report.entries@);
        }
    }
    let sorted_old_filepaths = sorted_paths(old_report);
    let sorted_new_filepaths = sorted_paths(new_report);
    let merged = merge_paths(&sorted_old_filepaths, &sorted_new_filepaths);
    let all_deduplicated_filepaths = dedup_paths(merged);
    let ghost paths = texts(all_deduplicated_filepaths@);
    let mut deltas: Vec<FileDelta<'a>> = Vec::new();
    let mut i: usize = 0;
    assert(deltas_view(deltas@) =~= Seq::empty());
    assert(paths.take(0) =~= Seq::empty());
    while i < all_deduplicated_filepaths.len()
        invariant
            i <= all_deduplicated_filepaths.len(),
            paths == texts(all_deduplicated_filepaths@),
            paths == all_paths(old_report.entries@, new_report.entries@),
            file_deltas(old_report.entries@, new_report.entries@, paths.take(i as int)) == Ok::<
                Seq<FileDeltaView>,
                DeltaErrorView,
            >(deltas_view(deltas@)),
            forall|k: int| 0 <= k < deltas@.len() ==> (#[trigger] deltas@[k])@.ty.has_changes(),
        decreases all_deduplicated_filepaths.len() - i,
    {
        let filepath: &'a str = all_deduplicated_filepaths[i];
        proof {
            assert(paths.take(i + 1).drop_last() =~= paths.take(i as int));
            assert(paths.take(i + 1).last() == filepath@);
        }
        let ghost before = deltas_view(deltas@);
        let old_entry = lookup(old_report, filepath);
        let new_entry = lookup(new_report, filepath);
        match compare_data(filepath, old_entry, new_entry) {
            None => {},
            Some(Err(e)) => {
                proof {
                    lemma_delta_error_stays(
                        old_report.entries@,
                        new_report.entries@,
                        paths,
                        i + 1,
                        e@,
                    );
                }
                return Err(e);
            },
            Some(Ok(ty)) => {
                let d = FileDelta { filename: filepath, ty };
                deltas.push(d);
                assert(deltas_view(deltas@) =~= before.push(d@));
            },
        }
        i += 1;
    }
    assert(paths.take(i as int) =~= paths);
    Ok(FileDeltas(deltas))
}

// ---------------------------------------------------------------------------
// The table
// ---------------------------------------------------------------------------

/// The character of a decimal digit.
pub open spec fn digit_char(d: nat) -> char {
    if d == 0 {
        '0'
    } else if d == 1 {
        '1'
    } else if d == 2 {
        '2'
    } else if d == 3 {
        '3'
    } else if d == 4 {
        '4'
    } else if d == 5 {
        '5'
    } else if d == 6 {
        '6'
    } else if d == 7 {
        '7'
    } else if d == 8 {
        '8'
    } else {
        '9'
    }
}

/// A number in decimal digits, without leading zeros.
pub open spec fn decimal(n: nat) -> Seq<char>
    decreases n,
{
    if n < 10 {
        seq![digit_char(n)]
    } else {
        decimal(n / 10).push(digit_char(n % 10))
    }
}

fn digit_str(d: usize) -> (r: &'static str)
    requires
        d < 10,
    ensures
        r@ =~= seq![digit_char(d as nat)],
{
    proof {
        reveal_strlit("0");
        reveal_strlit("1");
        reveal_strlit("2");
        reveal_strlit("3");
        reveal_strlit("4");
        reveal_strlit("5");
        reveal_strlit("6");
        reveal_strlit("7");
        reveal_strlit("8");
        reveal_strlit("9");
    }
    if d == 0 {
        "0"
    } else if d == 1 {
        "1"
    } else if d == 2 {
        "2"
    } else if d == 3 {
        "3"
    } else if d == 4 {
        "4"
    } else if d == 5 {
        "5"
    } else if d == 6 {
        "6"
    } else if d == 7 {
        "7"
    } else if d == 8 {
        "8"
    } else {
        "9"
    }
}

fn push_decimal(s: &mut String, n: usize)
    ensures
        final(s)@ == old(s)@ + decimal(n as nat),
    decreases n,
{
    if n >= 10 {
        push_decimal(s, n / 10);
    }
    s.append(digit_str(n % 10));
    assert(s@ =~= old(s)@ + decimal(n as nat));
}

/// The icon of a change of assertions: a check mark where assertions only
/// started to pass, a cross where they only started to fail, and a warning
/// sign where both happened or an error changed.
pub open spec fn changes_icon(passing: nat, failing: nat, changed: nat) -> Seq<char> {
    if changed > 0 || (passing > 0 && failing > 0) {
        "\u{26a0}"@
    } else if passing > 0 {
        "\u{2705}"@
    } else {
        "\u{274c}"@
    }
}

/// The notes and icon columns of a row, with the end of the line.
pub open spec fn notes_text(ty: FileDeltaTypeView) -> Seq<char> {
    match ty {
        FileDeltaTypeView::FileAdded => "File missing in target branch | \u{26a0} |\n"@,
        FileDeltaTypeView::FileDeleted => "File missing in this PR | \u{26a0} |\n"@,
        FileDeltaTypeView::NewScriptError => "File no longer compiles | \u{274c} |\n"@,
        FileDeltaTypeView::ScriptErrorResolved => "File now compiles | \u{2705} |\n"@,
        FileDeltaTypeView::AssertsChanged {
            now_passing,
            now_failing,
            now_with_different_error_message,
        } => {
            let s0 = Seq::<char>::empty();
            let s1 = if now_passing.len() > 0 {
                s0 + "+"@ + decimal(now_passing.len()) + " passing<br>"@
            } else {
                s0
            };
            let s2 = if now_failing.len() > 0 {
                s1 + "-"@ + decimal(now_failing.len()) + " failing<br>"@
            } else {
                s1
            };
            let s3 = if now_with_different_error_message.len() > 0 {
                s2 + decimal(now_with_different_error_message.len()) + " with changed errors "@
            } else {
                s2
            };
            s3 + "| "@ + changes_icon(
                now_passing.len(),
                now_failing.len(),
                now_with_different_error_message.len(),
            ) + " |\n"@
        },
    }
}

/// One row of the table: the path as it is to be shown, the notes, the icon.
pub open spec fn row_text(d: FileDeltaView, shown_path: Seq<char>) -> Seq<char> {
    "| "@ + shown_path + " | "@ + notes_text(d.ty)
}

/// The first `n` rows, each followed by an empty line.
pub open spec fn rows_text(ds: Seq<FileDeltaView>, shown_paths: Seq<Seq<char>>, n: nat) -> Seq<char>
    decreases n,
{
    if n == 0 {
        Seq::empty()
    } else {
        rows_text(ds, shown_paths, (n - 1) as nat) + row_text(ds[n - 1], shown_paths[n - 1]) + "\n"@
    }
}

/// The whole table in markdown, or one line that says that nothing changed.
pub open spec fn table_text(ds: Seq<FileDeltaView>, shown_paths: Seq<Seq<char>>) -> Seq<char> {
    if ds.len() == 0 {
        "<b> No changes detected </b>\n"@
    } else {
        "\\\n            ## PR delta:\n\n            | **File** | **Notes** | \u{2753} |\n            |:--------:|:---------:|:--:|\n            "@
            + rows_text(ds, shown_paths, ds.len())
    }
}

/// The paths of the deltas.
pub open spec fn filenames(ds: Seq<FileDeltaView>) -> Seq<Seq<char>> {
    Seq::new(ds.len(), |i: int| ds[i].filename)
}

/// The texts of a sequence of strings.
pub open spec fn string_texts(v: Seq<String>) -> Seq<Seq<char>> {
    Seq::new(v.len(), |i: int| v[i]@)
}

impl<'report> FileDelta<'report> {
    /// The row of this delta in the table, with `shown_path` in the file
    /// column.
    pub fn to_row(&self, shown_path: &str) -> (r: String)
        requires
            self@.ty.has_changes(),
        ensures
            r@ == row_text(self@, shown_path@),
    {
        let mut out = String::from_str("| ");
        out.append(shown_path);
        out.append(" | ");
        let ghost start = out@;
        match &self.ty {
            FileDeltaType::FileAdded => {
                out.append("File missing in target branch | \u{26a0} |\n");
            },
            FileDeltaType::FileDeleted => {
                out.append("File missing in this PR | \u{26a0} |\n");
            },
            FileDeltaType::NewScriptError => {
                out.append("File no longer compiles | \u{274c} |\n");
            },
            FileDeltaType::ScriptErrorResolved => {
                out.append("File now compiles | \u{2705} |\n");
            },
            FileDeltaType::AssertsChanged {
                now_passing,
                now_failing,
                now_with_different_error_message,
            } => {
                let mut notes = String::new();
                let icon = if now_with_different_error_message.len() > 0 || (now_passing.len() > 0
                    && now_failing.len() > 0) {
                    "\u{26a0}"
                } else if now_passing.len() > 0 {
                    "\u{2705}"
                } else {
                    "\u{274c}"
                };
                if now_passing.len() > 0 {
                    notes.append("+");
                    push_decimal(&mut notes, now_passing.len());
                    notes.append(" passing<br>");
                }
                if now_failing.len() > 0 {
                    notes.append("-");
                    push_decimal(&mut notes, now_failing.len());
                    notes.append(" failing<br>");
                }
                if now_with_different_error_message.len() > 0 {
                    push_decimal(&mut notes, now_with_different_error_message.len());
                    notes.append(" with changed errors ");
                }
                notes.append("| ");
                notes.append(icon);
                notes.append(" |\n");
                assert(notes@ == notes_text(self@.ty));
                out.append(notes.as_str());
            },
        }
        out
    }
}

impl<'report> FileDeltas<'report> {
    /// The table with `shown_paths[i]` in the file column of row `i`, or
    /// `None` where there is not one such path for each row.
    pub fn render(&self, shown_paths: &Vec<String>) -> (r: Option<String>)
        ensures
            r is Some <==> shown_paths@.len() == self.view().len(),
            r matches Some(s) ==> s@ == table_text(self.view(), string_texts(shown_paths@)),
    {
        proof {
            use_type_invariant(self);
        }
        if shown_paths.len() != self.0.len() {
            return None;
        }
        if self.0.len() == 0 {
            return Some(String::from_str("<b> No changes detected </b>\n"));
        }
        let mut out = String::from_str(
            "\\\n            ## PR delta:\n\n            | **File** | **Notes** | \u{2753} |\n            |:--------:|:---------:|:--:|\n            ",
        );
        let ghost header = out@;
        let mut i: usize = 0;
        assert(out@ =~= header + rows_text(self.view(), string_texts(shown_paths@), 0));
        while i < self.0.len()
            invariant
                i <= self.0.len(),
                shown_paths.len() == self.0.len(),
                forall|k: int| 0 <= k < self.0@.len() ==> (#[trigger] self.0@[k])@.ty.has_changes(),
                out@ == header + rows_text(self.view(), string_texts(shown_paths@), i as nat),
            decreases self.0.len() - i,
        {
            let row = self.0[i].to_row(shown_paths[i].as_str());
            out.append(row.as_str());
            out.append("\n");
            assert(out@ =~= header + rows_text(
                self.view(),
                string_texts(shown_paths@),
                (i + 1) as nat,
            ));
            i += 1;
        }
        Some(out)
    }

    /// The table with each file's own path in the file column.
    pub fn to_string(&self) -> (r: String)
        ensures
            r@ == table_text(self.view(), filenames(self.view())),
    {
        proof {
            use_type_invariant(self);
        }
        if self.0.len() == 0 {
            return String::from_str("<b> No changes detected </b>\n");
        }
        let mut out = String::from_str(
            "\\\n            ## PR delta:\n\n            | **File** | **Notes** | \u{2753} |\n            |:--------:|:---------:|:--:|\n            ",
        );
        let ghost header = out@;
        let mut i: usize = 0;
        assert(out@ =~= header + rows_text(self.view(), filenames(self.view()), 0));
        while i < self.0.len()
            invariant
                i <= self.0.len(),
                forall|k: int| 0 <= k < self.0@.len() ==> (#[trigger] self.0@[k])@.ty.has_changes(),
                out@ == header + rows_text(self.view(), filenames(self.view()), i as nat),
            decreases self.0.len() - i,
        {
            let row = self.0[i].to_row(self.0[i].filename);
            out.append(row.as_str());
            out.append("\n");
            assert(out@ =~= header + rows_text(self.view(), filenames(self.view()), (i + 1) as nat));
            i += 1;
        }
        out
    }
}

// ---------------------------------------------------------------------------
// The order of the table
// ---------------------------------------------------------------------------

/// `a` does not come after `b`.
pub open spec fn path_le(a: Seq<char>, b: Seq<char>) -> bool {
    !path_lt(b, a)
}

/// Each path comes before every later one: the list rises and holds no path
/// twice.
pub open spec fn sorted_strictly(s: Seq<Seq<char>>) -> bool {
    forall|i: int, j: int| 0 <= i < j < s.len() ==> path_lt(#[trigger] s[i], #[trigger] s[j])
}

/// No path comes after a later one.
pub open spec fn sorted_weakly(s: Seq<Seq<char>>) -> bool {
    forall|i: int, j: int| 0 <= i < j < s.len() ==> path_le(#[trigger] s[i], #[trigger] s[j])
}

/// No path of the list comes before `lo`.
pub open spec fn bounded_below(lo: Seq<char>, s: Seq<Seq<char>>) -> bool {
    forall|i: int| 0 <= i < s.len() ==> path_le(lo, #[trigger] s[i])
}

/// The report has an entry for the path.
pub open spec fn has_path(entries: Seq<CIReportHeader>, p: Seq<char>) -> bool {
    exists|i: int| 0 <= i < entries.len() && (#[trigger] entries[i]).filepath@ == p
}

/// The list holds the path at index `from` or later.
pub open spec fn holds_from(s: Seq<Seq<char>>, from: int, p: Seq<char>) -> bool {
    exists|k: int| from <= k < s.len() && #[trigger] s[k] == p
}

proof fn lemma_lt_irreflexive(a: Seq<u8>, i: int)
    requires
        0 <= i,
    ensures
        !bytes_lt_from(a, a, i),
    decreases a.len() - i,
{
    if i < a.len() {
        lemma_lt_irreflexive(a, i + 1);
    }
}

proof fn lemma_lt_transitive(a: Seq<u8>, b: Seq<u8>, c: Seq<u8>, i: int)
    requires
        0 <= i,
        bytes_lt_from(a, b, i),
        bytes_lt_from(b, c, i),
    ensures
        bytes_lt_from(a, c, i),
    decreases a.len() - i,
{
    if i < a.len() && i < b.len() && i < c.len() && a[i] == b[i] && b[i] == c[i] {
        lemma_lt_transitive(a, b, c, i + 1);
    }
}

proof fn lemma_lt_total(a: Seq<u8>, b: Seq<u8>, i: int)
    requires
        0 <= i <= a.len(),
        i <= b.len(),
        forall|j: int| 0 <= j < i ==> a[j] == b[j],
    ensures
        bytes_lt_from(a, b, i) || bytes_lt_from(b, a, i) || a == b,
    decreases a.len() - i,
{
    if i < a.len() && i < b.len() {
        if a[i] == b[i] {
            lemma_lt_total(a, b, i + 1);
        }
    } else if i == a.len() && i == b.len() {
        assert(a =~= b);
    }
}

/// The order of paths is a strict total order.
pub proof fn lemma_path_order(a: Seq<char>, b: Seq<char>, c: Seq<char>)
    ensures
        !path_lt(a, a),
        path_lt(a, b) && path_lt(b, c) ==> path_lt(a, c),
        path_lt(a, b) || path_lt(b, a) || a == b,
        !(path_lt(a, b) && path_lt(b, a)),
        path_le(a, b) && path_le(b, c) ==> path_le(a, c),
        path_le(a, b) && path_lt(b, c) ==> path_lt(a, c),
{
    let x = encode_utf8(a);
    let y = encode_utf8(b);
    let z = encode_utf8(c);
    lemma_lt_irreflexive(x, 0);
    lemma_lt_irreflexive(z, 0);
    lemma_lt_total(x, y, 0);
    lemma_lt_total(y, z, 0);
    encode_utf8_decode_utf8(a);
    encode_utf8_decode_utf8(b);
    encode_utf8_decode_utf8(c);
    if path_lt(a, b) && path_lt(b, c) {
        lemma_lt_transitive(x, y, z, 0);
    }
    if path_lt(a, b) && path_lt(b, a) {
        lemma_lt_transitive(x, y, x, 0);
        lemma_lt_irreflexive(x, 0);
    }
    if path_lt(c, a) && path_lt(a, b) {
        lemma_lt_transitive(z, x, y, 0);
    }
    if path_lt(b, c) && path_lt(c, a) {
        lemma_lt_transitive(y, z, x, 0);
    }
}

proof fn lemma_insert_pos(keys: Seq<Seq<char>>, p: Seq<char>, k: int)
    requires
        0 <= k <= keys.len(),
    ensures
        k <= insert_pos(keys, p, k) <= keys.len(),
        forall|j: int| k <= j < insert_pos(keys, p, k) ==> path_lt(#[trigger] keys[j], p),
        insert_pos(keys, p, k) < keys.len() ==> !path_lt(keys[insert_pos(keys, p, k)], p),
    decreases keys.len() - k,
{
    if k < keys.len() && path_lt(keys[k], p) {
        lemma_insert_pos(keys, p, k + 1);
    }
}

proof fn lemma_insert_path(keys: Seq<Seq<char>>, p: Seq<char>)
    requires
        sorted_strictly(keys),
    ensures
        sorted_strictly(insert_path(keys, p)),
        forall|q: Seq<char>| #[trigger] insert_path(keys, p).contains(q) <==> (keys.contains(q) || q == p),
{
    lemma_insert_pos(keys, p, 0);
    let r = insert_pos(keys, p, 0);
    let s2 = insert_path(keys, p);
    if r < keys.len() && keys[r] == p {
        assert forall|q: Seq<char>| #[trigger] s2.contains(q) <==> (keys.contains(q) || q == p) by {
            if q == p {
                assert(keys[r] == q);
            }
        }
    } else {
        assert(s2 =~= keys.insert(r, p));
        assert(s2.len() == keys.len() + 1);
        assert(s2[r] == p);
        assert forall|i: int| 0 <= i < r implies #[trigger] s2[i] == keys[i] by {}
        assert forall|i: int| r < i < s2.len() implies #[trigger] s2[i] == keys[i - 1] by {}
        assert forall|i: int, j: int| 0 <= i < j < s2.len() implies path_lt(#[trigger] s2[i], #[trigger] s2[j]) by {
            if j < r {
                assert(path_lt(keys[i], keys[j]));
            } else if j == r {
                assert(path_lt(keys[i], p));
            } else {
                if r < keys.len() {
                    lemma_path_order(keys[r], p, keys[j - 1]);
                    lemma_path_order(p, keys[r], keys[j - 1]);
                    if j - 1 > r {
                        assert(path_lt(keys[r], keys[j - 1]));
                    }
                }
                if i < r {
                    assert(path_lt(keys[i], keys[j - 1]));
                } else if i > r {
                    assert(path_lt(keys[i - 1], keys[j - 1]));
                }
            }
        }
        assert forall|q: Seq<char>| #[trigger] s2.contains(q) <==> (keys.contains(q) || q == p) by {
            if s2.contains(q) {
                let i = choose|i: int| 0 <= i < s2.len() && s2[i] == q;
                if i < r {
                    assert(keys[i] == q);
                } else if i > r {
                    assert(keys[i - 1] == q);
                }
            }
            if keys.contains(q) {
                let k = choose|k: int| 0 <= k < keys.len() && keys[k] == q;
                if k < r {
                    assert(s2[k] == q);
                } else {
                    assert(s2[k + 1] == q);
                }
            }
            if q == p {
                assert(s2[r] == q);
            }
        }
    }
}

proof fn lemma_report_paths(entries: Seq<CIReportHeader>)
    ensures
        sorted_strictly(report_paths(entries)),
        forall|q: Seq<char>| #[trigger] report_paths(entries).contains(q) <==> has_path(entries, q),
    decreases entries.len(),
{
    if entries.len() > 0 {
        let rest = entries.drop_last();
        let p = entries.last().filepath@;
        lemma_report_paths(rest);
        lemma_insert_path(report_paths(rest), p);
        assert forall|q: Seq<char>| #[trigger] report_paths(entries).contains(q) <==> has_path(entries, q) by {
            assert(insert_path(report_paths(rest), p).contains(q) <==> (report_paths(rest).contains(q) || q == p));
            assert(report_paths(rest).contains(q) <==> has_path(rest, q));
            if has_path(rest, q) {
                let i = choose|i: int| 0 <= i < rest.len() && (#[trigger] rest[i]).filepath@ == q;
                assert(entries[i].filepath@ == q);
            }
            if q == p {
                assert(entries[entries.len() - 1].filepath@ == q);
            }
            if has_path(entries, q) {
                let i = choose|i: int| 0 <= i < entries.len() && (#[trigger] entries[i]).filepath@ == q;
                if i < rest.len() {
                    assert(rest[i].filepath@ == q);
                }
            }
        }
    } else {
        assert forall|q: Seq<char>| #[trigger] report_paths(entries).contains(q) <==> has_path(entries, q) by {}
    }
}

proof fn lemma_merge(a: Seq<Seq<char>>, b: Seq<Seq<char>>, i: int, j: int, lo: Seq<char>)
    requires
        sorted_strictly(a),
        sorted_strictly(b),
        0 <= i <= a.len(),
        0 <= j <= b.len(),
        i < a.len() ==> path_le(lo, a[i]),
        j < b.len() ==> path_le(lo, b[j]),
    ensures
        sorted_weakly(merge_from(a, b, i, j)),
        bounded_below(lo, merge_from(a, b, i, j)),
        forall|q: Seq<char>| #[trigger]
            merge_from(a, b, i, j).contains(q) <==> (holds_from(a, i, q) || holds_from(b, j, q)),
    decreases (a.len() - i) + (b.len() - j),
{
    let m = merge_from(a, b, i, j);
    if i >= a.len() && j >= b.len() {
        assert forall|q: Seq<char>| #[trigger] m.contains(q) <==> (holds_from(a, i, q) || holds_from(b, j, q)) by {}
    } else {
        let take_a = j >= b.len() || (i < a.len() && !path_lt(b[j], a[i]));
        let h = if take_a {
            a[i]
        } else {
            b[j]
        };
        let i2 = if take_a {
            i + 1
        } else {
            i
        };
        let j2 = if take_a {
            j
        } else {
            j + 1
        };
        let rest = merge_from(a, b, i2, j2);
        assert(m =~= seq![h] + rest);
        if i2 < a.len() {
            lemma_path_order(h, a[i2], a[i2]);
            if take_a {
                assert(path_lt(a[i], a[i2]));
            }
        }
        if j2 < b.len() {
            lemma_path_order(h, b[j2], b[j2]);
            if !take_a {
                assert(path_lt(b[j], b[j2]));
            }
        }
        lemma_merge(a, b, i2, j2, h);
        assert forall|x: int| 0 <= x < m.len() implies path_le(lo, #[trigger] m[x]) by {
            if x > 0 {
                assert(m[x] == rest[x - 1]);
                lemma_path_order(lo, h, rest[x - 1]);
            }
        }
        assert forall|x: int, y: int| 0 <= x < y < m.len() implies path_le(#[trigger] m[x], #[trigger] m[y]) by {
            assert(m[y] == rest[y - 1]);
            if x > 0 {
                assert(m[x] == rest[x - 1]);
            }
        }
        assert forall|q: Seq<char>| #[trigger] m.contains(q) <==> (holds_from(a, i, q) || holds_from(b, j, q)) by {
            assert(rest.contains(q) <==> (holds_from(a, i2, q) || holds_from(b, j2, q)));
            if m.contains(q) {
                let x = choose|x: int| 0 <= x < m.len() && m[x] == q;
                if x == 0 {
                    if take_a {
                        assert(a[i] == q);
                    } else {
                        assert(b[j] == q);
                    }
                } else {
                    assert(rest[x - 1] == q);
                    if holds_from(a, i2, q) {
                        let k = choose|k: int| i2 <= k < a.len() && #[trigger] a[k] == q;
                        assert(a[k] == q);
                    }
                    if holds_from(b, j2, q) {
                        let k = choose|k: int| j2 <= k < b.len() && #[trigger] b[k] == q;
                        assert(b[k] == q);
                    }
                }
            }
            if holds_from(a, i, q) {
                let k = choose|k: int| i <= k < a.len() && #[trigger] a[k] == q;
                if k >= i2 {
                    assert(a[k] == q);
                    assert(holds_from(a, i2, q));
                    let x = choose|x: int| 0 <= x < rest.len() && rest[x] == q;
                    assert(m[x + 1] == q);
                } else {
                    assert(m[0] == q);
                }
            }
            if holds_from(b, j, q) {
                let k = choose|k: int| j <= k < b.len() && #[trigger] b[k] == q;
                if k >= j2 {
                    assert(b[k] == q);
                    assert(holds_from(b, j2, q));
                    let x = choose|x: int| 0 <= x < rest.len() && rest[x] == q;
                    assert(m[x + 1] == q);
                } else {
                    assert(m[0] == q);
                }
            }
        }
    }
}

proof fn lemma_dedup(s: Seq<Seq<char>>)
    requires
        sorted_weakly(s),
    ensures
        sorted_strictly(dedup_adjacent(s)),
        forall|q: Seq<char>| #[trigger] dedup_adjacent(s).contains(q) <==> s.contains(q),
        s.len() > 0 ==> dedup_adjacent(s).len() > 0 && dedup_adjacent(s).last() == s.last(),
    decreases s.len(),
{
    let d = dedup_adjacent(s);
    if s.len() > 1 {
        let s1 = s.drop_last();
        let d1 = dedup_adjacent(s1);
        assert forall|i: int, j: int| 0 <= i < j < s1.len() implies path_le(#[trigger] s1[i], #[trigger] s1[j]) by {
            assert(path_le(s[i], s[j]));
        }
        lemma_dedup(s1);
        let prev = s[s.len() - 2];
        let last = s.last();
        assert(s1.last() == prev);
        assert(path_le(prev, last));
        if prev != last {
            lemma_path_order(prev, last, last);
            assert forall|i: int, j: int| 0 <= i < j < d.len() implies path_lt(#[trigger] d[i], #[trigger] d[j]) by {
                if j < d1.len() {
                    assert(path_lt(d1[i], d1[j]));
                } else {
                    assert(d1.contains(d1[i]));
                    assert(s1.contains(d1[i]));
                    let k = choose|k: int| 0 <= k < s1.len() && s1[k] == d1[i];
                    if k < s1.len() - 1 {
                        assert(path_le(s[k], s[s.len() - 2]));
                    }
                    lemma_path_order(d1[i], prev, last);
                }
            }
        }
        assert forall|q: Seq<char>| #[trigger] d.contains(q) <==> s.contains(q) by {
            assert(d1.contains(q) <==> s1.contains(q));
            if d.contains(q) {
                let x = choose|x: int| 0 <= x < d.len() && d[x] == q;
                if prev != last && x == d.len() - 1 {
                    assert(s[s.len() - 1] == q);
                } else {
                    assert(d1[x] == q);
                    let k = choose|k: int| 0 <= k < s1.len() && s1[k] == q;
                    assert(s[k] == q);
                }
            }
            if s.contains(q) {
                let k = choose|k: int| 0 <= k < s.len() && s[k] == q;
                if k < s1.len() {
                    assert(s1[k] == q);
                    let x = choose|x: int| 0 <= x < d1.len() && d1[x] == q;
                    assert(d[x] == q);
                } else if prev != last {
                    assert(d[d.len() - 1] == q);
                } else {
                    assert(s1[s1.len() - 1] == q);
                    let x = choose|x: int| 0 <= x < d1.len() && d1[x] == q;
                    assert(d[x] == q);
                }
            }
        }
    } else {
        assert forall|q: Seq<char>| #[trigger] d.contains(q) <==> s.contains(q) by {}
    }
}

/// The paths that `generate` goes through are the paths of the two reports,
/// each once, in rising byte order.
pub proof fn lemma_all_paths_rise_and_are_complete(old: Seq<CIReportHeader>, new: Seq<CIReportHeader>)
    ensures
        sorted_strictly(all_paths(old, new)),
        forall|q: Seq<char>| #[trigger] all_paths(old, new).contains(q) <==> (has_path(old, q) || has_path(new, q)),
{
    let a = report_paths(old);
    let b = report_paths(new);
    lemma_report_paths(old);
    lemma_report_paths(new);
    let lo = if a.len() > 0 && (b.len() == 0 || !path_lt(b[0], a[0])) {
        a[0]
    } else if b.len() > 0 {
        b[0]
    } else {
        Seq::empty()
    };
    if a.len() > 0 {
        lemma_path_order(lo, a[0], a[0]);
    }
    if b.len() > 0 {
        lemma_path_order(lo, b[0], b[0]);
    }
    lemma_merge(a, b, 0, 0, lo);
    let m = merge_from(a, b, 0, 0);
    lemma_dedup(m);
    assert forall|q: Seq<char>| #[trigger] all_paths(old, new).contains(q) <==> (has_path(old, q) || has_path(new, q)) by {
        assert(dedup_adjacent(m).contains(q) <==> m.contains(q));
        assert(m.contains(q) <==> (holds_from(a, 0, q) || holds_from(b, 0, q)));
        assert(a.contains(q) <==> has_path(old, q));
        assert(b.contains(q) <==> has_path(new, q));
        if holds_from(a, 0, q) {
            let k = choose|k: int| 0 <= k < a.len() && #[trigger] a[k] == q;
            assert(a[k] == q);
        }
        if holds_from(b, 0, q) {
            let k = choose|k: int| 0 <= k < b.len() && #[trigger] b[k] == q;
            assert(b[k] == q);
        }
        if a.contains(q) {
            let k = choose|k: int| 0 <= k < a.len() && a[k] == q;
            assert(holds_from(a, 0, q));
        }
        if b.contains(q) {
            let k = choose|k: int| 0 <= k < b.len() && b[k] == q;
            assert(holds_from(b, 0, q));
        }
    }
}

proof fn lemma_deltas_come_from_paths(
    old: Seq<CIReportHeader>,
    new: Seq<CIReportHeader>,
    paths: Seq<Seq<char>>,
)
    requires
        file_deltas(old, new, paths) is Ok,
    ensures
        forall|k: int|
            0 <= k < file_deltas(old, new, paths)->Ok_0.len() ==> paths.contains(
                (#[trigger] file_deltas(old, new, paths)->Ok_0[k]).filename,
            ),
        sorted_strictly(paths) ==> sorted_strictly(filenames(file_deltas(old, new, paths)->Ok_0)),
    decreases paths.len(),
{
    let ds = file_deltas(old, new, paths)->Ok_0;
    if paths.len() > 0 {
        let rest = paths.drop_last();
        let ds1 = file_deltas(old, new, rest)->Ok_0;
        lemma_deltas_come_from_paths(old, new, rest);
        assert forall|k: int| 0 <= k < ds.len() implies paths.contains((#[trigger] ds[k]).filename) by {
            if k < ds1.len() {
                assert(ds[k] == ds1[k]);
                let x = choose|x: int| 0 <= x < rest.len() && rest[x] == ds1[k].filename;
                assert(paths[x] == ds[k].filename);
            } else {
                assert(paths[paths.len() - 1] == ds[k].filename);
            }
        }
        if sorted_strictly(paths) {
            assert forall|i: int, j: int| 0 <= i < j < rest.len() implies path_lt(#[trigger] rest[i], #[trigger] rest[j]) by {
                assert(path_lt(paths[i], paths[j]));
            }
            let names = filenames(ds);
            assert forall|i: int, j: int| 0 <= i < j < names.len() implies path_lt(
                #[trigger] names[i],
                #[trigger] names[j],
            ) by {
                if j < ds1.len() {
                    assert(path_lt(filenames(ds1)[i], filenames(ds1)[j]));
                } else {
                    assert(ds[i] == ds1[i]);
                    let x = choose|x: int| 0 <= x < rest.len() && rest[x] == ds1[i].filename;
                    assert(path_lt(paths[x], paths[paths.len() - 1]));
                }
            }
        }
    }
}

/// The table rises: the deltas that `generate` returns come in the byte
/// order of their paths, and no path has two of them. Each is the delta of a
/// path of one of the reports.
pub proof fn lemma_deltas_rise(old: Seq<CIReportHeader>, new: Seq<CIReportHeader>)
    requires
        file_deltas(old, new, all_paths(old, new)) is Ok,
    ensures
        sorted_strictly(filenames(file_deltas(old, new, all_paths(old, new))->Ok_0)),
        forall|k: int|
            0 <= k < file_deltas(old, new, all_paths(old, new))->Ok_0.len() ==> {
                let d = #[trigger] file_deltas(old, new, all_paths(old, new))->Ok_0[k];
                (has_path(old, d.filename) || has_path(new, d.filename))
            },
{
    lemma_all_paths_rise_and_are_complete(old, new);
    lemma_deltas_come_from_paths(old, new, all_paths(old, new));
    let ds = file_deltas(old, new, all_paths(old, new))->Ok_0;
    assert forall|k: int| 0 <= k < ds.len() implies {
        let d = #[trigger] ds[k];
        (has_path(old, d.filename) || has_path(new, d.filename))
    } by {
        assert(all_paths(old, new).contains(ds[k].filename));
    }
}

} // verus!
