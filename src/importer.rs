//! The import driver: a state machine that advances one score file per step.
//!
//! The host performs the I/O (opening the database, walking the tree,
//! reading files, inserting rows) and reports each outcome here; the driver
//! decides what comes next and keeps the run's summary.
use vstd::prelude::*;
use crate::chart::ScoreFile;
use crate::schema::{routine_spec, InsertRoutine};
use crate::score::{parse_line_spec, parsed_as, KsmScore, LineError};
use crate::text::{all_digits, digit_value, digits_value, is_digit};

verus! {

/// What a finished run reports.
pub struct Summary {
    pub scores_found: u32,
    pub scores_imported: u32,
    pub fail_messages: Vec<String>,
}

/// One event of the progress stream.
pub enum Progress {
    Started,
    /// `done` of `total` score files have been processed.
    Advanced { done: u32, total: u32 },
    Finished(Summary),
    Errored(String),
}

/// What the host does next.
pub enum Step {
    /// Deliver this event.
    Emit(Progress),
    /// Open this score file and report its lines.
    Open(ScoreFile),
    /// The run is over; nothing more comes.
    Done,
}

#[derive(Clone, Copy, Debug, PartialEq, Eq, Structural)]
pub enum Stage {
    Ready,
    Importing,
    Finished,
}

pub struct Importer {
    stage: Stage,
    db_version: u32,
    score_files: Vec<ScoreFile>,
    summary: Summary,
}

pub open spec fn both_failed_message(db: Seq<char>, ksm: Seq<char>) -> Seq<char> {
    "DB Error: '"@ + db + "', KSM Path error: '"@ + ksm + "'"@
}

pub open spec fn open_failed_message(path: Seq<char>, err: Seq<char>) -> Seq<char> {
    "Failed to open \""@ + path + "\": "@ + err
}

pub open spec fn parse_failed_message(path: Seq<char>, line: Seq<char>, err: Seq<char>) -> Seq<char> {
    "Score parse failed in \""@ + path + "\": "@ + err + ", in line \""@ + line + "\""@
}

pub open spec fn insert_failed_message(err: Seq<char>) -> Seq<char> {
    "Score insert failed: "@ + err
}

/// The decimal text of `n`.
pub open spec fn is_decimal_of(s: Seq<char>, n: nat) -> bool {
    s.len() > 0 && all_digits(s) && digits_value(s) == n && (s.len() > 1 ==> s[0] != '0')
}

pub open spec fn version_message_ok(m: Seq<char>, version: u32) -> bool {
    let prefix = "Unsupported DB version: "@;
    m.len() > prefix.len() && m.subrange(0, prefix.len() as int) == prefix && is_decimal_of(
        m.subrange(prefix.len() as int, m.len() as int),
        version as nat,
    )
}

fn digit_text(d: u32) -> (r: &'static str)
    requires
        d < 10,
    ensures
        r@.len() == 1,
        is_digit(r@[0]),
        digit_value(r@[0]) == d,
{
    proof {
        reveal_strlit("0");
        reveal_strlit("1");
        reveal_strlit("2");
        reveal_strlit("3");
        reveal_strlit("4");
        reveal_strlit("5");
        reveal_strlit("6");
        reveal_strlit("7");
        reveal_strlit("8");
        reveal_strlit("9");
    }
    match d {
        0 => "0",
        1 => "1",
        2 => "2",
        3 => "3",
        4 => "4",
        5 => "5",
        6 => "6",
        7 => "7",
        8 => "8",
        _ => "9",
    }
}

/// The decimal text of `n`: digits without sign or leading zeros.
pub fn decimal_text(n: u32) -> (r: String)
    ensures
        is_decimal_of(r@, n as nat),
        n > 0 ==> r@[0] != '0',
    decreases n,
{
    if n < 10 {
        let t = digit_text(n);
        let r = String::from_str(t);
        assert(r@.drop_last() =~= Seq::<char>::empty());
        assert(r@.last() == t@[0]);
        assert(digits_value(r@.drop_last()) == 0);
        assert(digits_value(r@) == digits_value(r@.drop_last()) * 10 + digit_value(r@.last()));
        assert(all_digits(r@));
        r
    } else {
        let prev = decimal_text(n / 10);
        let t = digit_text(n % 10);
        let r = prev.concat(t);
        proof {
            assert(r@.drop_last() =~= prev@);
            assert(r@[0] == prev@[0]);
            assert(r@.last() == t@[0]);
            assert((n / 10) * 10 + n % 10 == n);
            assert(digits_value(r@) == digits_value(prev@) * 10 + digit_value(t@[0]));
            assert forall|i: int| 0 <= i < r@.len() implies is_digit(#[trigger] r@[i]) by {
                if i < prev@.len() {
                    assert(r@[i] == prev@[i]);
                }
            }
        }
        r
    }
}

impl Importer {
    pub closed spec fn stage(&self) -> Stage {
        self.stage
    }

    pub closed spec fn db_version(&self) -> u32 {
        self.db_version
    }

    /// The score files still to be processed; the last one comes next.
    pub closed spec fn remaining(&self) -> Seq<ScoreFile> {
        self.score_files@
    }

    pub closed spec fn found(&self) -> u32 {
        self.summary.scores_found
    }

    pub closed spec fn imported(&self) -> u32 {
        self.summary.scores_imported
    }

    pub closed spec fn messages(&self) -> Seq<String> {
        self.summary.fail_messages@
    }

    /// While importing, no more files remain than were found.
    pub open spec fn wf(&self) -> bool {
        self.stage() == Stage::Importing ==> self.remaining().len() <= self.found()
    }

    /// Of how many files the run is done, of how many in all.
    pub open spec fn advanced_spec(&self) -> (nat, nat) {
        ((self.found() - self.remaining().len()) as nat, self.found() as nat)
    }

    /// A run that has not started yet.
    pub fn new() -> (r: Importer)
        ensures
            r.stage() == Stage::Ready,
            r.wf(),
    {
        Importer {
            stage: Stage::Ready,
            db_version: 0,
            score_files: Vec::new(),
            summary: Summary { scores_found: 0, scores_imported: 0, fail_messages: Vec::new() },
        }
    }

    /// Starts the run with what opening the database (its schema version)
    /// and enumerating the score files gave.
    pub fn start(&mut self, db: Result<u32, String>, files: Result<Vec<ScoreFile>, String>) -> (p:
        Progress)
        requires
            old(self).stage() == Stage::Ready,
            files is Ok ==> files->Ok_0@.len() <= u32::MAX,
        ensures
            final(self).wf(),
            match (db, files) {
                (Ok(v), Ok(fs)) => {
                    &&& p is Started
                    &&& final(self).stage() == Stage::Importing
                    &&& final(self).db_version() == v
                    &&& final(self).remaining() == fs@
                    &&& final(self).found() == fs@.len()
                    &&& final(self).imported() == 0
                    &&& final(self).messages().len() == 0
                },
                (Err(e), Ok(_)) => {
                    &&& final(self).stage() == Stage::Finished
                    &&& p matches Progress::Errored(m) && m@ == e@
                },
                (Ok(_), Err(e)) => {
                    &&& final(self).stage() == Stage::Finished
                    &&& p matches Progress::Errored(m) && m@ == e@
                },
                (Err(d), Err(k)) => {
                    &&& final(self).stage() == Stage::Finished
                    &&& p matches Progress::Errored(m) && m@ == both_failed_message(d@, k@)
                },
            },
    {
        match (db, files) {
            (Ok(v), Ok(fs)) => {
                self.stage = Stage::Importing;
                self.db_version = v;
                self.summary = Summary {
                    scores_found: fs.len() as u32,
                    scores_imported: 0,
                    fail_messages: Vec::new(),
                };
                self.score_files = fs;
                Progress::Started
            },
            (Err(e), Ok(_)) => {
                self.stage = Stage::Finished;
                Progress::Errored(e)
            },
            (Ok(_), Err(e)) => {
                self.stage = Stage::Finished;
                Progress::Errored(e)
            },
            (Err(d), Err(k)) => {
                self.stage = Stage::Finished;
                let m = String::from_str("DB Error: '").concat(d.as_str()).concat(
                    "', KSM Path error: '",
                ).concat(k.as_str()).concat("'");
                Progress::Errored(m)
            },
        }
    }

    /// Decides the next step: finish when no file remains, stop when the
    /// schema version is unsupported, else hand out the next file.
    pub fn next_file(&mut self) -> (s: Step)
        requires
            old(self).wf(),
            old(self).stage() != Stage::Ready,
        ensures
            final(self).wf(),
            final(self).found() == old(self).found(),
            old(self).stage() == Stage::Finished ==> s is Done && final(self).stage()
                == Stage::Finished,
            old(self).stage() == Stage::Importing ==> {
                if old(self).remaining().len() == 0 {
                    &&& final(self).stage() == Stage::Finished
                    &&& s matches Step::Emit(Progress::Finished(sum))
                    &&& sum.scores_found == old(self).found()
                    &&& sum.scores_imported == old(self).imported()
                    &&& sum.fail_messages@ == old(self).messages()
                } else if routine_spec(old(self).db_version()) is None {
                    &&& final(self).stage() == Stage::Finished
                    &&& s matches Step::Emit(Progress::Errored(m))
                    &&& version_message_ok(m@, old(self).db_version())
                } else {
                    &&& final(self).stage() == Stage::Importing
                    &&& s == Step::Open(old(self).remaining().last())
                    &&& final(self).remaining() == old(self).remaining().drop_last()
                    &&& final(self).db_version() == old(self).db_version()
                    &&& final(self).imported() == old(self).imported()
                    &&& final(self).messages() == old(self).messages()
                }
            },
    {
        if self.stage != Stage::Importing {
            return Step::Done;
        }
        if self.score_files.len() == 0 {
            let mut sum = Summary { scores_found: 0, scores_imported: 0, fail_messages: Vec::new() };
            std::mem::swap(&mut sum, &mut self.summary);
            self.summary.scores_found = sum.scores_found;
            self.stage = Stage::Finished;
            return Step::Emit(Progress::Finished(sum));
        }
        if InsertRoutine::for_version(self.db_version).is_none() {
            self.stage = Stage::Finished;
            let t = decimal_text(self.db_version);
            let m = String::from_str("Unsupported DB version: ").concat(t.as_str());
            proof {
                reveal_strlit("Unsupported DB version: ");
                let n = "Unsupported DB version: "@.len() as int;
                assert(m@.subrange(0, n) =~= "Unsupported DB version: "@);
                assert(m@.subrange(n, m@.len() as int) =~= t@);
            }
            return Step::Emit(Progress::Errored(m));
        }
        match self.score_files.pop() {
            Some(f) => Step::Open(f),
            None => Step::Done,
        }
    }

    /// Records that a score file could not be opened; the file counts as
    /// processed with nothing imported.
    pub fn file_unreadable(&mut self, file: &ScoreFile, error: &str)
        requires
            old(self).stage() == Stage::Importing,
            old(self).wf(),
        ensures
            final(self).wf(),
            final(self).stage() == Stage::Importing,
            final(self).remaining() == old(self).remaining(),
            final(self).db_version() == old(self).db_version(),
            final(self).found() == old(self).found(),
            final(self).imported() == old(self).imported(),
            final(self).messages().len() == old(self).messages().len() + 1,
            final(self).messages().drop_last() == old(self).messages(),
            final(self).messages().last()@ == open_failed_message(file.display@, error@),
    {
        let m = String::from_str("Failed to open \"").concat(file.display.as_str()).concat(
            "\": ",
        ).concat(error);
        self.summary.fail_messages.push(m);
        assert(self.summary.fail_messages@.drop_last() =~= old(self).summary.fail_messages@);
    }

    /// Parses one line of the open score file. A line that does not parse
    /// adds one failure message and yields `None`: nothing is inserted for it.
    pub fn import_line(&mut self, file: &ScoreFile, line: &str) -> (r: Option<KsmScore>)
        requires
            old(self).stage() == Stage::Importing,
            old(self).wf(),
        ensures
            final(self).wf(),
            final(self).stage() == Stage::Importing,
            final(self).remaining() == old(self).remaining(),
            final(self).db_version() == old(self).db_version(),
            final(self).found() == old(self).found(),
            final(self).imported() == old(self).imported(),
            match parse_line_spec(line@) {
                Ok(_) => (r matches Some(s) && parsed_as(line@, s)) && final(self).messages() == old(
                    self,
                ).messages(),
                Err(e) => {
                    &&& r is None
                    &&& final(self).messages().len() == old(self).messages().len() + 1
                    &&& final(self).messages().drop_last() == old(self).messages()
                    &&& final(self).messages().last()@ == parse_failed_message(
                        file.display@,
                        line@,
                        e.message_spec(),
                    )
                },
            },
    {
        match KsmScore::from_str(line) {
            Ok(s) => Some(s),
            Err(e) => {
                let m = String::from_str("Score parse failed in \"").concat(
                    file.display.as_str(),
                ).concat("\": ").concat(e.message().as_str()).concat(", in line \"").concat(
                    line,
                ).concat("\"");
                self.summary.fail_messages.push(m);
                assert(self.summary.fail_messages@.drop_last()
                    =~= old(self).summary.fail_messages@);
                None
            },
        }
    }

    /// Records what inserting the row of one parsed line gave.
    pub fn insert_result(&mut self, outcome: Result<(), String>)
        requires
            old(self).stage() == Stage::Importing,
            old(self).wf(),
            outcome is Ok ==> old(self).imported() < u32::MAX,
        ensures
            final(self).wf(),
            final(self).stage() == Stage::Importing,
            final(self).remaining() == old(self).remaining(),
            final(self).db_version() == old(self).db_version(),
            final(self).found() == old(self).found(),
            match outcome {
                Ok(_) => final(self).imported() == old(self).imported() + 1 && final(self).messages()
                    == old(self).messages(),
                Err(e) => {
                    &&& final(self).imported() == old(self).imported()
                    &&& final(self).messages().len() == old(self).messages().len() + 1
                    &&& final(self).messages().drop_last() == old(self).messages()
                    &&& final(self).messages().last()@ == insert_failed_message(e@)
                },
            },
    {
        match outcome {
            Ok(_) => {
                self.summary.scores_imported = self.summary.scores_imported + 1;
            },
            Err(e) => {
                let m = String::from_str("Score insert failed: ").concat(e.as_str());
                self.summary.fail_messages.push(m);
                assert(self.summary.fail_messages@.drop_last() =~= old(self).summary.fail_messages@);
            },
        }
    }

    /// How many scores the run has imported so far.
    pub fn scores_imported(&self) -> (r: u32)
        ensures
            r == self.imported(),
    {
        self.summary.scores_imported
    }

    /// Closes the processing of one score file and reports how far the run is.
    pub fn file_done(&self) -> (p: Progress)
        requires
            self.stage() == Stage::Importing,
            self.wf(),
        ensures
            p matches Progress::Advanced { done, total } && done == self.advanced_spec().0 && total
                == self.advanced_spec().1,
    {
        let total = self.summary.scores_found;
        let done = total - self.score_files.len() as u32;
        Progress::Advanced { done, total }
    }
}

/// One step of a run: the driver stays importing, keeps its total and
/// gives out no more files than before (what every `Importer` method
/// ensures while importing).
pub open spec fn within_run(a: Importer, b: Importer) -> bool {
    &&& a.wf()
    &&& b.wf()
    &&& a.stage() == Stage::Importing
    &&& b.stage() == Stage::Importing
    &&& b.found() == a.found()
    &&& b.remaining().len() <= a.remaining().len()
}

/// Progress never goes back: along any run of driver states, each step of
/// which is a step of the run, a later state reports at least as many files
/// done as an earlier one, of the same total, and never more than the total.
pub proof fn lemma_progress_nondecreasing(run: Seq<Importer>, i: int, j: int)
    requires
        forall|k: int| 0 <= k < run.len() - 1 ==> #[trigger] within_run(run[k], run[k + 1]),
        0 <= i < j < run.len(),
    ensures
        run[i].advanced_spec().0 <= run[j].advanced_spec().0,
        run[i].advanced_spec().1 == run[j].advanced_spec().1,
        run[j].advanced_spec().0 <= run[j].advanced_spec().1,
    decreases j - i,
{
    assert(within_run(run[i], run[i + 1]));
    if i + 1 < j {
        lemma_progress_nondecreasing(run, i + 1, j);
    }
}

/// The run finishes only from a state with no file left, where the progress
/// last reported is complete: all files done.
pub proof fn lemma_finished_after_complete(s: Importer)
    requires
        s.wf(),
        s.stage() == Stage::Importing,
        s.remaining().len() == 0,
    ensures
        s.advanced_spec().0 == s.advanced_spec().1,
{
}

} // verus!
