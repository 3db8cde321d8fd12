use crate::decimal::{
    decimal, lemma_decimal_len, lemma_decimal_len_small, lemma_padded_len, lemma_value_of_padded,
    padded, push_decimal, push_padded,
};
use vstd::prelude::*;

verus! {

/// What `str::to_lowercase` makes of a sequence of characters.
pub uninterp spec fn lower_of(s: Seq<char>) -> Seq<char>;

/// Relies on `str::to_lowercase`: the lowercase form of a string depends on
/// its characters alone.
#[verifier::external_body]
fn lowercase(s: &str) -> (r: String)
    ensures
        r@ == lower_of(s@),
{
    s.to_lowercase()
}

/// A character that may stand in a workspace name: `a` to `z` or `0` to `9`.
pub open spec fn is_name_char(c: char) -> bool {
    ('a' <= c && c <= 'z') || ('0' <= c && c <= '9')
}

/// The name characters of `s`, in order, with every other character removed.
pub open spec fn name_chars(s: Seq<char>) -> Seq<char> {
    s.filter(|c: char| is_name_char(c))
}

/// Relies on `regex::Regex::new` and `Regex::replace_all`: the class
/// `[^a-z0-9]` compiles, matches each character outside `a-z` and `0-9` on
/// its own, and replacing every match by the empty string keeps the other
/// characters in their order.
#[verifier::external_body]
fn remove_all_matches(pattern: &str, s: &str) -> (r: String)
    requires
        pattern@ == "[^a-z0-9]"@,
    ensures
        r@ == name_chars(s@),
{
    regex::Regex::new(pattern).unwrap().replace_all(s, "").into_owned()
}

/// Why no workspace could be provided.
#[derive(Debug, Clone, Copy, PartialEq, Eq, Structural)]
pub enum WorkspaceError {
    /// The test name holds no letter or digit to name a directory after.
    InvalidTestName,
}

/// The workspace name of an already lowercased test name: its letters
/// `a` to `z` and digits, in order. A name without any is refused.
pub fn name_from_lowercase(lower: &str) -> (r: Result<String, WorkspaceError>)
    ensures
        name_chars(lower@).len() == 0 <==> r is Err,
        r matches Err(e) ==> e == WorkspaceError::InvalidTestName,
        r matches Ok(n) ==> n@ == name_chars(lower@),
{
    let stripped = remove_all_matches("[^a-z0-9]", lower);
    if stripped.as_str().is_empty() {
        Err(WorkspaceError::InvalidTestName)
    } else {
        Ok(stripped)
    }
}

/// The workspace name of a test name: lowercased, then stripped of every
/// character but `a` to `z` and `0` to `9`; so `My Test #1!` becomes
/// `mytest1`. A name that leaves nothing, such as `!!!`, is refused.
pub fn normalize_test_name(test_name: &str) -> (r: Result<String, WorkspaceError>)
    ensures
        name_chars(lower_of(test_name@)).len() == 0 <==> r is Err,
        r matches Err(e) ==> e == WorkspaceError::InvalidTestName,
        r matches Ok(n) ==> n@ == name_chars(lower_of(test_name@)),
{
    let lower = lowercase(test_name);
    name_from_lowercase(lower.as_str())
}

/// A local date and time, to the second.
#[derive(Debug, Clone, Copy, PartialEq, Eq, Structural)]
pub struct Timestamp {
    pub year: i32,
    pub month: u32,
    pub day: u32,
    pub hour: u32,
    pub minute: u32,
    pub second: u32,
}

impl Timestamp {
    /// Each field lies in its calendar range.
    pub open spec fn wf(self) -> bool {
        &&& 1 <= self.month <= 12
        &&& 1 <= self.day <= 31
        &&& self.hour <= 23
        &&& self.minute <= 59
        &&& self.second <= 59
    }
}

/// The year in at least four digits, with a leading `-` before the year 0.
pub open spec fn year_text(y: int) -> Seq<char> {
    if y < 0 {
        seq!['-'] + padded((-y) as nat, 4)
    } else {
        padded(y as nat, 4)
    }
}

/// `YYYYMMDD_HHMMSS`: date and time, each part zero-padded, with `_`
/// between the date and the time.
pub open spec fn timestamp_text(t: Timestamp) -> Seq<char> {
    year_text(t.year as int) + padded(t.month as nat, 2) + padded(t.day as nat, 2) + seq!['_']
        + padded(t.hour as nat, 2) + padded(t.minute as nat, 2) + padded(t.second as nat, 2)
}

/// The directory name tried at `attempt` (counted from 0) for the workspace
/// name `name` at time `t`: `<name>_<timestamp>`, and from the second
/// attempt on `<name>_<timestamp>_<attempt>`.
pub open spec fn candidate_text(name: Seq<char>, t: Timestamp, attempt: nat) -> Seq<char> {
    name + seq!['_'] + timestamp_text(t) + (if attempt == 0 {
        Seq::empty()
    } else {
        seq!['_'] + decimal(attempt)
    })
}

/// Appends `t` to `s` as `YYYYMMDD_HHMMSS`.
pub fn push_timestamp(s: &mut String, t: &Timestamp)
    ensures
        final(s)@ == old(s)@ + timestamp_text(*t),
{
    proof {
        reveal_strlit("-");
        reveal_strlit("_");
    }
    let ghost s0 = s@;
    if t.year < 0 {
        s.append("-");
        push_padded(s, (0i64 - t.year as i64) as u64, 4);
        assert(s@ =~= s0 + year_text(t.year as int));
    } else {
        push_padded(s, t.year as u64, 4);
    }
    let ghost s1 = s@;
    push_padded(s, t.month as u64, 2);
    push_padded(s, t.day as u64, 2);
    s.append("_");
    let ghost s2 = s@;
    assert(s2 =~= s1 + padded(t.month as nat, 2) + padded(t.day as nat, 2) + seq!['_']);
    push_padded(s, t.hour as u64, 2);
    push_padded(s, t.minute as u64, 2);
    push_padded(s, t.second as u64, 2);
    assert(s@ =~= s2 + padded(t.hour as nat, 2) + padded(t.minute as nat, 2) + padded(
        t.second as nat,
        2,
    ));
    assert(s@ =~= old(s)@ + timestamp_text(*t));
}

/// The directory name tried at `attempt` for the workspace name `name` at time `t`.
pub fn candidate_name(name: &str, t: &Timestamp, attempt: u64) -> (r: String)
    ensures
        r@ == candidate_text(name@, *t, attempt as nat),
{
    proof {
        reveal_strlit("_");
    }
    let mut s = name.to_owned();
    s.append("_");
    push_timestamp(&mut s, t);
    if attempt > 0 {
        s.append("_");
        push_decimal(&mut s, attempt);
    }
    assert(s@ =~= candidate_text(name@, *t, attempt as nat));
    s
}

/// For one workspace name and one timestamp, distinct attempts try distinct
/// directory names: a collision within the same second is always broken by
/// the attempt counter.
pub proof fn lemma_candidates_distinct(name: Seq<char>, t: Timestamp, a: nat, b: nat)
    requires
        a != b,
    ensures
        candidate_text(name, t, a) != candidate_text(name, t, b),
{
    let p = name + seq!['_'] + timestamp_text(t);
    lemma_decimal_len(a);
    lemma_decimal_len(b);
    if a != 0 && b != 0 && candidate_text(name, t, a) == candidate_text(name, t, b) {
        let ca = candidate_text(name, t, a);
        let cb = candidate_text(name, t, b);
        assert(ca.subrange(p.len() + 1int, ca.len() as int) =~= decimal(a));
        assert(cb.subrange(p.len() + 1int, cb.len() as int) =~= decimal(b));
        crate::decimal::lemma_decimal_injective(a, b);
    }
}

/// Equal zero-padded texts of equal width come from equal numbers.
proof fn lemma_padded_same(a: nat, b: nat, wa: nat, wb: nat)
    requires
        padded(a, wa) == padded(b, wb),
    ensures
        a == b,
{
    lemma_value_of_padded(a, wa);
    lemma_value_of_padded(b, wb);
}

/// A well-formed timestamp of a year from 0 to 9999 is written in fifteen
/// characters, its parts at fixed places.
proof fn lemma_timestamp_layout(t: Timestamp)
    requires
        t.wf(),
        0 <= t.year <= 9999,
    ensures
        timestamp_text(t).len() == 15,
        timestamp_text(t).subrange(0, 4) == padded(t.year as nat, 4),
        timestamp_text(t).subrange(4, 6) == padded(t.month as nat, 2),
        timestamp_text(t).subrange(6, 8) == padded(t.day as nat, 2),
        timestamp_text(t).subrange(9, 11) == padded(t.hour as nat, 2),
        timestamp_text(t).subrange(11, 13) == padded(t.minute as nat, 2),
        timestamp_text(t).subrange(13, 15) == padded(t.second as nat, 2),
{
    lemma_decimal_len_small(t.year as nat);
    lemma_decimal_len_small(t.month as nat);
    lemma_decimal_len_small(t.day as nat);
    lemma_decimal_len_small(t.hour as nat);
    lemma_decimal_len_small(t.minute as nat);
    lemma_decimal_len_small(t.second as nat);
    lemma_padded_len(t.year as nat, 4);
    lemma_padded_len(t.month as nat, 2);
    lemma_padded_len(t.day as nat, 2);
    lemma_padded_len(t.hour as nat, 2);
    lemma_padded_len(t.minute as nat, 2);
    lemma_padded_len(t.second as nat, 2);
    let s = timestamp_text(t);
    assert(s.subrange(0, 4) =~= padded(t.year as nat, 4));
    assert(s.subrange(4, 6) =~= padded(t.month as nat, 2));
    assert(s.subrange(6, 8) =~= padded(t.day as nat, 2));
    assert(s.subrange(9, 11) =~= padded(t.hour as nat, 2));
    assert(s.subrange(11, 13) =~= padded(t.minute as nat, 2));
    assert(s.subrange(13, 15) =~= padded(t.second as nat, 2));
}

/// Two runs of one test never try the same directory name unless they are
/// at the same second and the same attempt: candidates within one second
/// differ by the attempt counter, and candidates at different seconds differ
/// by their timestamps (for well-formed timestamps of years 0 to 9999).
pub proof fn lemma_candidates_unique(name: Seq<char>, t1: Timestamp, a1: nat, t2: Timestamp, a2: nat)
    requires
        t1.wf(),
        t2.wf(),
        0 <= t1.year <= 9999,
        0 <= t2.year <= 9999,
        t1 != t2 || a1 != a2,
    ensures
        candidate_text(name, t1, a1) != candidate_text(name, t2, a2),
{
    if t1 == t2 {
        lemma_candidates_distinct(name, t1, a1, a2);
    } else if candidate_text(name, t1, a1) == candidate_text(name, t2, a2) {
        lemma_timestamp_layout(t1);
        lemma_timestamp_layout(t2);
        let c = candidate_text(name, t1, a1);
        let start: int = name.len() as int + 1;
        assert(c.subrange(start, start + 15) =~= timestamp_text(t1));
        assert(candidate_text(name, t2, a2).subrange(start, start + 15) =~= timestamp_text(t2));
        let (s1, s2) = (timestamp_text(t1), timestamp_text(t2));
        assert(s1.subrange(0, 4) == s2.subrange(0, 4));
        lemma_padded_same(t1.year as nat, t2.year as nat, 4, 4);
        lemma_padded_same(t1.month as nat, t2.month as nat, 2, 2);
        lemma_padded_same(t1.day as nat, t2.day as nat, 2, 2);
        lemma_padded_same(t1.hour as nat, t2.hour as nat, 2, 2);
        lemma_padded_same(t1.minute as nat, t2.minute as nat, 2, 2);
        lemma_padded_same(t1.second as nat, t2.second as nat, 2, 2);
    }
}

/// Relies on `chrono::Local::now` and chrono's `Datelike` and `Timelike`
/// accessors: the local date and time now, each field in the range that
/// chrono documents for it.
#[verifier::external_body]
fn local_now() -> (r: Timestamp)
    ensures
        r.wf(),
{
    let now = chrono::Local::now();
    Timestamp {
        year: chrono::Datelike::year(&now),
        month: chrono::Datelike::month(&now),
        day: chrono::Datelike::day(&now),
        hour: chrono::Timelike::hour(&now),
        minute: chrono::Timelike::minute(&now),
        second: chrono::Timelike::second(&now),
    }
}

/// What came of an attempt to create a candidate directory.
#[derive(Debug, Clone, Copy, PartialEq, Eq, Structural)]
pub enum CreateOutcome {
    /// The directory was created.
    Created,
    /// A file or directory of that name was already there.
    AlreadyExists,
    /// Creation failed for another reason (permissions, an invalid path, a full disk).
    Failed,
}

/// What to do after an attempt.
#[derive(Debug, Clone, Copy, PartialEq, Eq, Structural)]
pub enum Step {
    /// The workspace exists: use the candidate just created.
    Done,
    /// The candidate was taken: try the next one.
    Retry,
    /// Give up: the failure is fatal to the run.
    Abort,
}

/// The choice of a unique workspace directory for one test run: the
/// workspace name, and how many candidates have collided so far.
#[derive(Debug)]
pub struct Provisioner {
    name: String,
    attempt: u64,
}

/// The state of a provisioner.
pub struct ProvisionerView {
    pub name: Seq<char>,
    pub attempt: nat,
}

impl View for Provisioner {
    type V = ProvisionerView;

    closed spec fn view(&self) -> ProvisionerView {
        ProvisionerView { name: self.name@, attempt: self.attempt as nat }
    }
}

impl Provisioner {
    /// Start choosing a workspace for `test_name`, with no attempt made yet.
    /// A name without any letter or digit is refused.
    pub fn new(test_name: &str) -> (r: Result<Provisioner, WorkspaceError>)
        ensures
            name_chars(lower_of(test_name@)).len() == 0 <==> r is Err,
            r matches Err(e) ==> e == WorkspaceError::InvalidTestName,
            r matches Ok(p) ==> p@ == (ProvisionerView {
                name: name_chars(lower_of(test_name@)),
                attempt: 0,
            }),
    {
        match normalize_test_name(test_name) {
            Ok(name) => Ok(Provisioner { name, attempt: 0 }),
            Err(e) => Err(e),
        }
    }

    /// The workspace name that candidates start with.
    pub fn name(&self) -> (r: &str)
        ensures
            r@ == self@.name,
    {
        self.name.as_str()
    }

    /// How many candidates have collided so far.
    pub fn attempt(&self) -> (r: u64)
        ensures
            r == self@.attempt,
    {
        self.attempt
    }

    /// The candidate directory name to try next, at time `t`.
    pub fn candidate_at(&self, t: &Timestamp) -> (r: String)
        ensures
            r@ == candidate_text(self@.name, *t, self@.attempt),
    {
        candidate_name(self.name.as_str(), t, self.attempt)
    }

    /// The candidate directory name to try next, at the current local time,
    /// which is read anew on each call.
    pub fn next_candidate(&self) -> (r: String)
        ensures
            exists|t: Timestamp| t.wf() && r@ == #[trigger] candidate_text(self@.name, t, self@.attempt),
    {
        let t = local_now();
        self.candidate_at(&t)
    }

    /// Take in the outcome of an attempt to create the current candidate: a
    /// success ends the search, a collision moves on to the next attempt,
    /// any other failure ends the run.
    pub fn on_outcome(&mut self, outcome: CreateOutcome) -> (r: Step)
        requires
            outcome == CreateOutcome::AlreadyExists ==> old(self)@.attempt < u64::MAX,
        ensures
            r == (match outcome {
                CreateOutcome::Created => Step::Done,
                CreateOutcome::AlreadyExists => Step::Retry,
                CreateOutcome::Failed => Step::Abort,
            }),
            final(self)@.name == old(self)@.name,
            final(self)@.attempt == (if outcome == CreateOutcome::AlreadyExists {
                old(self)@.attempt + 1
            } else {
                old(self)@.attempt
            }),
    {
        match outcome {
            CreateOutcome::Created => Step::Done,
            CreateOutcome::AlreadyExists => {
                self.attempt = self.attempt + 1;
                Step::Retry
            },
            CreateOutcome::Failed => Step::Abort,
        }
    }
}

} // verus!
