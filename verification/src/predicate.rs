//! The filter mini-language: clauses of the shape `field operator "value"`,
//! scanned out of a query string and evaluated against tasks.
//!
//! A query holds one or more clauses, combined by implicit logical AND.
//! The scanner looks for clause-shaped stretches anywhere in the string: a
//! word, an operator (`=`, `<`, `>` or `like`), then a double-quoted value.
//! Each clause is then typed: `category` and `status` take `=`, `date`
//! takes `<` or `>` with a `YYYY-MM-DD HH:MM` value, `description` takes
//! `like`. A string with no clause at all, or with a clause that cannot be
//! typed, is an error.

use vstd::prelude::*;
use vstd::string::StrSliceExecFns;
use vstd::string::StringExecFns;
use crate::datetime::{DateTime, dt_lt, spec_parse_datetime, parse_datetime};
use crate::task::{Task, TaskView, TaskStatus, spec_parse_status};
use crate::text::{lower_seq, seq_contains, str_contains, lower_matches, str_eq};

verus! {

/// One typed filter clause.
#[derive(Debug, PartialEq)]
pub enum Predicate {
    Category(String),
    Status(TaskStatus),
    DateBefore(DateTime),
    DateAfter(DateTime),
    DescriptionContains(String),
}

/// The mathematical image of a predicate.
pub ghost enum PredView {
    Category(Seq<char>),
    Status(TaskStatus),
    DateBefore(DateTime),
    DateAfter(DateTime),
    DescriptionContains(Seq<char>),
}

impl View for Predicate {
    type V = PredView;

    open spec fn view(&self) -> PredView {
        match self {
            Predicate::Category(c) => PredView::Category(c@),
            Predicate::Status(s) => PredView::Status(*s),
            Predicate::DateBefore(d) => PredView::DateBefore(*d),
            Predicate::DateAfter(d) => PredView::DateAfter(*d),
            Predicate::DescriptionContains(t) => PredView::DescriptionContains(t@),
        }
    }
}

/// Whether one clause holds of a task.
pub open spec fn spec_matches(p: PredView, t: TaskView) -> bool {
    match p {
        PredView::Category(c) => t.category == c,
        PredView::Status(s) => t.status == s,
        PredView::DateBefore(d) => dt_lt(t.creation_date, d),
        PredView::DateAfter(d) => dt_lt(d, t.creation_date),
        PredView::DescriptionContains(x) => seq_contains(t.description, x),
    }
}

/// Whether every clause of `ps` holds of `t`.
pub open spec fn spec_matches_all(t: TaskView, ps: Seq<PredView>) -> bool {
    forall|i: int| 0 <= i < ps.len() ==> #[trigger] spec_matches(ps[i], t)
}

impl Predicate {
    /// Whether this clause holds of `task`.
    pub fn matches(&self, task: &Task) -> (r: bool)
        ensures
            r == spec_matches(self@, task@),
    {
        match self {
            Predicate::Category(c) => task.category.0 == *c,
            Predicate::Status(s) => *s == task.status,
            Predicate::DateBefore(d) => task.creation_date.is_before(d),
            Predicate::DateAfter(d) => task.creation_date.is_after(d),
            Predicate::DescriptionContains(x) => str_contains(
                task.description.as_str(),
                x.as_str(),
            ),
        }
    }
}

/// A character the scanner counts as part of a word: ASCII letters, digits
/// and underscore.
pub open spec fn is_word(c: char) -> bool {
    (48 <= c as u32 && c as u32 <= 57) || (65 <= c as u32 && c as u32 <= 90) || (97 <= c as u32
        && c as u32 <= 122) || c == '_'
}

/// A whitespace character the scanner skips between clause parts.
pub open spec fn is_space(c: char) -> bool {
    c == ' ' || c == '\t' || c == '\n' || c == '\r'
}

fn is_word_char(c: char) -> (r: bool)
    ensures
        r == is_word(c),
{
    let u = c as u32;
    (48 <= u && u <= 57) || (65 <= u && u <= 90) || (97 <= u && u <= 122) || c == '_'
}

fn is_space_char(c: char) -> (r: bool)
    ensures
        r == is_space(c),
{
    c == ' ' || c == '\t' || c == '\n' || c == '\r'
}

/// The end of the word run beginning at `i`: the first position at or after
/// `i` that is past the end or holds a non-word character.
pub open spec fn run_end(s: Seq<char>, i: int) -> int
    decreases s.len() - i when 0 <= i <= s.len()
{
    if i < s.len() && is_word(s[i]) {
        run_end(s, i + 1)
    } else {
        i
    }
}

/// The first position at or after `i` that is past the end or holds a
/// non-space character.
pub open spec fn spaces_end(s: Seq<char>, i: int) -> int
    decreases s.len() - i when 0 <= i <= s.len()
{
    if i < s.len() && is_space(s[i]) {
        spaces_end(s, i + 1)
    } else {
        i
    }
}

/// The position of the first `"` at or after `i`, or the length of `s` if
/// there is none.
pub open spec fn quote_end(s: Seq<char>, i: int) -> int
    decreases s.len() - i when 0 <= i <= s.len()
{
    if i < s.len() && s[i] != '"' {
        quote_end(s, i + 1)
    } else {
        i
    }
}

pub proof fn lemma_run_end(s: Seq<char>, i: int)
    requires
        0 <= i <= s.len(),
    ensures
        i <= run_end(s, i) <= s.len(),
        forall|j: int| i <= j < run_end(s, i) ==> is_word(#[trigger] s[j]),
        run_end(s, i) < s.len() ==> !is_word(s[run_end(s, i)]),
    decreases s.len() - i,
{
    if i < s.len() && is_word(s[i]) {
        lemma_run_end(s, i + 1);
    }
}

pub proof fn lemma_spaces_end(s: Seq<char>, i: int)
    requires
        0 <= i <= s.len(),
    ensures
        i <= spaces_end(s, i) <= s.len(),
        forall|j: int| i <= j < spaces_end(s, i) ==> is_space(#[trigger] s[j]),
        spaces_end(s, i) < s.len() ==> !is_space(s[spaces_end(s, i)]),
    decreases s.len() - i,
{
    if i < s.len() && is_space(s[i]) {
        lemma_spaces_end(s, i + 1);
    }
}

pub proof fn lemma_quote_end(s: Seq<char>, i: int)
    requires
        0 <= i <= s.len(),
    ensures
        i <= quote_end(s, i) <= s.len(),
        forall|j: int| i <= j < quote_end(s, i) ==> #[trigger] s[j] != '"',
        quote_end(s, i) < s.len() ==> s[quote_end(s, i)] == '"',
    decreases s.len() - i,
{
    if i < s.len() && s[i] != '"' {
        lemma_quote_end(s, i + 1);
    }
}

/// A clause's operator.
#[derive(Clone, Copy, PartialEq, Eq, Structural, Debug)]
pub enum CmpOp {
    Eq,
    Lt,
    Gt,
    Like,
}

/// A raw clause as the scanner cuts it out: field word, operator, quoted
/// value.
pub ghost struct Clause {
    pub field: Seq<char>,
    pub op: CmpOp,
    pub value: Seq<char>,
}

/// The operator found at position `p`, with the position just after it:
/// `=`, `<`, `>`, or the four letters `like`.
pub open spec fn op_at(s: Seq<char>, p: int) -> Option<(CmpOp, int)> {
    if p < s.len() && s[p] == '=' {
        Some((CmpOp::Eq, p + 1))
    } else if p < s.len() && s[p] == '<' {
        Some((CmpOp::Lt, p + 1))
    } else if p < s.len() && s[p] == '>' {
        Some((CmpOp::Gt, p + 1))
    } else if p + 4 <= s.len() && s[p] == 'l' && s[p + 1] == 'i' && s[p + 2] == 'k' && s[p + 3]
        == 'e' {
        Some((CmpOp::Like, p + 4))
    } else {
        None
    }
}

/// The quoted value expected from position `x` on: optional spaces, a `"`,
/// the value, and a closing `"`. Yields the value and the position just
/// after the closing quote.
pub open spec fn value_at(s: Seq<char>, x: int) -> Option<(Seq<char>, int)> {
    let q = spaces_end(s, x);
    if q < s.len() && s[q] == '"' {
        let r = quote_end(s, q + 1);
        if r < s.len() {
            Some((s.subrange(q + 1, r), r + 1))
        } else {
            None
        }
    } else {
        None
    }
}

/// The clause cut out at the word run `[i, k)`, if any, with the position
/// just after it. The whole run is preferred as the field; failing that, a
/// run ending in the letters `like` splits into a shorter field and a
/// `like` operator.
pub open spec fn attempt(s: Seq<char>, i: int, k: int) -> Option<(Clause, int)> {
    let p = spaces_end(s, k);
    let full = match op_at(s, p) {
        Some((op, q0)) => match value_at(s, q0) {
            Some((v, e)) => Some((Clause { field: s.subrange(i, k), op, value: v }, e)),
            None => None,
        },
        None => None,
    };
    if full is Some {
        full
    } else if k - i >= 5 && s[k - 4] == 'l' && s[k - 3] == 'i' && s[k - 2] == 'k' && s[k - 1]
        == 'e' {
        match value_at(s, k) {
            Some((v, e)) => Some(
                (Clause { field: s.subrange(i, k - 4), op: CmpOp::Like, value: v }, e),
            ),
            None => None,
        }
    } else {
        None
    }
}

pub proof fn lemma_value_at_bounds(s: Seq<char>, x: int)
    requires
        0 <= x <= s.len(),
    ensures
        value_at(s, x) is Some ==> x + 2 <= (value_at(s, x)->0).1 <= s.len(),
{
    lemma_spaces_end(s, x);
    let q = spaces_end(s, x);
    if q < s.len() && s[q] == '"' {
        lemma_quote_end(s, q + 1);
    }
}

pub proof fn lemma_attempt_bounds(s: Seq<char>, i: int, k: int)
    requires
        0 <= i < k <= s.len(),
    ensures
        attempt(s, i, k) is Some ==> i < (attempt(s, i, k)->0).1 <= s.len(),
{
    lemma_spaces_end(s, k);
    let p = spaces_end(s, k);
    if p < s.len() {
        lemma_value_at_bounds(s, p + 1);
    }
    if p + 4 <= s.len() {
        lemma_value_at_bounds(s, p + 4);
    }
    lemma_value_at_bounds(s, k);
}

/// Every clause the scanner finds in `s` from position `i` on, in order.
/// Clause candidates start at word characters; a run that yields no clause
/// is skipped whole.
pub open spec fn scan(s: Seq<char>, i: int) -> Seq<Clause>
    decreases s.len() - i when 0 <= i <= s.len() via scan_decreases
{
    if i >= s.len() {
        Seq::empty()
    } else if !is_word(s[i]) {
        scan(s, i + 1)
    } else {
        let k = run_end(s, i);
        match attempt(s, i, k) {
            Some((c, e)) => seq![c] + scan(s, e),
            None => scan(s, k),
        }
    }
}

#[via_fn]
proof fn scan_decreases(s: Seq<char>, i: int) {
    if 0 <= i < s.len() && is_word(s[i]) {
        lemma_run_end(s, i);
        let k = run_end(s, i);
        assert(i < k) by {
            assert(run_end(s, i) == run_end(s, i + 1));
        }
        lemma_attempt_bounds(s, i, k);
    }
}

/// The typed predicate a raw clause stands for, if its field and operator
/// go together: the field word is read ignoring ASCII case.
pub open spec fn clause_to_pred(c: Clause) -> Option<PredView> {
    let f = lower_seq(c.field);
    if f == "category"@ && c.op is Eq {
        Some(PredView::Category(c.value))
    } else if f == "status"@ && c.op is Eq {
        match spec_parse_status(c.value) {
            Some(st) => Some(PredView::Status(st)),
            None => None,
        }
    } else if f == "date"@ && c.op is Lt {
        match spec_parse_datetime(c.value) {
            Some(d) => Some(PredView::DateBefore(d)),
            None => None,
        }
    } else if f == "date"@ && c.op is Gt {
        match spec_parse_datetime(c.value) {
            Some(d) => Some(PredView::DateAfter(d)),
            None => None,
        }
    } else if f == "description"@ && c.op is Like {
        Some(PredView::DescriptionContains(c.value))
    } else {
        None
    }
}

/// Types every clause in order; one untypable clause spoils the whole
/// list.
pub open spec fn clauses_to_preds(cs: Seq<Clause>) -> Option<Seq<PredView>>
    decreases cs.len(),
{
    if cs.len() == 0 {
        Some(Seq::empty())
    } else {
        match clause_to_pred(cs[0]) {
            Some(p) => match clauses_to_preds(cs.drop_first()) {
                Some(ps) => Some(seq![p] + ps),
                None => None,
            },
            None => None,
        }
    }
}

/// What a whole query string means: the scanner must find at least one
/// clause, and every clause must type.
pub open spec fn spec_parse_predicates(s: Seq<char>) -> Option<Seq<PredView>> {
    if scan(s, 0).len() == 0 {
        None
    } else {
        clauses_to_preds(scan(s, 0))
    }
}

/// The views of a list of predicates.
pub open spec fn views_of(ps: Seq<Predicate>) -> Seq<PredView> {
    ps.map_values(|p: Predicate| p@)
}

pub proof fn lemma_clauses_to_preds_append(a: Seq<Clause>, b: Seq<Clause>)
    ensures
        clauses_to_preds(a + b) == (match clauses_to_preds(a) {
            Some(pa) => match clauses_to_preds(b) {
                Some(pb) => Some(pa + pb),
                None => None,
            },
            None => None,
        }),
    decreases a.len(),
{
    if a.len() == 0 {
        assert(a + b =~= b);
        match clauses_to_preds(b) {
            Some(pb) => {
                assert(Seq::<PredView>::empty() + pb =~= pb);
            },
            None => {},
        }
    } else {
        assert((a + b).len() > 0);
        assert((a + b)[0] == a[0]);
        assert((a + b).drop_first() =~= a.drop_first() + b);
        lemma_clauses_to_preds_append(a.drop_first(), b);
        match clause_to_pred(a[0]) {
            Some(p) => {
                match clauses_to_preds(a.drop_first()) {
                    Some(pa1) => {
                        match clauses_to_preds(b) {
                            Some(pb) => {
                                assert(seq![p] + (pa1 + pb) =~= (seq![p] + pa1) + pb);
                            },
                            None => {},
                        }
                    },
                    None => {},
                }
            },
            None => {},
        }
    }
}

fn run_end_exec(s: &str, i: usize) -> (r: usize)
    requires
        i <= s@.len(),
    ensures
        r == run_end(s@, i as int),
{
    let n = s.unicode_len();
    let mut j = i;
    while j < n && is_word_char(s.get_char(j))
        invariant
            i <= j <= n,
            n == s@.len(),
            run_end(s@, i as int) == run_end(s@, j as int),
        decreases n - j,
    {
        j += 1;
    }
    j
}

fn spaces_end_exec(s: &str, i: usize) -> (r: usize)
    requires
        i <= s@.len(),
    ensures
        r == spaces_end(s@, i as int),
{
    let n = s.unicode_len();
    let mut j = i;
    while j < n && is_space_char(s.get_char(j))
        invariant
            i <= j <= n,
            n == s@.len(),
            spaces_end(s@, i as int) == spaces_end(s@, j as int),
        decreases n - j,
    {
        j += 1;
    }
    j
}

fn quote_end_exec(s: &str, i: usize) -> (r: usize)
    requires
        i <= s@.len(),
    ensures
        r == quote_end(s@, i as int),
{
    let n = s.unicode_len();
    let mut j = i;
    while j < n && s.get_char(j) != '"'
        invariant
            i <= j <= n,
            n == s@.len(),
            quote_end(s@, i as int) == quote_end(s@, j as int),
        decreases n - j,
    {
        j += 1;
    }
    j
}

/// A raw clause cut out of the query string.
struct ClauseData {
    field: String,
    op: CmpOp,
    value: String,
}

impl View for ClauseData {
    type V = Clause;

    closed spec fn view(&self) -> Clause {
        Clause { field: self.field@, op: self.op, value: self.value@ }
    }
}

fn value_at_exec(s: &str, x: usize) -> (r: Option<(String, usize)>)
    requires
        x <= s@.len(),
    ensures
        match r {
            Some(ve) => value_at(s@, x as int) == Some((ve.0@, ve.1 as int)),
            None => value_at(s@, x as int) is None,
        },
{
    let n = s.unicode_len();
    proof {
        lemma_spaces_end(s@, x as int);
    }
    let q = spaces_end_exec(s, x);
    if q < n && s.get_char(q) == '"' {
        proof {
            lemma_quote_end(s@, q as int + 1);
        }
        let r = quote_end_exec(s, q + 1);
        if r < n {
            Some((String::from_str(s.substring_char(q + 1, r)), r + 1))
        } else {
            None
        }
    } else {
        None
    }
}

fn attempt_exec(s: &str, i: usize, k: usize) -> (r: Option<(ClauseData, usize)>)
    requires
        i < k <= s@.len(),
        k == run_end(s@, i as int),
    ensures
        match r {
            Some(ce) => attempt(s@, i as int, k as int) == Some((ce.0@, ce.1 as int)),
            None => attempt(s@, i as int, k as int) is None,
        },
{
    let n = s.unicode_len();
    proof {
        lemma_spaces_end(s@, k as int);
    }
    let p = spaces_end_exec(s, k);
    let op: Option<(CmpOp, usize)> = if p < n && s.get_char(p) == '=' {
        Some((CmpOp::Eq, p + 1))
    } else if p < n && s.get_char(p) == '<' {
        Some((CmpOp::Lt, p + 1))
    } else if p < n && s.get_char(p) == '>' {
        Some((CmpOp::Gt, p + 1))
    } else if n - p >= 4 && s.get_char(p) == 'l' && s.get_char(p + 1) == 'i' && s.get_char(p + 2)
        == 'k' && s.get_char(p + 3) == 'e' {
        Some((CmpOp::Like, p + 4))
    } else {
        None
    };
    proof {
        match op {
            Some(oq) => {
                assert(op_at(s@, p as int) == Some((oq.0, oq.1 as int)));
            },
            None => {
                assert(op_at(s@, p as int) is None);
            },
        }
    }
    match op {
        Some((o, q0)) => {
            match value_at_exec(s, q0) {
                Some((v, e)) => {
                    return Some(
                        (ClauseData { field: String::from_str(s.substring_char(i, k)), op: o, value: v }, e),
                    );
                },
                None => {},
            }
        },
        None => {},
    }
    if k - i >= 5 && s.get_char(k - 4) == 'l' && s.get_char(k - 3) == 'i' && s.get_char(k - 2)
        == 'k' && s.get_char(k - 1) == 'e' {
        match value_at_exec(s, k) {
            Some((v, e)) => Some(
                (ClauseData { field: String::from_str(s.substring_char(i, k - 4)), op: CmpOp::Like, value: v }, e),
            ),
            None => None,
        }
    } else {
        None
    }
}

/// Types one raw clause, or says why it cannot be typed.
fn typed_clause(cd: &ClauseData) -> (r: Result<Predicate, String>)
    ensures
        r is Ok <==> clause_to_pred(cd@) is Some,
        r is Ok ==> clause_to_pred(cd@) == Some(r->Ok_0@),
{
    if lower_matches(cd.field.as_str(), "category") && cd.op == CmpOp::Eq {
        Ok(Predicate::Category(cd.value.clone()))
    } else if lower_matches(cd.field.as_str(), "status") && cd.op == CmpOp::Eq {
        match TaskStatus::parse(cd.value.as_str()) {
            Ok(st) => Ok(Predicate::Status(st)),
            Err(e) => Err(e),
        }
    } else if lower_matches(cd.field.as_str(), "date") && cd.op == CmpOp::Lt {
        match parse_datetime(cd.value.as_str()) {
            Ok(d) => Ok(Predicate::DateBefore(d)),
            Err(e) => Err(e),
        }
    } else if lower_matches(cd.field.as_str(), "date") && cd.op == CmpOp::Gt {
        match parse_datetime(cd.value.as_str()) {
            Ok(d) => Ok(Predicate::DateAfter(d)),
            Err(e) => Err(e),
        }
    } else if lower_matches(cd.field.as_str(), "description") && cd.op == CmpOp::Like {
        Ok(Predicate::DescriptionContains(cd.value.clone()))
    } else {
        Err(String::from_str("Unknown predicate"))
    }
}

/// Reads a whole query: every clause the scanner finds, typed, in order.
/// Errors exactly when the string holds no clause at all or some clause
/// cannot be typed.
pub fn parse_predicates(s: &str) -> (r: Result<Vec<Predicate>, String>)
    ensures
        r is Ok <==> spec_parse_predicates(s@) is Some,
        r is Ok ==> spec_parse_predicates(s@) == Some(views_of(r->Ok_0@)),
{
    let n = s.unicode_len();
    let mut preds: Vec<Predicate> = Vec::new();
    let ghost mut done: Seq<Clause> = Seq::empty();
    let mut i: usize = 0;
    proof {
        assert(Seq::<Clause>::empty() + scan(s@, 0) =~= scan(s@, 0));
    }
    while i < n
        invariant
            n == s@.len(),
            0 <= i <= n,
            scan(s@, 0) == done + scan(s@, i as int),
            clauses_to_preds(done) == Some(views_of(preds@)),
            preds@.len() == done.len(),
        decreases n - i,
    {
        if !is_word_char(s.get_char(i)) {
            i += 1;
        } else {
            proof {
                lemma_run_end(s@, i as int);
                assert(run_end(s@, i as int) == run_end(s@, i as int + 1));
            }
            let k = run_end_exec(s, i);
            match attempt_exec(s, i, k) {
                None => {
                    i = k;
                },
                Some((cd, e)) => {
                    proof {
                        lemma_attempt_bounds(s@, i as int, k as int);
                        assert(scan(s@, i as int) == seq![cd@] + scan(s@, e as int));
                        assert(scan(s@, 0) =~= (done + seq![cd@]) + scan(s@, e as int));
                    }
                    match typed_clause(&cd) {
                        Err(msg) => {
                            proof {
                                lemma_clauses_to_preds_append(done, seq![cd@] + scan(s@, e as int));
                                assert((seq![cd@] + scan(s@, e as int))[0] == cd@);
                                assert(clauses_to_preds(seq![cd@] + scan(s@, e as int)) is None);
                                assert(clauses_to_preds(scan(s@, 0)) is None);
                            }
                            return Err(msg);
                        },
                        Ok(p) => {
                            proof {
                                lemma_clauses_to_preds_append(done, seq![cd@]);
                                assert(seq![cd@].drop_first() =~= Seq::<Clause>::empty());
                                assert(seq![p@] + Seq::<PredView>::empty() =~= seq![p@]);
                                assert(seq![cd@][0] == cd@);
                                assert(clauses_to_preds(Seq::<Clause>::empty()) == Some(
                                    Seq::<PredView>::empty(),
                                ));
                                assert(clauses_to_preds(seq![cd@]) == Some(seq![p@]));
                                assert(views_of(preds@).push(p@) =~= views_of(preds@.push(p)));
                                assert(views_of(preds@) + seq![p@] =~= views_of(preds@).push(p@));
                            }
                            preds.push(p);
                            proof {
                                done = done + seq![cd@];
                            }
                            i = e;
                        },
                    }
                },
            }
        }
    }
    proof {
        assert(scan(s@, i as int) =~= Seq::<Clause>::empty());
        assert(scan(s@, 0) =~= done);
    }
    if preds.len() == 0 {
        Err(String::from_str("Invalid predicate format"))
    } else {
        Ok(preds)
    }
}

/// The position of the first space at or after `i`, or the length of `s`
/// if there is none.
pub open spec fn space_pos(s: Seq<char>, i: int) -> int
    decreases s.len() - i when 0 <= i <= s.len()
{
    if i < s.len() && s[i] != ' ' {
        space_pos(s, i + 1)
    } else {
        i
    }
}

pub proof fn lemma_space_pos(s: Seq<char>, i: int)
    requires
        0 <= i <= s.len(),
    ensures
        i <= space_pos(s, i) <= s.len(),
        forall|j: int| i <= j < space_pos(s, i) ==> #[trigger] s[j] != ' ',
        space_pos(s, i) < s.len() ==> s[space_pos(s, i)] == ' ',
    decreases s.len() - i,
{
    if i < s.len() && s[i] != ' ' {
        lemma_space_pos(s, i + 1);
    }
}

fn space_pos_exec(s: &str, i: usize) -> (r: usize)
    requires
        i <= s@.len(),
    ensures
        r == space_pos(s@, i as int),
{
    let n = s.unicode_len();
    let mut j = i;
    while j < n && s.get_char(j) != ' '
        invariant
            i <= j <= n,
            n == s@.len(),
            space_pos(s@, i as int) == space_pos(s@, j as int),
        decreases n - j,
    {
        j += 1;
    }
    j
}

/// `s` with every leading and every trailing `"` removed.
pub open spec fn trim_quotes(s: Seq<char>) -> Seq<char>
    decreases s.len(),
{
    if s.len() > 0 && s[0] == '"' {
        trim_quotes(s.drop_first())
    } else if s.len() > 0 && s[s.len() - 1] == '"' {
        trim_quotes(s.drop_last())
    } else {
        s
    }
}

proof fn lemma_trim_quotes(s: Seq<char>, l: int, r: int)
    requires
        0 <= l <= r <= s.len(),
        forall|j: int| 0 <= j < l ==> #[trigger] s[j] == '"',
        forall|j: int| r <= j < s.len() ==> #[trigger] s[j] == '"',
        l < r ==> s[l] != '"' && s[r - 1] != '"',
    ensures
        trim_quotes(s) == s.subrange(l, r),
    decreases s.len(),
{
    if s.len() == 0 {
        assert(s.subrange(l, r) =~= s);
    } else if s[0] == '"' {
        let t = s.drop_first();
        if l == r {
            lemma_trim_quotes(t, 0, 0);
            assert(s.subrange(l, r) =~= t.subrange(0, 0));
        } else {
            assert(l >= 1);
            lemma_trim_quotes(t, l - 1, r - 1);
            assert(s.subrange(l, r) =~= t.subrange(l - 1, r - 1));
        }
    } else if s[s.len() - 1] == '"' {
        assert(l == 0);
        assert(l < r) by {
            if l == r {
                assert(s[0] == '"');
            }
        }
        assert(r < s.len());
        let t = s.drop_last();
        lemma_trim_quotes(t, l, r);
        assert(s.subrange(l, r) =~= t.subrange(l, r));
    } else {
        assert(l == 0);
        assert(r == s.len()) by {
            if r < s.len() {
                assert(s[s.len() - 1] == '"');
            }
        }
        assert(s.subrange(l, r) =~= s);
    }
}

/// Removes every leading and trailing `"` of `s`.
fn trim_quotes_exec(s: &str) -> (r: String)
    ensures
        r@ == trim_quotes(s@),
{
    let n = s.unicode_len();
    let mut l: usize = 0;
    while l < n && s.get_char(l) == '"'
        invariant
            0 <= l <= n,
            n == s@.len(),
            forall|j: int| 0 <= j < l ==> #[trigger] s@[j] == '"',
        decreases n - l,
    {
        l += 1;
    }
    let mut rr: usize = n;
    while rr > l && s.get_char(rr - 1) == '"'
        invariant
            l <= rr <= n,
            n == s@.len(),
            forall|j: int| rr <= j < n ==> #[trigger] s@[j] == '"',
        decreases rr,
    {
        rr -= 1;
    }
    proof {
        lemma_trim_quotes(s@, l as int, rr as int);
    }
    String::from_str(s.substring_char(l, rr))
}

/// The lone-clause form read by `Predicate::parse`: the string splits on
/// its first two spaces into field, operator and value (the value keeping
/// any further spaces). The field decides the type; `category` accepts any
/// operator word, and a `description` value sheds surrounding quotes.
pub open spec fn spec_parse_predicate(s: Seq<char>) -> Option<PredView> {
    let a = space_pos(s, 0);
    if a >= s.len() {
        None
    } else {
        let b = space_pos(s, a + 1);
        if b >= s.len() {
            None
        } else {
            let f = s.subrange(0, a);
            let op = s.subrange(a + 1, b);
            let v = s.subrange(b + 1, s.len() as int);
            if f == "category"@ {
                Some(PredView::Category(v))
            } else if f == "status"@ {
                match spec_parse_status(v) {
                    Some(st) => Some(PredView::Status(st)),
                    None => None,
                }
            } else if f == "date"@ {
                match spec_parse_datetime(v) {
                    Some(d) => if op == "<"@ {
                        Some(PredView::DateBefore(d))
                    } else if op == ">"@ {
                        Some(PredView::DateAfter(d))
                    } else {
                        None
                    },
                    None => None,
                }
            } else if f == "description"@ {
                if op == "like"@ {
                    Some(PredView::DescriptionContains(trim_quotes(v)))
                } else {
                    None
                }
            } else {
                None
            }
        }
    }
}

impl Predicate {
    /// Reads the lone-clause form `field op value`; errors exactly on
    /// strings of fewer than three space-separated parts, unknown fields,
    /// and field/operator/value combinations that type to no clause.
    pub fn parse(s: &str) -> (r: Result<Predicate, String>)
        ensures
            r is Ok <==> spec_parse_predicate(s@) is Some,
            r is Ok ==> spec_parse_predicate(s@) == Some(r->Ok_0@),
    {
        let n = s.unicode_len();
        proof {
            lemma_space_pos(s@, 0);
        }
        let a = space_pos_exec(s, 0);
        if a >= n {
            return Err(String::from_str("Invalid predicate format"));
        }
        proof {
            lemma_space_pos(s@, a as int + 1);
        }
        let b = space_pos_exec(s, a + 1);
        if b >= n {
            return Err(String::from_str("Invalid predicate format"));
        }
        let f = s.substring_char(0, a);
        let opw = s.substring_char(a + 1, b);
        let v = s.substring_char(b + 1, n);
        if str_eq(f, "category") {
            Ok(Predicate::Category(String::from_str(v)))
        } else if str_eq(f, "status") {
            match TaskStatus::parse(v) {
                Ok(st) => Ok(Predicate::Status(st)),
                Err(e) => Err(e),
            }
        } else if str_eq(f, "date") {
            match parse_datetime(v) {
                Ok(d) => {
                    if str_eq(opw, "<") {
                        Ok(Predicate::DateBefore(d))
                    } else if str_eq(opw, ">") {
                        Ok(Predicate::DateAfter(d))
                    } else {
                        Err(String::from_str("Invalid date comparison operator"))
                    }
                },
                Err(e) => Err(e),
            }
        } else if str_eq(f, "description") {
            if str_eq(opw, "like") {
                Ok(Predicate::DescriptionContains(trim_quotes_exec(v)))
            } else {
                Err(String::from_str("Invalid description predicate"))
            }
        } else {
            Err(String::from_str("Unknown predicate type"))
        }
    }
}

impl core::str::FromStr for Predicate {
    type Err = String;

    fn from_str(s: &str) -> Result<Predicate, String> {
        Predicate::parse(s)
    }
}

pub proof fn lemma_run_end_value(s: Seq<char>, i: int, k: int)
    requires
        0 <= i <= k <= s.len(),
        forall|j: int| i <= j < k ==> is_word(#[trigger] s[j]),
        k < s.len() ==> !is_word(s[k]),
    ensures
        run_end(s, i) == k,
    decreases k - i,
{
    if i < k {
        lemma_run_end_value(s, i + 1, k);
    }
}

pub proof fn lemma_spaces_end_value(s: Seq<char>, i: int, k: int)
    requires
        0 <= i <= k <= s.len(),
        forall|j: int| i <= j < k ==> is_space(#[trigger] s[j]),
        k < s.len() ==> !is_space(s[k]),
    ensures
        spaces_end(s, i) == k,
    decreases k - i,
{
    if i < k {
        lemma_spaces_end_value(s, i + 1, k);
    }
}

pub proof fn lemma_quote_end_value(s: Seq<char>, i: int, k: int)
    requires
        0 <= i <= k < s.len(),
        forall|j: int| i <= j < k ==> #[trigger] s[j] != '"',
        s[k] == '"',
    ensures
        quote_end(s, i) == k,
    decreases k - i,
{
    if i < k {
        lemma_quote_end_value(s, i + 1, k);
    }
}

/// The canonical one-clause category query: `category = "x"`.
pub open spec fn category_query(x: Seq<char>) -> Seq<char> {
    seq!['c', 'a', 't', 'e', 'g', 'o', 'r', 'y', ' ', '=', ' ', '"'] + x + seq!['"']
}

/// The canonical one-clause description query: `description like "y"`.
pub open spec fn description_query(y: Seq<char>) -> Seq<char> {
    seq!['d', 'e', 's', 'c', 'r', 'i', 'p', 't', 'i', 'o', 'n', ' ', 'l', 'i', 'k', 'e', ' ', '"']
        + y + seq!['"']
}

/// A query `category = "x"` (for any quote-free `x`) parses to exactly the
/// one clause asking for category `x`, and filtering a task list with it
/// keeps exactly the tasks whose category equals `x`.
pub proof fn lemma_filter_by_category(ts: Seq<TaskView>, x: Seq<char>)
    requires
        forall|i: int| 0 <= i < x.len() ==> #[trigger] x[i] != '"',
    ensures
        spec_parse_predicates(category_query(x)) == Some(seq![PredView::Category(x)]),
        ts.filter(|t: TaskView| spec_matches_all(t, seq![PredView::Category(x)])) == ts.filter(
            |t: TaskView| t.category == x,
        ),
{
    let q = category_query(x);
    let n = q.len() as int;
    assert(n == 13 + x.len());
    assert(forall|j: int| 0 <= j < x.len() ==> q[12 + j] == #[trigger] x[j]);
    assert(q[12 + x.len() as int] == '"');
    lemma_run_end_value(q, 0, 8);
    lemma_spaces_end_value(q, 8, 9);
    assert(op_at(q, 9) == Some((CmpOp::Eq, 10int)));
    lemma_spaces_end_value(q, 10, 11);
    lemma_quote_end_value(q, 12, 12 + x.len() as int);
    assert(q.subrange(12, 12 + x.len() as int) =~= x);
    let att = attempt(q, 0, 8);
    assert(att is Some);
    let cl = (att->0).0;
    let e = (att->0).1;
    assert(cl == Clause { field: q.subrange(0, 8), op: CmpOp::Eq, value: x });
    assert(e == n);
    assert(scan(q, n) =~= Seq::<Clause>::empty());
    assert(scan(q, 0) =~= seq![cl]);
    reveal_strlit("category");
    reveal_strlit("status");
    reveal_strlit("date");
    reveal_strlit("description");
    assert(lower_seq(cl.field) =~= "category"@);
    assert(clause_to_pred(cl) == Some(PredView::Category(x)));
    assert(seq![cl].drop_first() =~= Seq::<Clause>::empty());
    assert(seq![PredView::Category(x)] + Seq::<PredView>::empty() =~= seq![
        PredView::Category(x),
    ]);
    assert(seq![cl][0] == cl);
    assert(clauses_to_preds(Seq::<Clause>::empty()) == Some(Seq::<PredView>::empty()));
    assert(clauses_to_preds(seq![cl]) == Some(seq![PredView::Category(x)]));
    let p1 = |t: TaskView| spec_matches_all(t, seq![PredView::Category(x)]);
    let p2 = |t: TaskView| t.category == x;
    assert forall|t: TaskView| #[trigger] p1(t) == p2(t) by {
        assert(seq![PredView::Category(x)][0] == PredView::Category(x));
        if p2(t) {
            assert forall|i: int| 0 <= i < 1 implies #[trigger] spec_matches(
                seq![PredView::Category(x)][i],
                t,
            ) by {
                assert(i == 0);
            }
        }
        if p1(t) {
            assert(spec_matches(seq![PredView::Category(x)][0], t));
        }
    }
    assert(p1 =~= p2);
}

/// A query `description like "y"` (for any quote-free `y`) parses to
/// exactly the one clause asking for descriptions containing `y`, and
/// filtering a task list with it keeps exactly the tasks whose description
/// holds `y` as a substring.
pub proof fn lemma_filter_by_description(ts: Seq<TaskView>, y: Seq<char>)
    requires
        forall|i: int| 0 <= i < y.len() ==> #[trigger] y[i] != '"',
    ensures
        spec_parse_predicates(description_query(y)) == Some(
            seq![PredView::DescriptionContains(y)],
        ),
        ts.filter(|t: TaskView| spec_matches_all(t, seq![PredView::DescriptionContains(y)]))
            == ts.filter(|t: TaskView| seq_contains(t.description, y)),
{
    let q = description_query(y);
    let n = q.len() as int;
    assert(n == 19 + y.len());
    assert(forall|j: int| 0 <= j < y.len() ==> q[18 + j] == #[trigger] y[j]);
    assert(q[18 + y.len() as int] == '"');
    lemma_run_end_value(q, 0, 11);
    lemma_spaces_end_value(q, 11, 12);
    assert(op_at(q, 12) == Some((CmpOp::Like, 16int)));
    lemma_spaces_end_value(q, 16, 17);
    lemma_quote_end_value(q, 18, 18 + y.len() as int);
    assert(q.subrange(18, 18 + y.len() as int) =~= y);
    let att = attempt(q, 0, 11);
    assert(att is Some);
    let cl = (att->0).0;
    let e = (att->0).1;
    assert(cl == Clause { field: q.subrange(0, 11), op: CmpOp::Like, value: y });
    assert(e == n);
    assert(scan(q, n) =~= Seq::<Clause>::empty());
    assert(scan(q, 0) =~= seq![cl]);
    reveal_strlit("category");
    reveal_strlit("status");
    reveal_strlit("date");
    reveal_strlit("description");
    assert(lower_seq(cl.field) =~= "description"@);
    assert(lower_seq(cl.field) != "category"@);
    assert(lower_seq(cl.field) != "status"@);
    assert(lower_seq(cl.field) != "date"@);
    assert(clause_to_pred(cl) == Some(PredView::DescriptionContains(y)));
    assert(seq![cl].drop_first() =~= Seq::<Clause>::empty());
    assert(seq![PredView::DescriptionContains(y)] + Seq::<PredView>::empty() =~= seq![
        PredView::DescriptionContains(y),
    ]);
    assert(seq![cl][0] == cl);
    assert(clauses_to_preds(Seq::<Clause>::empty()) == Some(Seq::<PredView>::empty()));
    assert(clauses_to_preds(seq![cl]) == Some(seq![PredView::DescriptionContains(y)]));
    let p1 = |t: TaskView| spec_matches_all(t, seq![PredView::DescriptionContains(y)]);
    let p2 = |t: TaskView| seq_contains(t.description, y);
    assert forall|t: TaskView| #[trigger] p1(t) == p2(t) by {
        assert(seq![PredView::DescriptionContains(y)][0] == PredView::DescriptionContains(y));
        if p2(t) {
            assert forall|i: int| 0 <= i < 1 implies #[trigger] spec_matches(
                seq![PredView::DescriptionContains(y)][i],
                t,
            ) by {
                assert(i == 0);
            }
        }
        if p1(t) {
            assert(spec_matches(seq![PredView::DescriptionContains(y)][0], t));
        }
    }
    assert(p1 =~= p2);
}

} // verus!
