//! Asking a NUT server for the variables of a UPS.

use vstd::prelude::*;
use crate::nut::{parse_var_line, NutVariables, SnapshotModel};
use crate::nut;
use crate::percentage::PercentageModel;
use crate::split::starts_with;
use crate::split;
use crate::text::{join2, same_text};
use crate::text;

verus! {

/// The command that asks for the variables of a UPS.
pub fn list_command(ups_name: &str) -> (command: String)
    ensures
        command@ == "LIST VAR "@ + ups_name@,
{
    join2("LIST VAR ", ups_name)
}

/// The first line of an answer.
pub open spec fn begin_line(ups_name: Seq<char>) -> Seq<char> {
    "BEGIN LIST VAR "@ + ups_name
}

/// The last line of an answer.
pub open spec fn end_line(ups_name: Seq<char>) -> Seq<char> {
    "END LIST VAR "@ + ups_name
}

/// What a line of an answer leads to.
#[derive(Debug)]
pub enum QueryStep {
    /// There is more to read.
    ReadLine,
    /// The answer is complete.
    Complete,
    /// The answer is of no use.
    Failed(String),
}

/// What a line leads to, with texts as characters.
pub enum QueryStepModel {
    ReadLine,
    Complete,
    Failed(Seq<char>),
}

impl View for QueryStep {
    type V = QueryStepModel;

    open spec fn view(&self) -> QueryStepModel {
        match *self {
            QueryStep::ReadLine => QueryStepModel::ReadLine,
            QueryStep::Complete => QueryStepModel::Complete,
            QueryStep::Failed(message) => QueryStepModel::Failed(message@),
        }
    }
}

/// An answer as far as it was read.
#[derive(Debug)]
pub struct SnapshotQuery {
    pub ups_name: String,
    /// Whether the first line was read.
    pub begun: bool,
    pub variables: NutVariables,
}

/// An answer as far as it was read, with texts as characters.
pub struct QueryModel {
    pub ups_name: Seq<char>,
    pub begun: bool,
    pub variables: Map<Seq<char>, Seq<char>>,
}

impl View for SnapshotQuery {
    type V = QueryModel;

    open spec fn view(&self) -> QueryModel {
        QueryModel {
            ups_name: self.ups_name@,
            begun: self.begun,
            variables: self.variables@,
        }
    }
}

impl QueryModel {
    /// What the next line leads to.
    pub open spec fn step(self, line: Seq<char>) -> QueryStepModel {
        if !self.begun {
            if line == begin_line(self.ups_name) {
                QueryStepModel::ReadLine
            } else {
                QueryStepModel::Failed("unexpected NUT response: "@ + line)
            }
        } else if line == end_line(self.ups_name) {
            QueryStepModel::Complete
        } else if split::begins_with(line, "ERR "@) {
            QueryStepModel::Failed("NUT server returned: "@ + line)
        } else {
            match nut::var_line(line, self.ups_name) {
                Ok(_) => QueryStepModel::ReadLine,
                Err(message) => QueryStepModel::Failed(message),
            }
        }
    }

    /// The answer with the next line in it. The first line begins it; a line after
    /// it that is read on over may set a variable.
    pub open spec fn with(self, line: Seq<char>) -> QueryModel {
        if !self.begun {
            QueryModel { begun: line == begin_line(self.ups_name), ..self }
        } else if self.step(line) is ReadLine {
            QueryModel { variables: assigned(self.variables, line, self.ups_name), ..self }
        } else {
            self
        }
    }
}

/// Variables with the one that a line sets for the UPS.
pub open spec fn assigned(
    variables: Map<Seq<char>, Seq<char>>,
    line: Seq<char>,
    ups_name: Seq<char>,
) -> Map<Seq<char>, Seq<char>> {
    match nut::var_line(line, ups_name) {
        Ok(Some(variable)) => variables.insert(variable.0, variable.1),
        _ => variables,
    }
}

impl SnapshotQuery {
    /// An answer of which nothing was read yet.
    pub fn new(ups_name: &str) -> (query: Self)
        ensures
            query@ == (QueryModel {
                ups_name: ups_name@,
                begun: false,
                variables: Map::empty(),
            }),
            query.variables.wf(),
    {
        SnapshotQuery {
            ups_name: ups_name.to_owned(),
            begun: false,
            variables: NutVariables::new(),
        }
    }

    /// Takes the next line of the answer.
    pub fn take_line(&mut self, line: &str) -> (step: QueryStep)
        ensures
            step@ == old(self)@.step(line@),
            final(self)@ == old(self)@.with(line@),
            old(self).variables.wf() ==> final(self).variables.wf(),
    {
        if !self.begun {
            let begin = join2("BEGIN LIST VAR ", self.ups_name.as_str());
            if same_text(line, begin.as_str()) {
                self.begun = true;
                return QueryStep::ReadLine;
            }
            return QueryStep::Failed(join2("unexpected NUT response: ", line));
        }
        let end = join2("END LIST VAR ", self.ups_name.as_str());
        if same_text(line, end.as_str()) {
            return QueryStep::Complete;
        }
        if starts_with(line, "ERR ") {
            return QueryStep::Failed(join2("NUT server returned: ", line));
        }
        match parse_var_line(line, self.ups_name.as_str()) {
            Ok(Some(variable)) => {
                self.variables.insert(variable.0, variable.1);
                QueryStep::ReadLine
            },
            Ok(None) => QueryStep::ReadLine,
            Err(message) => QueryStep::Failed(message),
        }
    }
}

// ---------------------------------------------------------------------------
// Whole answers
// ---------------------------------------------------------------------------

/// What lines make up when they are read one by one: variables or a complaint, or
/// nothing as long as more is to be read.
pub open spec fn query_run(query: QueryModel, lines: Seq<Seq<char>>) -> Option<
    Result<Map<Seq<char>, Seq<char>>, Seq<char>>,
>
    decreases lines.len(),
{
    if lines.len() == 0 {
        None
    } else {
        match query.step(lines[0]) {
            QueryStepModel::ReadLine => query_run(query.with(lines[0]), lines.skip(1)),
            QueryStepModel::Complete => Some(Ok(query.variables)),
            QueryStepModel::Failed(message) => Some(Err(message)),
        }
    }
}

/// What lines make up for a UPS, from the first one on.
pub open spec fn answer(ups_name: Seq<char>, lines: Seq<Seq<char>>) -> Option<
    Result<Map<Seq<char>, Seq<char>>, Seq<char>>,
> {
    query_run(QueryModel { ups_name, begun: false, variables: Map::empty() }, lines)
}

/// Variables with those that lines set for a UPS, the later ones counting.
pub open spec fn all_assigned(
    variables: Map<Seq<char>, Seq<char>>,
    lines: Seq<Seq<char>>,
    ups_name: Seq<char>,
) -> Map<Seq<char>, Seq<char>>
    decreases lines.len(),
{
    if lines.len() == 0 {
        variables
    } else {
        all_assigned(assigned(variables, lines[0], ups_name), lines.skip(1), ups_name)
    }
}

/// Whether a line may stand between the first and the last line of an answer.
pub open spec fn is_body_line(line: Seq<char>, ups_name: Seq<char>) -> bool {
    &&& line != "END LIST VAR "@ + ups_name
    &&& line.len() < 4 || line.take(4) != "ERR "@
    &&& nut::var_line(line, ups_name) is Ok
}

proof fn lemma_body(query: QueryModel, body: Seq<Seq<char>>)
    requires
        query.begun,
        forall|i: int| 0 <= i < body.len() ==> is_body_line(#[trigger] body[i], query.ups_name),
    ensures
        query_run(query, body + seq![end_line(query.ups_name)]) == Some(
            Ok::<Map<Seq<char>, Seq<char>>, Seq<char>>(
                all_assigned(query.variables, body, query.ups_name),
            ),
        ),
    decreases body.len(),
{
    let lines = body + seq![end_line(query.ups_name)];
    reveal_strlit("ERR ");
    if body.len() > 0 {
        assert(is_body_line(body[0], query.ups_name));
        let rest = body.skip(1);
        assert forall|i: int| 0 <= i < rest.len() implies is_body_line(
            #[trigger] rest[i],
            query.ups_name,
        ) by {
            assert(is_body_line(body[i + 1], query.ups_name));
        }
        lemma_body(query.with(body[0]), rest);
        assert(lines.skip(1) == rest + seq![end_line(query.ups_name)]);
    }
}

/// A complete answer gives every variable that its lines set for the UPS.
pub proof fn lemma_complete_answer(ups_name: Seq<char>, body: Seq<Seq<char>>)
    requires
        forall|i: int| 0 <= i < body.len() ==> is_body_line(#[trigger] body[i], ups_name),
    ensures
        answer(
            ups_name,
            seq!["BEGIN LIST VAR "@ + ups_name] + body + seq!["END LIST VAR "@ + ups_name],
        ) == Some(
            Ok::<Map<Seq<char>, Seq<char>>, Seq<char>>(
                all_assigned(Map::empty(), body, ups_name),
            ),
        ),
{
    let query = QueryModel { ups_name, begun: false, variables: Map::empty() };
    let lines = seq![begin_line(ups_name)] + body + seq![end_line(ups_name)];
    lemma_body(query.with(begin_line(ups_name)), body);
    assert(lines.skip(1) == body + seq![end_line(ups_name)]);
}

proof fn lemma_run_needs_end(query: QueryModel, lines: Seq<Seq<char>>)
    requires
        forall|i: int| 0 <= i < lines.len() ==> #[trigger] lines[i] != end_line(query.ups_name),
    ensures
        query_run(query, lines) matches Some(result) ==> result is Err,
    decreases lines.len(),
{
    if lines.len() > 0 {
        assert(lines[0] != end_line(query.ups_name));
        let rest = lines.skip(1);
        assert forall|i: int| 0 <= i < rest.len() implies #[trigger] rest[i] != end_line(
            query.ups_name,
        ) by {
            assert(lines[i + 1] != end_line(query.ups_name));
        }
        lemma_run_needs_end(query.with(lines[0]), rest);
    }
}

/// An answer without its last line gives no variables, however long it is.
pub proof fn lemma_incomplete_answer(ups_name: Seq<char>, lines: Seq<Seq<char>>)
    requires
        forall|i: int| 0 <= i < lines.len() ==> #[trigger] lines[i] != "END LIST VAR "@ + ups_name,
    ensures
        answer(ups_name, lines) matches Some(result) ==> result is Err,
{
    lemma_run_needs_end(QueryModel { ups_name, begun: false, variables: Map::empty() }, lines);
}

/// An answer that does not begin as it should is refused at its first line, and
/// nothing after that line is looked at.
pub proof fn lemma_refused_answer(ups_name: Seq<char>, lines: Seq<Seq<char>>)
    requires
        lines.len() > 0,
        lines[0] != "BEGIN LIST VAR "@ + ups_name,
    ensures
        answer(ups_name, lines) == Some(
            Err::<Map<Seq<char>, Seq<char>>, Seq<char>>("unexpected NUT response: "@ + lines[0]),
        ),
{
}

/// The snapshot that lines make up, or a complaint, or nothing as long as more is to
/// be read. `charge` is the number that the variable `battery.charge` was read as.
pub open spec fn status_query(
    ups_name: Seq<char>,
    lines: Seq<Seq<char>>,
    charge: Option<PercentageModel>,
) -> Option<Result<SnapshotModel, Seq<char>>> {
    match answer(ups_name, lines) {
        None => None,
        Some(Err(message)) => Some(Err(message)),
        Some(Ok(variables)) => Some(nut::snapshot(variables, charge)),
    }
}

/// Whether the last line of an answer stands at `n`, and only lines of its body
/// before it.
pub open spec fn ends_at(lines: Seq<Seq<char>>, n: int, ups_name: Seq<char>) -> bool {
    &&& 0 <= n < lines.len()
    &&& lines[n] == "END LIST VAR "@ + ups_name
    &&& forall|i: int| 0 <= i < n ==> is_body_line(#[trigger] lines[i], ups_name)
}

/// Where the last line of an answer that was accepted stands.
proof fn lemma_accepted_body(query: QueryModel, lines: Seq<Seq<char>>) -> (n: int)
    requires
        query.begun,
        query_run(query, lines) is Some,
        query_run(query, lines)->0 is Ok,
    ensures
        ends_at(lines, n, query.ups_name),
        query_run(query, lines)->0->Ok_0 == all_assigned(
            query.variables,
            lines.take(n),
            query.ups_name,
        ),
    decreases lines.len(),
{
    reveal_strlit("ERR ");
    if lines[0] == end_line(query.ups_name) {
        assert(lines.take(0) == Seq::<Seq<char>>::empty());
        0
    } else {
        let rest = lines.skip(1);
        let n = lemma_accepted_body(query.with(lines[0]), rest);
        assert forall|i: int| 0 <= i < n + 1 implies is_body_line(
            #[trigger] lines[i],
            query.ups_name,
        ) by {
            if i > 0 {
                assert(is_body_line(rest[i - 1], query.ups_name));
            }
        }
        assert(lines.take(n + 1).skip(1) == rest.take(n));
        n + 1
    }
}

/// A query succeeds only with an answer that is complete and tells the status of the
/// UPS: its first line, then lines that can all be read and of which none is an
/// error, then its last line. The variables are those that the lines between set.
pub proof fn lemma_only_complete_answers_succeed(
    ups_name: Seq<char>,
    lines: Seq<Seq<char>>,
    charge: Option<PercentageModel>,
)
    requires
        status_query(ups_name, lines, charge) is Some,
        status_query(ups_name, lines, charge)->0 is Ok,
    ensures
        lines.len() > 0 && lines[0] == "BEGIN LIST VAR "@ + ups_name,
        exists|n: int| #[trigger]
            ends_at(lines.skip(1), n, ups_name) && answer(ups_name, lines) == Some(
                Ok::<Map<Seq<char>, Seq<char>>, Seq<char>>(
                    all_assigned(Map::empty(), lines.skip(1).take(n), ups_name),
                ),
            ),
        answer(ups_name, lines)->0->Ok_0.contains_key("ups.status"@),
{
    let query = QueryModel { ups_name, begun: false, variables: Map::empty() };
    let n = lemma_accepted_body(query.with(lines[0]), lines.skip(1));
    assert(ends_at(lines.skip(1), n, ups_name));
}

// ---------------------------------------------------------------------------
// What answers come to
// ---------------------------------------------------------------------------

/// Whether a line is read as a variable of that name for the UPS.
pub open spec fn sets(line: Seq<char>, ups_name: Seq<char>, name: Seq<char>) -> bool {
    nut::var_line(line, ups_name) matches Ok(Some(variable)) && variable.0 == name
}

/// Whether the line at `at` is the last one that sets a variable of that name.
pub open spec fn is_last_setting(
    lines: Seq<Seq<char>>,
    ups_name: Seq<char>,
    name: Seq<char>,
    at: int,
) -> bool {
    &&& 0 <= at < lines.len()
    &&& sets(lines[at], ups_name, name)
    &&& forall|i: int| at < i < lines.len() ==> !sets(#[trigger] lines[i], ups_name, name)
}

/// Either no line sets the name, or there is a last one that does.
proof fn lemma_last_setting(lines: Seq<Seq<char>>, ups_name: Seq<char>, name: Seq<char>)
    ensures
        (exists|i: int| 0 <= i < lines.len() && sets(#[trigger] lines[i], ups_name, name))
            ==> exists|at: int| is_last_setting(lines, ups_name, name, at),
    decreases lines.len(),
{
    if lines.len() > 0 {
        let last = lines.len() - 1;
        if sets(lines[last], ups_name, name) {
            assert(is_last_setting(lines, ups_name, name, last));
        } else {
            let shorter = lines.drop_last();
            lemma_last_setting(shorter, ups_name, name);
            if exists|i: int| 0 <= i < lines.len() && sets(#[trigger] lines[i], ups_name, name) {
                let i = choose|i: int|
                    0 <= i < lines.len() && sets(#[trigger] lines[i], ups_name, name);
                assert(sets(shorter[i], ups_name, name));
                let at = choose|at: int| is_last_setting(shorter, ups_name, name, at);
                assert forall|i: int| at < i < lines.len() implies !sets(
                    #[trigger] lines[i],
                    ups_name,
                    name,
                ) by {
                    if i < last {
                        assert(!sets(shorter[i], ups_name, name));
                    }
                }
                assert(is_last_setting(lines, ups_name, name, at));
            }
        }
    }
}

proof fn lemma_settings_count(
    variables: Map<Seq<char>, Seq<char>>,
    lines: Seq<Seq<char>>,
    ups_name: Seq<char>,
    name: Seq<char>,
)
    ensures
        forall|at: int| #[trigger]
            is_last_setting(lines, ups_name, name, at) ==> {
                let variable = nut::var_line(lines[at], ups_name)->Ok_0->0;
                let found = all_assigned(variables, lines, ups_name);
                found.contains_key(name) && found[name] == variable.1
            },
        (forall|i: int| 0 <= i < lines.len() ==> !sets(#[trigger] lines[i], ups_name, name)) ==> {
            let found = all_assigned(variables, lines, ups_name);
            &&& found.contains_key(name) <==> variables.contains_key(name)
            &&& variables.contains_key(name) ==> found[name] == variables[name]
        },
    decreases lines.len(),
{
    if lines.len() > 0 {
        let rest = lines.skip(1);
        let first = assigned(variables, lines[0], ups_name);
        lemma_settings_count(first, rest, ups_name, name);
        assert forall|at: int| #[trigger] is_last_setting(lines, ups_name, name, at) implies ({
            let variable = nut::var_line(lines[at], ups_name)->Ok_0->0;
            let found = all_assigned(variables, lines, ups_name);
            found.contains_key(name) && found[name] == variable.1
        }) by {
            assert forall|i: int| at - 1 < i < rest.len() && 0 <= i implies !sets(
                #[trigger] rest[i],
                ups_name,
                name,
            ) by {
                assert(!sets(lines[i + 1], ups_name, name));
            }
            if at > 0 {
                assert(rest[at - 1] == lines[at]);
                assert(is_last_setting(rest, ups_name, name, at - 1));
            }
        }
        if forall|i: int| 0 <= i < lines.len() ==> !sets(#[trigger] lines[i], ups_name, name) {
            assert(!sets(lines[0], ups_name, name));
            assert forall|i: int| 0 <= i < rest.len() implies !sets(
                #[trigger] rest[i],
                ups_name,
                name,
            ) by {
                assert(!sets(lines[i + 1], ups_name, name));
            }
        }
    }
}

proof fn lemma_run_reads_body(query: QueryModel, lines: Seq<Seq<char>>, n: int)
    requires
        query.begun,
        ends_at(lines, n, query.ups_name),
    ensures
        query_run(query, lines) == Some(
            Ok::<Map<Seq<char>, Seq<char>>, Seq<char>>(
                all_assigned(query.variables, lines.take(n), query.ups_name),
            ),
        ),
    decreases n,
{
    reveal_strlit("ERR ");
    if n > 0 {
        assert(is_body_line(lines[0], query.ups_name));
        let rest = lines.skip(1);
        assert forall|i: int| 0 <= i < n - 1 implies is_body_line(
            #[trigger] rest[i],
            query.ups_name,
        ) by {
            assert(is_body_line(lines[i + 1], query.ups_name));
        }
        lemma_run_reads_body(query.with(lines[0]), rest, n - 1);
        assert(lines.take(n).skip(1) == rest.take(n - 1));
    } else {
        assert(lines.take(0) == Seq::<Seq<char>>::empty());
    }
}

/// A complete answer is accepted, whatever follows it, and of a variable of each name it
/// gives the value of the last line that sets one, and nothing where no line does: no
/// line is left out, whichever variable it sets, and nothing is added.
pub proof fn lemma_answer_gives_every_variable(
    ups_name: Seq<char>,
    lines: Seq<Seq<char>>,
    n: int,
    name: Seq<char>,
)
    requires
        lines.len() > 0,
        lines[0] == "BEGIN LIST VAR "@ + ups_name,
        ends_at(lines.skip(1), n, ups_name),
    ensures
        answer(ups_name, lines) is Some,
        answer(ups_name, lines)->0 is Ok,
        answer(ups_name, lines)->0->Ok_0.contains_key(name) <==> exists|i: int|
            0 <= i < n && sets(#[trigger] lines.skip(1)[i], ups_name, name),
        forall|at: int| #[trigger]
            is_last_setting(lines.skip(1).take(n), ups_name, name, at) ==> nut::var_line(
                lines.skip(1)[at],
                ups_name,
            ) == Ok::<Option<(Seq<char>, Seq<char>)>, Seq<char>>(
                Some((name, answer(ups_name, lines)->0->Ok_0[name])),
            ),
{
    let query = QueryModel { ups_name, begun: false, variables: Map::empty() };
    let body = lines.skip(1).take(n);
    lemma_run_reads_body(query.with(lines[0]), lines.skip(1), n);
    lemma_settings_count(Map::empty(), body, ups_name, name);
    lemma_last_setting(body, ups_name, name);
    if exists|i: int| 0 <= i < n && sets(#[trigger] lines.skip(1)[i], ups_name, name) {
        let i = choose|i: int| 0 <= i < n && sets(#[trigger] lines.skip(1)[i], ups_name, name);
        assert(sets(body[i], ups_name, name));
    } else {
        assert forall|i: int| 0 <= i < body.len() implies !sets(
            #[trigger] body[i],
            ups_name,
            name,
        ) by {
            assert(!sets(lines.skip(1)[i], ups_name, name));
        }
    }
}

/// The time left that an answer tells in one of its lines, and no later one, is that of
/// the snapshot, whatever else it tells.
pub proof fn lemma_runtime_is_read_from_answer(
    ups_name: Seq<char>,
    lines: Seq<Seq<char>>,
    n: int,
    at: int,
    seconds: u64,
    charge: Option<PercentageModel>,
)
    requires
        lines.len() > 0,
        lines[0] == "BEGIN LIST VAR "@ + ups_name,
        ends_at(lines.skip(1), n, ups_name),
        forall|i: int| 0 <= i < ups_name.len() ==> #[trigger] ups_name[i] != ' ',
        exists|i: int| 0 <= i < n && sets(#[trigger] lines.skip(1)[i], ups_name, "ups.status"@),
        0 <= at < n,
        lines.skip(1)[at] == "VAR "@ + ups_name + " "@ + "battery.runtime"@ + " "@ + nut::quoted(
            text::decimal(seconds as nat),
        ),
        forall|i: int|
            at < i < n ==> !sets(#[trigger] lines.skip(1)[i], ups_name, "battery.runtime"@),
    ensures
        status_query(ups_name, lines, charge) is Some,
        status_query(ups_name, lines, charge)->0 is Ok,
        status_query(ups_name, lines, charge)->0->Ok_0.battery_runtime == Some(seconds),
{
    let body = lines.skip(1).take(n);
    let name = "battery.runtime"@;
    reveal_strlit("battery.runtime");
    nut::lemma_variable_is_read_back(ups_name, name, text::decimal(seconds as nat));
    lemma_answer_gives_every_variable(ups_name, lines, n, "ups.status"@);
    lemma_answer_gives_every_variable(ups_name, lines, n, name);
    assert forall|i: int| at < i < body.len() implies !sets(#[trigger] body[i], ups_name, name) by {
        assert(!sets(lines.skip(1)[i], ups_name, name));
    }
    assert(is_last_setting(body, ups_name, name, at));
    let values = answer(ups_name, lines)->0->Ok_0;
    assert(values[name] == text::decimal(seconds as nat));
    text::lemma_numeral_is_read_back(seconds as nat, 0, u64::MAX as int);
    assert(values.contains_key(name)) by {
        assert(sets(lines.skip(1)[at], ups_name, name));
    }
    nut::lemma_snapshot(values, charge, name, seconds);
}

proof fn lemma_run_fails(query: QueryModel, lines: Seq<Seq<char>>, n: int)
    requires
        query.begun,
        0 <= n < lines.len(),
        forall|i: int| 0 <= i < n ==> is_body_line(#[trigger] lines[i], query.ups_name),
        lines[n] != "END LIST VAR "@ + query.ups_name,
    ensures
        lines[n].len() >= 4 && lines[n].take(4) == "ERR "@ ==> query_run(query, lines) == Some(
            Err::<Map<Seq<char>, Seq<char>>, Seq<char>>("NUT server returned: "@ + lines[n]),
        ),
        !(lines[n].len() >= 4 && lines[n].take(4) == "ERR "@) && nut::var_line(
            lines[n],
            query.ups_name,
        ) is Err ==> query_run(query, lines) == Some(
            Err::<Map<Seq<char>, Seq<char>>, Seq<char>>(
                nut::var_line(lines[n], query.ups_name)->Err_0,
            ),
        ),
    decreases n,
{
    reveal_strlit("ERR ");
    if n > 0 {
        assert(is_body_line(lines[0], query.ups_name));
        let rest = lines.skip(1);
        assert forall|i: int| 0 <= i < n - 1 implies is_body_line(
            #[trigger] rest[i],
            query.ups_name,
        ) by {
            assert(is_body_line(lines[i + 1], query.ups_name));
        }
        assert(rest[n - 1] == lines[n]);
        lemma_run_fails(query.with(lines[0]), rest, n - 1);
    }
}

/// An error that the server reports in the middle of its answer, or a line that cannot
/// be read, makes the whole answer a failure, and is what the complaint is about.
pub proof fn lemma_failing_line(ups_name: Seq<char>, lines: Seq<Seq<char>>, n: int)
    requires
        lines.len() > 0,
        lines[0] == "BEGIN LIST VAR "@ + ups_name,
        1 <= n < lines.len(),
        forall|i: int| 1 <= i < n ==> is_body_line(#[trigger] lines[i], ups_name),
        lines[n] != "END LIST VAR "@ + ups_name,
    ensures
        lines[n].len() >= 4 && lines[n].take(4) == "ERR "@ ==> answer(ups_name, lines) == Some(
            Err::<Map<Seq<char>, Seq<char>>, Seq<char>>("NUT server returned: "@ + lines[n]),
        ),
        !(lines[n].len() >= 4 && lines[n].take(4) == "ERR "@) && nut::var_line(
            lines[n],
            ups_name,
        ) is Err ==> answer(ups_name, lines) == Some(
            Err::<Map<Seq<char>, Seq<char>>, Seq<char>>(nut::var_line(lines[n], ups_name)->Err_0),
        ),
{
    let query = QueryModel { ups_name, begun: false, variables: Map::empty() };
    let rest = lines.skip(1);
    assert forall|i: int| 0 <= i < n - 1 implies is_body_line(#[trigger] rest[i], ups_name) by {
        assert(is_body_line(lines[i + 1], ups_name));
    }
    lemma_run_fails(query.with(lines[0]), rest, n - 1);
}

/// What a line leads to, and an answer as far as it was read, is what it holds.
pub proof fn lemma_query_is_what_it_holds(query: SnapshotQuery, step: QueryStep)
    ensures
        query@.ups_name == query.ups_name@,
        query@.begun == query.begun,
        query@.variables == query.variables@,
        match step {
            QueryStep::ReadLine => step@ is ReadLine,
            QueryStep::Complete => step@ is Complete,
            QueryStep::Failed(message) => step@ == QueryStepModel::Failed(message@),
        },
{
}

} // verus!
