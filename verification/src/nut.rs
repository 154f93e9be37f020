//! Lines of the NUT protocol and what they say about a UPS.

use vstd::prelude::*;
use crate::percentage::{Percentage, PercentageModel};
use crate::percentage;
use crate::split::{has_line_end, has_whitespace, split_pieces, split_words, starts_with};
use crate::split;
use crate::text::{chars_of, join2, parse_number, same_text};
use crate::text;

verus! {

// ---------------------------------------------------------------------------
// Variables by name
// ---------------------------------------------------------------------------

/// Variables with their values. No name occurs twice; a later value takes the
/// place of an earlier one.
#[derive(Debug)]
pub struct NutVariables {
    entries: Vec<(String, String)>,
}

/// The values by name, the last entry of a name counting.
pub closed spec fn entries_map(entries: Seq<(String, String)>) -> Map<Seq<char>, Seq<char>>
    decreases entries.len(),
{
    if entries.len() == 0 {
        Map::empty()
    } else {
        entries_map(entries.drop_last()).insert(entries.last().0@, entries.last().1@)
    }
}

proof fn lemma_entries_map_missing(entries: Seq<(String, String)>, name: Seq<char>)
    requires
        forall|i: int| 0 <= i < entries.len() ==> #[trigger] entries[i].0@ != name,
    ensures
        !entries_map(entries).contains_key(name),
    decreases entries.len(),
{
    if entries.len() > 0 {
        assert forall|i: int| 0 <= i < entries.drop_last().len() implies #[trigger]
            entries.drop_last()[i].0@ != name by {
            assert(entries[i].0@ != name);
        }
        lemma_entries_map_missing(entries.drop_last(), name);
        assert(entries[entries.len() - 1].0@ != name);
    }
}

proof fn lemma_entries_map_found(entries: Seq<(String, String)>, name: Seq<char>, at: int)
    requires
        0 <= at < entries.len(),
        entries[at].0@ == name,
        forall|i: int| at < i < entries.len() ==> #[trigger] entries[i].0@ != name,
    ensures
        entries_map(entries).contains_key(name),
        entries_map(entries)[name] == entries[at].1@,
    decreases entries.len(),
{
    if at < entries.len() - 1 {
        assert(entries[entries.len() - 1].0@ != name);
        assert forall|i: int| at < i < entries.drop_last().len() implies #[trigger]
            entries.drop_last()[i].0@ != name by {
            assert(entries[i].0@ != name);
        }
        lemma_entries_map_found(entries.drop_last(), name, at);
    }
}

proof fn lemma_entries_map_replaced(
    entries: Seq<(String, String)>,
    at: int,
    entry: (String, String),
)
    requires
        0 <= at < entries.len(),
        entries[at].0@ == entry.0@,
        forall|i: int| at < i < entries.len() ==> #[trigger] entries[i].0@ != entry.0@,
    ensures
        entries_map(entries.update(at, entry)) == entries_map(entries).insert(entry.0@, entry.1@),
    decreases entries.len(),
{
    let updated = entries.update(at, entry);
    if at < entries.len() - 1 {
        assert(entries[entries.len() - 1].0@ != entry.0@);
        assert forall|i: int| at < i < entries.drop_last().len() implies #[trigger]
            entries.drop_last()[i].0@ != entry.0@ by {
            assert(entries[i].0@ != entry.0@);
        }
        lemma_entries_map_replaced(entries.drop_last(), at, entry);
        assert(updated.drop_last() == entries.drop_last().update(at, entry));
        assert(updated.last() == entries.last());
        assert(entries_map(updated) =~= entries_map(entries).insert(entry.0@, entry.1@));
    } else {
        assert(updated.drop_last() == entries.drop_last());
        assert(entries_map(updated) =~= entries_map(entries).insert(entry.0@, entry.1@));
    }
}

impl View for NutVariables {
    type V = Map<Seq<char>, Seq<char>>;

    closed spec fn view(&self) -> Map<Seq<char>, Seq<char>> {
        entries_map(self.entries@)
    }
}

impl NutVariables {
    /// Whether every name occurs once.
    pub closed spec fn wf(self) -> bool {
        forall|i: int, j: int|
            0 <= i < j < self.entries@.len() ==> (#[trigger] self.entries@[i]).0@
                != (#[trigger] self.entries@[j]).0@
    }

    /// No variables.
    pub fn new() -> (variables: Self)
        ensures
            variables.wf(),
            variables@ == Map::<Seq<char>, Seq<char>>::empty(),
    {
        NutVariables { entries: Vec::new() }
    }

    /// The place of the last entry of a name, or the number of entries.
    fn position(&self, name: &str) -> (at: usize)
        ensures
            at <= self.entries@.len(),
            at < self.entries@.len() ==> self.entries@[at as int].0@ == name@ && forall|i: int|
                at < i < self.entries@.len() ==> (#[trigger] self.entries@[i]).0@ != name@,
            at == self.entries@.len() ==> forall|i: int|
                0 <= i < self.entries@.len() ==> (#[trigger] self.entries@[i]).0@ != name@,
    {
        let mut i: usize = self.entries.len();
        while i > 0
            invariant
                i <= self.entries@.len(),
                forall|k: int|
                    i <= k < self.entries@.len() ==> (#[trigger] self.entries@[k]).0@ != name@,
            decreases i,
        {
            i = i - 1;
            if same_text(self.entries[i].0.as_str(), name) {
                return i;
            }
        }
        self.entries.len()
    }

    /// Sets a variable.
    pub fn insert(&mut self, name: String, value: String)
        ensures
            final(self)@ == old(self)@.insert(name@, value@),
            old(self).wf() ==> final(self).wf(),
    {
        let at: usize = self.position(name.as_str());
        let entry = (name, value);
        if at < self.entries.len() {
            proof {
                lemma_entries_map_replaced(self.entries@, at as int, entry);
            }
            self.entries.set(at, entry);
        } else {
            let ghost before = self.entries@;
            self.entries.push(entry);
            assert(self.entries@.drop_last() == before);
        }
    }

    /// The value of a variable.
    pub fn get(&self, name: &str) -> (value: Option<&String>)
        ensures
            match value {
                Some(v) => self@.contains_key(name@) && v@ == self@[name@],
                None => !self@.contains_key(name@),
            },
    {
        let at: usize = self.position(name);
        if at < self.entries.len() {
            proof {
                lemma_entries_map_found(self.entries@, name@, at as int);
            }
            Some(&self.entries[at].1)
        } else {
            proof {
                lemma_entries_map_missing(self.entries@, name@);
            }
            None
        }
    }
}

// ---------------------------------------------------------------------------
// Status flags
// ---------------------------------------------------------------------------

/// The flags of a status. None occurs twice.
#[derive(Debug)]
pub struct StatusFlags {
    flags: Vec<String>,
}

impl View for StatusFlags {
    type V = Set<Seq<char>>;

    closed spec fn view(&self) -> Set<Seq<char>> {
        text::texts(self.flags@).to_set()
    }
}

impl StatusFlags {
    /// Whether every flag occurs once.
    pub closed spec fn wf(self) -> bool {
        text::texts(self.flags@).no_duplicates()
    }

    /// No flags.
    pub fn new() -> (status: Self)
        ensures
            status.wf(),
            status@ == Set::<Seq<char>>::empty(),
    {
        let status = StatusFlags { flags: Vec::new() };
        assert(status@ =~= Set::<Seq<char>>::empty());
        status
    }

    /// Whether a flag is set.
    pub fn contains(&self, flag: &str) -> (found: bool)
        ensures
            found == self@.contains(flag@),
    {
        let ghost list = text::texts(self.flags@);
        let mut i: usize = 0;
        while i < self.flags.len()
            invariant
                i <= self.flags@.len(),
                list == text::texts(self.flags@),
                forall|k: int| 0 <= k < i ==> #[trigger] list[k] != flag@,
            decreases self.flags@.len() - i,
        {
            assert(list[i as int] == self.flags@[i as int]@);
            if same_text(self.flags[i].as_str(), flag) {
                assert(list.contains(flag@));
                return true;
            }
            i = i + 1;
        }
        assert(!list.contains(flag@));
        false
    }

    /// Sets a flag.
    pub fn insert(&mut self, flag: String)
        ensures
            final(self)@ == old(self)@.insert(flag@),
            old(self).wf() ==> final(self).wf(),
    {
        if !self.contains(flag.as_str()) {
            let ghost before = text::texts(self.flags@);
            self.flags.push(flag);
            proof {
                let after = text::texts(self.flags@);
                assert(after == before.push(flag@));
                assert(after.to_set() =~= before.to_set().insert(flag@)) by {
                    assert forall|w: Seq<char>| after.contains(w) == before.to_set().insert(
                        flag@,
                    ).contains(w) by {
                        if before.contains(w) {
                            let k = choose|k: int| 0 <= k < before.len() && before[k] == w;
                            assert(after[k] == w);
                        }
                        assert(after[before.len() as int] == flag@);
                        if after.contains(w) && w != flag@ {
                            let k = choose|k: int| 0 <= k < after.len() && after[k] == w;
                            assert(before[k] == w);
                        }
                    }
                }
                assert(!before.contains(flag@));
                assert(before.no_duplicates() ==> after.no_duplicates());
            }
        } else {
            assert(self@ =~= self@.insert(flag@));
        }
    }

    /// The flags that are set.
    pub fn list(&self) -> (flags: &Vec<String>)
        ensures
            text::texts(flags@).to_set() == self@,
            self.wf() ==> text::texts(flags@).no_duplicates(),
    {
        &self.flags
    }
}

// ---------------------------------------------------------------------------
// Lines
// ---------------------------------------------------------------------------

/// What a quoted value holds: a backslash stands for the character after it. At
/// the end, where nothing is after it, it stands for nothing.
pub open spec fn unescaped(s: Seq<char>) -> Option<Seq<char>>
    decreases s.len(),
{
    if s.len() == 0 {
        Some(Seq::empty())
    } else if s[0] != '\\' {
        match unescaped(s.skip(1)) {
            Some(rest) => Some(seq![s[0]] + rest),
            None => None,
        }
    } else if s.len() == 1 {
        None
    } else {
        match unescaped(s.skip(2)) {
            Some(rest) => Some(seq![s[1]] + rest),
            None => None,
        }
    }
}

/// A value without its quotes. A value that is not in quotes is itself.
pub open spec fn unquoted(value: Seq<char>) -> Result<Seq<char>, Seq<char>> {
    if value.len() >= 2 && value.first() == '"' && value.last() == '"' {
        match unescaped(value.subrange(1, value.len() - 1)) {
            Some(result) => Ok(result),
            None => Err("invalid trailing escape in NUT value: "@ + value),
        }
    } else {
        Ok(value)
    }
}

/// Takes a value out of its quotes.
pub fn unquote_nut(value: &str) -> (result: Result<String, String>)
    ensures
        text::both_text(result) == unquoted(value@),
{
    let chars = chars_of(value);
    let length: usize = chars.len();
    if length < 2 || chars[0] != '"' || chars[length - 1] != '"' {
        return Ok(value.to_owned());
    }
    let ghost inner = value@.subrange(1, value@.len() - 1);
    let mut result = String::new();
    let mut escaped = false;
    let mut i: usize = 1;
    assert(inner.skip(0) == inner);
    proof {
        if unescaped(inner) is Some {
            assert(Seq::<char>::empty() + unescaped(inner)->0 == unescaped(inner)->0);
        }
    }
    while i < length - 1
        invariant
            2 <= length == chars@.len(),
            chars@ == value@,
            inner == value@.subrange(1, value@.len() - 1),
            1 <= i <= length - 1,
            escaped ==> i >= 2 && value@[i - 1] == '\\',
            // What is left to read makes up what is left of the result.
            unescaped(inner) == ({
                let rest = unescaped(
                    inner.skip(
                        if escaped {
                            i - 2
                        } else {
                            i - 1
                        },
                    ),
                );
                match rest {
                    Some(r) => Some(result@ + r),
                    None => None,
                }
            }),
        decreases length - i,
    {
        let character = chars[i];
        let ghost from: int = if escaped {
            i - 2
        } else {
            i - 1
        };
        let ghost rest = inner.skip(from);
        let ghost before = result@;
        assert(inner[i - 1] == character);
        assert(rest[0] == inner[from]);
        if escaped {
            result.push(character);
            escaped = false;
            assert(rest[1] == character);
            assert(rest.skip(2) == inner.skip(i as int));
            proof {
                if unescaped(inner.skip(i as int)) is Some {
                    let r = unescaped(inner.skip(i as int))->0;
                    assert(before + (seq![character] + r) == result@ + r);
                }
            }
        } else if character == '\\' {
            escaped = true;
        } else {
            result.push(character);
            assert(rest.skip(1) == inner.skip(i as int));
            proof {
                if unescaped(inner.skip(i as int)) is Some {
                    let r = unescaped(inner.skip(i as int))->0;
                    assert(before + (seq![character] + r) == result@ + r);
                }
            }
        }
        i = i + 1;
    }
    if escaped {
        let ghost rest = inner.skip(i - 2);
        assert(rest.len() == 1);
        assert(rest[0] == '\\');
        return Err(join2("invalid trailing escape in NUT value: ", value));
    }
    assert(inner.skip(i - 1) == Seq::<char>::empty());
    assert(result@ + Seq::<char>::empty() == result@);
    Ok(result)
}

/// The complaint about a line that should name a variable and does not.
pub open spec fn invalid_variable(line: Seq<char>) -> Seq<char> {
    "invalid NUT variable response: "@ + line
}

/// The variable that a line sets for a UPS: the word `VAR`, the UPS, the name and
/// the value, with one space between each. Other lines, and lines on another
/// UPS, set none.
pub open spec fn var_line(line: Seq<char>, ups_name: Seq<char>) -> Result<
    Option<(Seq<char>, Seq<char>)>,
    Seq<char>,
> {
    let fields = split::pieces(line, ' ', 4);
    if !split::begins_with(line, "VAR "@) {
        Ok(None)
    } else if fields.len() < 4 {
        Err(invalid_variable(line))
    } else if fields[1] != ups_name {
        Ok(None)
    } else {
        match unquoted(fields[3]) {
            Ok(value) => Ok(Some((fields[2], value))),
            Err(error) => Err(error),
        }
    }
}

/// The result of [`parse_var_line`] as characters.
pub open spec fn var_line_text(
    result: Result<Option<(String, String)>, String>,
) -> Result<Option<(Seq<char>, Seq<char>)>, Seq<char>> {
    match result {
        Ok(Some(variable)) => Ok(Some((variable.0@, variable.1@))),
        Ok(None) => Ok(None),
        Err(error) => Err(error@),
    }
}

/// Reads the variable that a line sets for a UPS.
pub fn parse_var_line(line: &str, ups_name: &str) -> (result: Result<
    Option<(String, String)>,
    String,
>)
    ensures
        var_line_text(result) == var_line(line@, ups_name@),
{
    if !starts_with(line, "VAR ") {
        return Ok(None);
    }
    let fields = split_pieces(line, ' ', 4);
    if fields.len() < 4 {
        return Err(join2("invalid NUT variable response: ", line));
    }
    assert(text::texts(fields@)[1] == fields@[1]@);
    assert(text::texts(fields@)[2] == fields@[2]@);
    assert(text::texts(fields@)[3] == fields@[3]@);
    if !same_text(fields[1].as_str(), ups_name) {
        return Ok(None);
    }
    match unquote_nut(fields[3].as_str()) {
        Ok(value) => Ok(Some((fields[2].clone(), value))),
        Err(error) => Err(error),
    }
}

/// A text as it stands between quotes: with a backslash in front of each quote
/// and of each backslash.
pub open spec fn escaped(s: Seq<char>) -> Seq<char>
    decreases s.len(),
{
    if s.len() == 0 {
        Seq::empty()
    } else if s[0] == '"' || s[0] == '\\' {
        seq!['\\', s[0]] + escaped(s.skip(1))
    } else {
        seq![s[0]] + escaped(s.skip(1))
    }
}

/// A text in quotes.
pub open spec fn quoted(s: Seq<char>) -> Seq<char> {
    seq!['"'] + escaped(s) + seq!['"']
}

proof fn lemma_unescaped(s: Seq<char>)
    ensures
        unescaped(escaped(s)) == Some(s),
    decreases s.len(),
{
    if s.len() > 0 {
        lemma_unescaped(s.skip(1));
        let rest = escaped(s.skip(1));
        if s[0] == '"' || s[0] == '\\' {
            assert(escaped(s).skip(2) == rest);
        } else {
            assert(escaped(s).skip(1) == rest);
        }
        assert(seq![s[0]] + s.skip(1) == s);
    } else {
        assert(s == Seq::<char>::empty());
    }
}

/// Every text comes out of its quotes as it went in.
pub proof fn lemma_unquoted(s: Seq<char>)
    ensures
        unquoted(quoted(s)) == Ok::<Seq<char>, Seq<char>>(s),
{
    lemma_unescaped(s);
    let value = quoted(s);
    assert(value.subrange(1, value.len() - 1) == escaped(s));
}

/// A line that sets a variable of a UPS is read as that variable, whatever the
/// value is, as long as neither the name of the UPS nor that of the variable
/// holds a space.
pub proof fn lemma_variable_is_read_back(ups_name: Seq<char>, name: Seq<char>, value: Seq<char>)
    requires
        forall|i: int| 0 <= i < ups_name.len() ==> #[trigger] ups_name[i] != ' ',
        forall|i: int| 0 <= i < name.len() ==> #[trigger] name[i] != ' ',
    ensures
        var_line("VAR "@ + ups_name + " "@ + name + " "@ + quoted(value), ups_name) == Ok::<
            Option<(Seq<char>, Seq<char>)>,
            Seq<char>,
        >(Some((name, value))),
{
    reveal_strlit("VAR ");
    reveal_strlit(" ");
    let line = "VAR "@ + ups_name + " "@ + name + " "@ + quoted(value);
    let behind_name = quoted(value);
    let behind_ups = name + seq![' '] + behind_name;
    let behind_var = ups_name + seq![' '] + behind_ups;
    let var = seq!['V', 'A', 'R'];
    assert(" "@ == seq![' ']);
    assert(line == var + seq![' '] + behind_var);
    assert(line.take(4) == "VAR "@);
    split::lemma_first_piece(var, behind_var, ' ', 4);
    split::lemma_first_piece(ups_name, behind_ups, ' ', 3);
    split::lemma_first_piece(name, behind_name, ' ', 2);
    assert(split::pieces(behind_name, ' ', 1) == seq![behind_name]);
    assert(split::pieces(line, ' ', 4) == seq![var, ups_name, name, behind_name]);
    lemma_unquoted(value);
}

// ---------------------------------------------------------------------------
// Snapshots
// ---------------------------------------------------------------------------

/// What a UPS said about itself.
#[derive(Debug)]
pub struct UpsSnapshot {
    pub status: StatusFlags,
    pub battery_runtime: Option<u64>,
    pub battery_charge: Option<Percentage>,
}

/// What a UPS said about itself, with texts as characters.
pub struct SnapshotModel {
    pub status: Set<Seq<char>>,
    pub battery_runtime: Option<u64>,
    pub battery_charge: Option<PercentageModel>,
}

impl View for UpsSnapshot {
    type V = SnapshotModel;

    open spec fn view(&self) -> SnapshotModel {
        SnapshotModel {
            status: self.status@,
            battery_runtime: self.battery_runtime,
            battery_charge: percentage::opt_percentage(self.battery_charge),
        }
    }
}

/// The number that a text stands for, or nothing where it stands for none.
pub open spec fn read_u64(value: Option<Seq<char>>) -> Option<u64> {
    match value {
        Some(raw) => match text::number(raw, u64::MAX as int) {
            Ok(n) => Some(n as u64),
            Err(_) => None,
        },
        None => None,
    }
}

/// The value of a variable, where it is set.
pub open spec fn lookup(values: Map<Seq<char>, Seq<char>>, name: Seq<char>) -> Option<Seq<char>> {
    if values.contains_key(name) {
        Some(values[name])
    } else {
        None
    }
}

/// Reads a number.
pub fn parse_u64(value: Option<&String>) -> (number: Option<u64>)
    ensures
        number == read_u64(
            match value {
                Some(raw) => Some(raw@),
                None => None,
            },
        ),
{
    match value {
        Some(raw) => match parse_number(raw.as_str(), u64::MAX) {
            Ok(number) => Some(number),
            Err(_) => None,
        },
        None => None,
    }
}

/// The snapshot that variables make up. `charge` is the number that the variable
/// `battery.charge` was read as, and counts where there is such a variable.
pub open spec fn snapshot(
    values: Map<Seq<char>, Seq<char>>,
    charge: Option<PercentageModel>,
) -> Result<SnapshotModel, Seq<char>> {
    match lookup(values, "ups.status"@) {
        None => Err("missing ups.status in NUT response"@),
        Some(status) => Ok(
            SnapshotModel {
                status: split::words(status).to_set(),
                battery_runtime: read_u64(lookup(values, "battery.runtime"@)),
                battery_charge: if values.contains_key("battery.charge"@) {
                    charge
                } else {
                    None
                },
            },
        ),
    }
}

/// The result of [`parse_snapshot`] as its model.
pub open spec fn snapshot_text(result: Result<UpsSnapshot, String>) -> Result<
    SnapshotModel,
    Seq<char>,
> {
    match result {
        Ok(snapshot) => Ok(snapshot@),
        Err(error) => Err(error@),
    }
}

/// Makes up a snapshot from variables. `charge` is the number that the variable
/// `battery.charge` was read as.
pub fn parse_snapshot(values: &NutVariables, charge: Option<Percentage>) -> (result: Result<
    UpsSnapshot,
    String,
>)
    ensures
        snapshot_text(result) == snapshot(values@, percentage::opt_percentage(charge)),
        result matches Ok(snapshot) ==> snapshot.status.wf(),
{
    let status_raw = match values.get("ups.status") {
        Some(status) => status,
        None => return Err("missing ups.status in NUT response".to_owned()),
    };
    let words = split_words(status_raw.as_str());
    let mut status = StatusFlags::new();
    let ghost flags = text::texts(words@);
    let mut i: usize = 0;
    assert(flags.take(0).to_set() =~= Set::<Seq<char>>::empty());
    while i < words.len()
        invariant
            i <= words@.len(),
            flags == text::texts(words@),
            status.wf(),
            status@ == flags.take(i as int).to_set(),
        decreases words@.len() - i,
    {
        status.insert(words[i].clone());
        proof {
            let before = flags.take(i as int);
            let after = flags.take(i + 1);
            assert(after == before.push(words@[i as int]@));
            assert forall|w: Seq<char>| after.contains(w) == (before.contains(w) || w
                == words@[i as int]@) by {
                if before.contains(w) {
                    let k = choose|k: int| 0 <= k < before.len() && before[k] == w;
                    assert(after[k] == w);
                }
                assert(after[i as int] == words@[i as int]@);
                if after.contains(w) && w != words@[i as int]@ {
                    let k = choose|k: int| 0 <= k < after.len() && after[k] == w;
                    assert(before[k] == w);
                }
            }
            assert(after.to_set() =~= before.to_set().insert(words@[i as int]@));
        }
        i = i + 1;
    }
    assert(flags.take(flags.len() as int) == flags);
    let battery_charge = match values.get("battery.charge") {
        Some(_) => charge,
        None => None,
    };
    Ok(
        UpsSnapshot {
            status,
            battery_runtime: parse_u64(values.get("battery.runtime")),
            battery_charge,
        },
    )
}

// ---------------------------------------------------------------------------
// Texts that may go into a line
// ---------------------------------------------------------------------------

/// Whether a text holds a line end.
pub open spec fn has_break(value: Seq<char>) -> bool {
    exists|i: int| 0 <= i < value.len() && split::is_line_end(#[trigger] value[i])
}

/// Whether a text holds whitespace.
pub open spec fn has_space(value: Seq<char>) -> bool {
    exists|i: int| 0 <= i < value.len() && split::is_space(#[trigger] value[i])
}

/// Whether a text fits into a line.
pub open spec fn valid_line(name: Seq<char>, value: Seq<char>) -> Result<(), Seq<char>> {
    if has_break(value) {
        Err(name + " must not contain line breaks"@)
    } else {
        Ok(())
    }
}

/// Whether a text can be one word of a line.
pub open spec fn valid_token(name: Seq<char>, value: Seq<char>) -> Result<(), Seq<char>> {
    if has_break(value) {
        Err(name + " must not contain line breaks"@)
    } else if has_space(value) {
        Err(name + " must not contain whitespace"@)
    } else {
        Ok(())
    }
}

/// Checks that a text can be one word of a line. `name` says which text it is.
pub fn validate_token(name: &str, value: &str) -> (result: Result<(), String>)
    ensures
        text::err_text(result) == valid_token(name@, value@),
{
    match validate_line(name, value) {
        Ok(()) => {},
        Err(message) => return Err(message),
    }
    if has_whitespace(value) {
        return Err(join2(name, " must not contain whitespace"));
    }
    Ok(())
}

/// Checks that a text fits into a line. `name` says which text it is.
pub fn validate_line(name: &str, value: &str) -> (result: Result<(), String>)
    ensures
        text::err_text(result) == valid_line(name@, value@),
{
    if has_line_end(value) {
        return Err(join2(name, " must not contain line breaks"));
    }
    Ok(())
}

// ---------------------------------------------------------------------------
// What lines and variables come to
// ---------------------------------------------------------------------------

/// A complete stretch of a quoted value is read on its own: what comes after it
/// changes nothing in it.
proof fn lemma_unescaped_stretches(a: Seq<char>, b: Seq<char>)
    requires
        unescaped(a) is Some,
    ensures
        unescaped(a + b) == match unescaped(b) {
            Some(rest) => Some(unescaped(a)->0 + rest),
            None => None,
        },
    decreases a.len(),
{
    if a.len() == 0 {
        assert(a + b == b);
        if unescaped(b) is Some {
            assert(unescaped(a)->0 + unescaped(b)->0 == unescaped(b)->0);
        }
    } else {
        let n: int = if a[0] == '\\' {
            2
        } else {
            1
        };
        lemma_unescaped_stretches(a.skip(n), b);
        assert((a + b).skip(n) == a.skip(n) + b);
        let rest = unescaped(a.skip(n))->0;
        if unescaped(b) is Some {
            let tail = unescaped(b)->0;
            assert(seq![a[n - 1]] + (rest + tail) == (seq![a[n - 1]] + rest) + tail);
        }
    }
}

/// Behind whatever else stands in the quotes, a character stands for itself, and a
/// backslash for the character after it, whichever that is; a backslash at the end makes
/// the value unreadable. Outside of quotes every character stands for itself.
pub proof fn lemma_quoted_characters(c: char, before: Seq<char>, after: Seq<char>)
    requires
        unescaped(before) is Some,
    ensures
        unescaped(Seq::empty()) == Some(Seq::<char>::empty()),
        unquoted(seq!['"'] + before + seq!['"']) == Ok::<Seq<char>, Seq<char>>(
            unescaped(before)->0,
        ),
        c != '\\' ==> unescaped(before + seq![c]) == Some(unescaped(before)->0.push(c)),
        unescaped(before + seq!['\\', c]) == Some(unescaped(before)->0.push(c)),
        unquoted(seq!['"'] + before + seq!['\\', '"']) == Err::<Seq<char>, Seq<char>>(
            "invalid trailing escape in NUT value: "@ + (seq!['"'] + before + seq!['\\', '"']),
        ),
        after.len() < 2 || after[0] != '"' || after.last() != '"' ==> unquoted(after) == Ok::<
            Seq<char>,
            Seq<char>,
        >(after),
{
    let empty = Seq::<char>::empty();
    assert(unescaped(empty) == Some(empty));
    let plain = seq!['"'] + before + seq!['"'];
    assert(plain.subrange(1, plain.len() - 1) == before);
    let open = seq!['"'] + before + seq!['\\', '"'];
    assert(open.subrange(1, open.len() - 1) == before + seq!['\\']);
    assert(unescaped(seq!['\\']) is None);
    lemma_unescaped_stretches(before, seq!['\\']);
    let pair = seq!['\\', c];
    assert(pair.skip(2) == empty);
    assert(unescaped(pair) == Some(seq![c] + empty));
    assert(seq![c] + empty == seq![c]);
    lemma_unescaped_stretches(before, pair);
    assert(unescaped(before)->0 + seq![c] == unescaped(before)->0.push(c));
    if c != '\\' {
        let single = seq![c];
        assert(single.skip(1) == empty);
        assert(unescaped(single) == Some(seq![c] + empty));
        lemma_unescaped_stretches(before, single);
    }
}

/// What a line that names a UPS, a variable and a value sets. It is that variable of
/// that UPS, with all that follows as its value, and nothing of any other UPS.
pub proof fn lemma_variable_line(
    ups_name: Seq<char>,
    other_ups: Seq<char>,
    name: Seq<char>,
    raw: Seq<char>,
)
    requires
        forall|i: int| 0 <= i < ups_name.len() ==> #[trigger] ups_name[i] != ' ',
        forall|i: int| 0 <= i < name.len() ==> #[trigger] name[i] != ' ',
    ensures
        var_line("VAR "@ + ups_name + " "@ + name + " "@ + raw, ups_name) == match unquoted(raw) {
            Ok(value) => Ok(Some((name, value))),
            Err(error) => Err(error),
        },
        other_ups != ups_name ==> var_line(
            "VAR "@ + ups_name + " "@ + name + " "@ + raw,
            other_ups,
        ) == Ok::<Option<(Seq<char>, Seq<char>)>, Seq<char>>(None),
{
    reveal_strlit("VAR ");
    reveal_strlit(" ");
    let line = "VAR "@ + ups_name + " "@ + name + " "@ + raw;
    let behind_ups = name + seq![' '] + raw;
    let behind_var = ups_name + seq![' '] + behind_ups;
    let var = seq!['V', 'A', 'R'];
    assert(" "@ == seq![' ']);
    assert(line == var + seq![' '] + behind_var);
    assert(line.take(4) == "VAR "@);
    split::lemma_first_piece(var, behind_var, ' ', 4);
    split::lemma_first_piece(ups_name, behind_ups, ' ', 3);
    split::lemma_first_piece(name, raw, ' ', 2);
    assert(split::pieces(raw, ' ', 1) == seq![raw]);
    assert(split::pieces(line, ' ', 4) == seq![var, ups_name, name, raw]);
}

/// Lines that set nothing: a line that does not begin with the word for a variable is
/// passed over, and one that does but lacks a name or a value is refused, whatever UPS
/// it names.
pub proof fn lemma_lines_without_a_variable(
    line: Seq<char>,
    ups_name: Seq<char>,
    first: Seq<char>,
    second: Seq<char>,
)
    requires
        forall|i: int| 0 <= i < first.len() ==> #[trigger] first[i] != ' ',
        forall|i: int| 0 <= i < second.len() ==> #[trigger] second[i] != ' ',
    ensures
        line.len() < 4 || line.take(4) != "VAR "@ ==> var_line(line, ups_name) == Ok::<
            Option<(Seq<char>, Seq<char>)>,
            Seq<char>,
        >(None),
        var_line("VAR "@ + first, ups_name) == Err::<Option<(Seq<char>, Seq<char>)>, Seq<char>>(
            "invalid NUT variable response: "@ + ("VAR "@ + first),
        ),
        var_line("VAR "@ + first + " "@ + second, ups_name) == Err::<
            Option<(Seq<char>, Seq<char>)>,
            Seq<char>,
        >("invalid NUT variable response: "@ + ("VAR "@ + first + " "@ + second)),
{
    reveal_strlit("VAR ");
    reveal_strlit(" ");
    let var = seq!['V', 'A', 'R'];
    assert(" "@ == seq![' ']);
    let short = "VAR "@ + first;
    assert(short == var + seq![' '] + first);
    assert(short.take(4) == "VAR "@);
    split::lemma_first_piece(var, first, ' ', 4);
    split::lemma_only_piece(first, ' ', 3);
    let longer = "VAR "@ + first + " "@ + second;
    let behind = first + seq![' '] + second;
    assert(longer == var + seq![' '] + behind);
    assert(longer.take(4) == "VAR "@);
    split::lemma_first_piece(var, behind, ' ', 4);
    split::lemma_first_piece(first, second, ' ', 3);
    split::lemma_only_piece(second, ' ', 2);
}

/// Variables make up a snapshot exactly where the status is among them. Its flags are
/// the words of the status. The time left is there exactly where its variable is read as
/// a number, and is that number; the charge is there where its variable is.
pub proof fn lemma_snapshot(
    values: Map<Seq<char>, Seq<char>>,
    charge: Option<PercentageModel>,
    flag: Seq<char>,
    seconds: u64,
)
    ensures
        snapshot(values, charge) is Ok <==> values.contains_key("ups.status"@),
        !values.contains_key("ups.status"@) ==> snapshot(values, charge) == Err::<
            SnapshotModel,
            Seq<char>,
        >("missing ups.status in NUT response"@),
        values.contains_key("ups.status"@) ==> {
            let found = snapshot(values, charge)->Ok_0;
            &&& found.status.contains(flag) <==> split::words(values["ups.status"@]).contains(flag)
            &&& found.battery_runtime == Some(seconds) <==> values.contains_key(
                "battery.runtime"@,
            ) && text::number(values["battery.runtime"@], u64::MAX as int) == Ok::<
                int,
                text::NumberError,
            >(seconds as int)
            &&& values.contains_key("battery.charge"@) ==> found.battery_charge == charge
            &&& !values.contains_key("battery.charge"@) ==> found.battery_charge is None
        },
{
    if values.contains_key("battery.runtime"@) {
        text::lemma_number_in_range(values["battery.runtime"@], u64::MAX as int);
    }
}

/// A status that is written as flags with a space between each sets those flags and no
/// others, and a time left that is written as a numeral is read as that number.
pub proof fn lemma_snapshot_is_read_back(
    values: Map<Seq<char>, Seq<char>>,
    charge: Option<PercentageModel>,
    flags: Seq<Seq<char>>,
    seconds: u64,
)
    requires
        forall|i: int| 0 <= i < flags.len() ==> split::is_word(#[trigger] flags[i]),
        values.contains_key("ups.status"@),
        values["ups.status"@] == split::rejoined(flags, ' '),
        values.contains_key("battery.runtime"@),
        values["battery.runtime"@] == text::decimal(seconds as nat),
    ensures
        snapshot(values, charge) is Ok,
        snapshot(values, charge)->Ok_0.battery_runtime == Some(seconds),
        forall|flag: Seq<char>| #[trigger]
            snapshot(values, charge)->Ok_0.status.contains(flag) <==> flags.contains(flag),
{
    split::lemma_words_are_read_back(flags);
    text::lemma_numeral_is_read_back(seconds as nat, 0, u64::MAX as int);
}

/// A text fits into a line exactly where it holds neither of the two characters that end
/// one, and is a word of a line exactly where it holds no whitespace. A line end is
/// complained about before other whitespace.
pub proof fn lemma_valid_texts(name: Seq<char>, value: Seq<char>)
    ensures
        valid_line(name, value) is Ok <==> !value.contains('\r') && !value.contains('\n'),
        valid_line(name, value) is Err ==> valid_line(name, value) == Err::<(), Seq<char>>(
            name + " must not contain line breaks"@,
        ),
        valid_token(name, value) is Ok <==> forall|i: int|
            0 <= i < value.len() ==> !split::is_space(#[trigger] value[i]),
        valid_token(name, value) is Err ==> valid_token(name, value) == Err::<(), Seq<char>>(
            name + if value.contains('\r') || value.contains('\n') {
                " must not contain line breaks"@
            } else {
                " must not contain whitespace"@
            },
        ),
{
    if has_break(value) {
        let i = choose|i: int| 0 <= i < value.len() && split::is_line_end(#[trigger] value[i]);
        assert(value.contains(value[i]));
        assert(split::is_space(value[i]));
    }
    if value.contains('\r') {
        let i = choose|i: int| 0 <= i < value.len() && value[i] == '\r';
        assert(split::is_line_end(value[i]));
    }
    if value.contains('\n') {
        let i = choose|i: int| 0 <= i < value.len() && value[i] == '\n';
        assert(split::is_line_end(value[i]));
    }
}

/// What a snapshot and the results of reading say is what they hold.
pub proof fn lemma_readings_are_what_they_hold(
    reading: UpsSnapshot,
    charge: Percentage,
    name: String,
    value: String,
    error: String,
)
    ensures
        reading@.status == reading.status@,
        reading@.battery_runtime == reading.battery_runtime,
        reading.battery_charge == Some(charge) ==> reading@.battery_charge is Some
            && reading@.battery_charge->0.bits == charge.bits
            && reading@.battery_charge->0.text == charge.text@,
        reading.battery_charge is None ==> reading@.battery_charge is None,
        snapshot_text(Ok(reading)) == Ok::<SnapshotModel, Seq<char>>(reading@),
        snapshot_text(Err(error)) == Err::<SnapshotModel, Seq<char>>(error@),
        var_line_text(Ok(Some((name, value)))) == Ok::<
            Option<(Seq<char>, Seq<char>)>,
            Seq<char>,
        >(Some((name@, value@))),
        var_line_text(Ok(None)) == Ok::<Option<(Seq<char>, Seq<char>)>, Seq<char>>(None),
        var_line_text(Err(error)) == Err::<Option<(Seq<char>, Seq<char>)>, Seq<char>>(error@),
{
}

} // verus!
