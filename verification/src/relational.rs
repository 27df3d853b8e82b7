//! What SQL text means.
//!
//! A command is what a statement asks of Postgres: the table, the columns, and for each of
//! them the number of the parameter that is meant for it. A command is spelled as words, as
//! SQL is written, with white space between them; and it has an outcome, which is what
//! Postgres makes of it for the tables and the parameters at hand, with nobody else writing.

use crate::bytes_order::lex_le;
use crate::sql::{SqlParamView, SqlStatementView};
use crate::text::decimal_text;
use vstd::prelude::*;

verus! {

// ---------------------------------------------------------------------------
// Words
// ---------------------------------------------------------------------------

/// Words, in order.
pub enum Words {
    End,
    Word(Seq<char>, Box<Words>),
}

/// A word in front of others.
pub open spec fn word(first: Seq<char>, rest: Words) -> Words {
    Words::Word(first, Box::new(rest))
}

impl Words {
    /// These words and then others.
    pub open spec fn followed_by(self, others: Words) -> Words
        decreases self,
    {
        match self {
            Words::End => others,
            Words::Word(first, rest) => word(first, rest.followed_by(others)),
        }
    }
}

/// White space.
pub open spec fn blank(c: char) -> bool {
    c == ' ' || c == '\n'
}

/// The text has the word at one position, and nothing but white space behind it up to
/// another; there is some, unless the text ends there.
pub open spec fn word_at(text: Seq<char>, from: int, word: Seq<char>, to: int) -> bool {
    let end = from + word.len();
    &&& 0 <= from && end <= to <= text.len()
    &&& text.subrange(from, end) =~= word
    &&& forall|j: int| end <= j < to ==> blank(#[trigger] text[j])
    &&& to == text.len() || (to > 0 && blank(text[to - 1]))
}

/// From one position to another the text consists of the words, with white space between
/// and behind them.
pub open spec fn reads(text: Seq<char>, from: int, words: Words, to: int) -> bool
    decreases words,
{
    match words {
        Words::End => from == to,
        Words::Word(first, rest) => exists|mid: int|
            #[trigger] word_at(text, from, first, mid) && reads(text, mid, *rest, to),
    }
}

/// The text consists of the words, with white space between them.
pub open spec fn spells(text: Seq<char>, words: Words) -> bool {
    reads(text, 0, words, text.len() as int)
}

/// A word in front of words that the text goes on with.
pub(crate) proof fn lemma_word(
    text: Seq<char>,
    from: int,
    first: Seq<char>,
    mid: int,
    rest: Words,
    to: int,
) -> (words: Words)
    requires
        word_at(text, from, first, mid),
        reads(text, mid, rest, to),
    ensures
        words == word(first, rest),
        reads(text, from, words, to),
{
    let words = word(first, rest);
    if let Words::Word(f, r) = words {
        assert(f == first && *r == rest);
        assert(word_at(text, from, f, mid) && reads(text, mid, *r, to));
    }
    words
}

proof fn lemma_reads_behind(before: Seq<char>, text: Seq<char>, from: int, words: Words)
    requires
        reads(text, from, words, text.len() as int),
    ensures
        reads(
            before + text,
            before.len() + from,
            words,
            (before + text).len() as int,
        ),
    decreases words,
{
    if let Words::Word(first, rest) = words {
        let mid = choose|mid: int|
            #[trigger] word_at(text, from, first, mid) && reads(
                text,
                mid,
                *rest,
                text.len() as int,
            );
        lemma_reads_behind(before, text, mid, *rest);
        let all = before + text;
        let at = before.len() + from;
        assert(all.subrange(at, at + first.len()) =~= text.subrange(from, from + first.len()));
        assert(word_at(all, at, first, before.len() + mid));
    }
}

proof fn lemma_reads_before(
    text: Seq<char>,
    after: Seq<char>,
    from: int,
    words: Words,
    others: Words,
)
    requires
        text.len() > 0,
        blank(text.last()),
        reads(text, from, words, text.len() as int),
        reads(text + after, text.len() as int, others, (text + after).len() as int),
    ensures
        reads(text + after, from, words.followed_by(others), (text + after).len() as int),
    decreases words,
{
    if let Words::Word(first, rest) = words {
        let mid = choose|mid: int|
            #[trigger] word_at(text, from, first, mid) && reads(
                text,
                mid,
                *rest,
                text.len() as int,
            );
        lemma_reads_before(text, after, mid, *rest, others);
        let all = text + after;
        assert(all.subrange(from, from + first.len()) =~= text.subrange(
            from,
            from + first.len(),
        ));
        assert(word_at(all, from, first, mid));
        let words = lemma_word(
            all,
            from,
            first,
            mid,
            rest.followed_by(others),
            all.len() as int,
        );
    }
}

/// A name between two texts. The text behind it may go on with the name itself: its first
/// `glue` characters are part of that word.
pub(crate) proof fn lemma_spliced(
    head: Seq<char>,
    name: Seq<char>,
    tail: Seq<char>,
    words: Words,
    others: Words,
    glue: int,
    lead: int,
)
    requires
        head.len() > 0,
        blank(head.last()),
        spells(head, words),
        0 <= glue <= lead <= tail.len(),
        glue < lead || lead == tail.len(),
        forall|j: int| glue <= j < lead ==> blank(#[trigger] tail[j]),
        reads(tail, lead, others, tail.len() as int),
    ensures
        spells(head + name + tail, words.followed_by(word(name + tail.take(glue), others))),
{
    let before = head + name;
    let all = before + tail;
    lemma_reads_behind(before, tail, lead, others);
    let at = head.len() as int;
    let joined = name + tail.take(glue);
    assert(all.subrange(at, at + joined.len()) =~= joined);
    assert(word_at(all, at, joined, before.len() + lead));
    let rest = lemma_word(all, at, joined, before.len() + lead, others, all.len() as int);
    assert(all =~= head + (name + tail));
    lemma_reads_before(head, name + tail, 0, words, rest);
}

/// A name between two texts.
pub(crate) proof fn lemma_named(
    head: Seq<char>,
    name: Seq<char>,
    tail: Seq<char>,
    words: Words,
    others: Words,
    lead: int,
)
    requires
        head.len() > 0,
        blank(head.last()),
        spells(head, words),
        0 < lead <= tail.len() || (lead == 0 && tail.len() == 0),
        forall|j: int| 0 <= j < lead ==> blank(#[trigger] tail[j]),
        reads(tail, lead, others, tail.len() as int),
    ensures
        spells(head + name + tail, words.followed_by(word(name, others))),
{
    lemma_spliced(head, name, tail, words, others, 0, lead);
    assert(name + tail.take(0) =~= name);
}

// ---------------------------------------------------------------------------
// Tables
// ---------------------------------------------------------------------------

/// A column.
pub enum Column {
    Hash,
    Repository,
    Context,
    Flags,
    SizePayload,
    SizeContent,
    RepositoryId,
    Key,
    Value,
    Branch,
    OwnerId,
    Description,
    LockedAt,
}

impl Column {
    /// The name of the column.
    pub open spec fn name(self) -> Seq<char> {
        match self {
            Column::Hash => "hash"@,
            Column::Repository => "repository"@,
            Column::Context => "context"@,
            Column::Flags => "flags"@,
            Column::SizePayload => "size_payload"@,
            Column::SizeContent => "size_content"@,
            Column::RepositoryId => "repository_id"@,
            Column::Key => "key"@,
            Column::Value => "value"@,
            Column::Branch => "branch"@,
            Column::OwnerId => "owner_id"@,
            Column::Description => "description"@,
            Column::LockedAt => "locked_at"@,
        }
    }
}

/// What a column holds.
pub enum ColumnType {
    Bytes,
    Text,
    BigInt,
}

impl ColumnType {
    /// The name of the type.
    pub open spec fn name(self) -> Seq<char> {
        match self {
            ColumnType::Bytes => "BYTEA"@,
            ColumnType::Text => "TEXT"@,
            ColumnType::BigInt => "BIGINT"@,
        }
    }

    /// The value is one that the column can hold.
    pub open spec fn admits(self, value: SqlParamView) -> bool {
        match self {
            ColumnType::Bytes => value is Bytes,
            ColumnType::Text => value is Text,
            ColumnType::BigInt => value is BigInt,
        }
    }
}

/// A row: what it holds in its columns.
pub type Row = Map<Column, SqlParamView>;

/// A table: its columns, those that make up the primary key, and its rows.
#[verifier::ext_equal]
pub struct Relation {
    pub columns: Map<Column, ColumnType>,
    pub key: Set<Column>,
    pub rows: Set<Row>,
}

/// The tables by their names.
pub type Database = Map<Seq<char>, Relation>;

/// The rows agree in the columns.
pub open spec fn agree(a: Row, b: Row, columns: Set<Column>) -> bool {
    forall|c: Column| columns.contains(c) ==> #[trigger] a[c] == b[c]
}

// ---------------------------------------------------------------------------
// Parts of commands
// ---------------------------------------------------------------------------

/// How a parameter is written.
pub open spec fn place(number: nat) -> Seq<char> {
    "$"@ + decimal_text(number)
}

/// The parameter with a number, counted from one.
pub open spec fn bound(params: Seq<SqlParamView>, number: nat) -> SqlParamView {
    params[number - 1]
}

/// The number is that of a parameter that the column can be set to or compared with.
pub open spec fn usable(
    relation: Relation,
    params: Seq<SqlParamView>,
    column: Column,
    number: nat,
) -> bool {
    &&& 1 <= number <= params.len()
    &&& relation.columns.contains_key(column)
    &&& relation.columns[column].admits(bound(params, number))
}

/// The larger of two numbers.
pub open spec fn larger(a: nat, b: nat) -> nat {
    if a < b {
        b
    } else {
        a
    }
}

/// An item of a list in round brackets.
pub open spec fn item(first: bool, text: Seq<char>, last: bool) -> Seq<char> {
    (if first {
        "("@
    } else {
        Seq::empty()
    }) + text + (if last {
        ")"@
    } else {
        ","@
    })
}

/// An item of a list without brackets.
pub open spec fn listed(text: Seq<char>, last: bool) -> Seq<char> {
    if last {
        text
    } else {
        text + ","@
    }
}

/// The names of columns in round brackets, from the `k`-th on.
pub open spec fn bracketed(columns: Seq<Column>, k: nat, rest: Words) -> Words
    decreases columns.len() - k,
{
    if k >= columns.len() {
        rest
    } else {
        word(
            item(k == 0, columns[k as int].name(), k + 1 == columns.len()),
            bracketed(columns, k + 1, rest),
        )
    }
}

/// As many parameters in round brackets, from the `k`-th on.
pub open spec fn places(count: nat, k: nat, rest: Words) -> Words
    decreases count - k,
{
    if k >= count {
        rest
    } else {
        word(item(k == 0, place(k + 1), k + 1 == count), places(count, k + 1, rest))
    }
}

/// The names of columns without brackets, from the `k`-th on.
pub open spec fn names(columns: Seq<Column>, k: nat, rest: Words) -> Words
    decreases columns.len() - k,
{
    if k >= columns.len() {
        rest
    } else {
        word(
            listed(columns[k as int].name(), k + 1 == columns.len()),
            names(columns, k + 1, rest),
        )
    }
}

/// How a column is compared with a parameter.
pub enum Test {
    Equal,
    AtLeast,
    AtMost,
}

impl Test {
    /// The sign for it.
    pub open spec fn sign(self) -> Seq<char> {
        match self {
            Test::Equal => "="@,
            Test::AtLeast => ">="@,
            Test::AtMost => "<="@,
        }
    }

    /// The comparison holds. Byte strings are compared byte by byte.
    pub open spec fn holds(self, value: SqlParamView, with: SqlParamView) -> bool {
        match self {
            Test::Equal => value == with,
            Test::AtLeast => value is Bytes && with is Bytes && lex_le(
                with->Bytes_0,
                value->Bytes_0,
            ),
            Test::AtMost => value is Bytes && with is Bytes && lex_le(
                value->Bytes_0,
                with->Bytes_0,
            ),
        }
    }
}

/// A column is compared with the parameter that has the number.
pub struct Condition {
    pub column: Column,
    pub test: Test,
    pub number: nat,
}

/// The conditions from the `k`-th on, all of which are asked for. The last of them is
/// followed at once by `close`.
pub open spec fn all_of(
    conditions: Seq<Condition>,
    k: nat,
    close: Seq<char>,
    rest: Words,
) -> Words
    decreases conditions.len() - k,
{
    if k >= conditions.len() {
        rest
    } else {
        let one = conditions[k as int];
        word(
            one.column.name(),
            word(
                one.test.sign(),
                if k + 1 == conditions.len() {
                    word(place(one.number) + close, rest)
                } else {
                    word(
                        place(one.number),
                        word("AND"@, all_of(conditions, k + 1, close, rest)),
                    )
                },
            ),
        )
    }
}

/// The row meets the conditions from the `k`-th on.
pub open spec fn meets(
    conditions: Seq<Condition>,
    k: nat,
    params: Seq<SqlParamView>,
    row: Row,
) -> bool
    decreases conditions.len() - k,
{
    k < conditions.len() ==> {
        let one = conditions[k as int];
        &&& row.contains_key(one.column)
        &&& one.test.holds(row[one.column], bound(params, one.number))
        &&& meets(conditions, k + 1, params, row)
    }
}

/// The row is in the table and meets the conditions.
pub open spec fn picked(
    relation: Relation,
    conditions: Seq<Condition>,
    params: Seq<SqlParamView>,
    row: Row,
) -> bool {
    relation.rows.contains(row) && meets(conditions, 0, params, row)
}

/// The conditions from the `k`-th on can be asked of the table.
pub open spec fn askable(
    conditions: Seq<Condition>,
    k: nat,
    params: Seq<SqlParamView>,
    relation: Relation,
) -> bool
    decreases conditions.len() - k,
{
    k < conditions.len() ==> {
        let one = conditions[k as int];
        &&& usable(relation, params, one.column, one.number)
        &&& askable(conditions, k + 1, params, relation)
    }
}

/// The highest number in the conditions from the `k`-th on.
pub open spec fn highest(conditions: Seq<Condition>, k: nat) -> nat
    decreases conditions.len() - k,
{
    if k >= conditions.len() {
        0
    } else {
        larger(conditions[k as int].number, highest(conditions, k + 1))
    }
}

/// Columns that are set to parameters, from the `k`-th on.
pub open spec fn settings(set: Seq<(Column, nat)>, k: nat, rest: Words) -> Words
    decreases set.len() - k,
{
    if k >= set.len() {
        rest
    } else {
        word(
            set[k as int].0.name(),
            word(
                "="@,
                word(
                    listed(place(set[k as int].1), k + 1 == set.len()),
                    settings(set, k + 1, rest),
                ),
            ),
        )
    }
}

/// The row with the columns set, from the `k`-th on.
pub open spec fn row_set(
    set: Seq<(Column, nat)>,
    k: nat,
    params: Seq<SqlParamView>,
    row: Row,
) -> Row
    decreases set.len() - k,
{
    if k >= set.len() {
        row
    } else {
        row_set(set, k + 1, params, row.insert(set[k as int].0, bound(params, set[k as int].1)))
    }
}

/// The columns from the `k`-th on can be set so.
pub open spec fn settable(
    set: Seq<(Column, nat)>,
    k: nat,
    params: Seq<SqlParamView>,
    relation: Relation,
) -> bool
    decreases set.len() - k,
{
    k < set.len() ==> {
        &&& usable(relation, params, set[k as int].0, set[k as int].1)
        &&& settable(set, k + 1, params, relation)
    }
}

/// The highest number in the settings from the `k`-th on.
pub open spec fn highest_set(set: Seq<(Column, nat)>, k: nat) -> nat
    decreases set.len() - k,
{
    if k >= set.len() {
        0
    } else {
        larger(set[k as int].1, highest_set(set, k + 1))
    }
}

/// The row that holds the parameters in the columns, each in its turn, from the `k`-th on.
pub open spec fn row_with(columns: Seq<Column>, k: nat, params: Seq<SqlParamView>) -> Row
    decreases columns.len() - k,
{
    if k >= columns.len() {
        Map::empty()
    } else {
        row_with(columns, k + 1, params).insert(columns[k as int], params[k as int])
    }
}

/// The parameters fit into the columns, each in its turn, from the `k`-th on.
pub open spec fn insertable(
    columns: Seq<Column>,
    k: nat,
    params: Seq<SqlParamView>,
    relation: Relation,
) -> bool
    decreases columns.len() - k,
{
    k < columns.len() ==> {
        &&& usable(relation, params, columns[k as int], k + 1)
        &&& insertable(columns, k + 1, params, relation)
    }
}

/// What a row holds in the columns, from the `k`-th on.
pub open spec fn cells(columns: Seq<Column>, k: nat, row: Row) -> Seq<SqlParamView>
    decreases columns.len() - k,
{
    if k >= columns.len() {
        Seq::empty()
    } else {
        seq![row[columns[k as int]]] + cells(columns, k + 1, row)
    }
}

// ---------------------------------------------------------------------------
// Commands
// ---------------------------------------------------------------------------

/// What becomes of a row whose key is there already.
pub enum Conflict {
    /// It is not added, whichever key stands in the way.
    Ignore,
    /// It is not added, where these columns stand in the way.
    Skip(Seq<Column>),
    /// Where the first columns stand in the way, the second ones are overwritten in the row
    /// that is there.
    Replace(Seq<Column>, Seq<Column>),
}

/// The columns that are overwritten with those of the row that was to be added, from the
/// `k`-th on.
pub open spec fn excluded(columns: Seq<Column>, k: nat, rest: Words) -> Words
    decreases columns.len() - k,
{
    if k >= columns.len() {
        rest
    } else {
        let name = columns[k as int].name();
        word(
            name,
            word(
                "="@,
                word(
                    listed("EXCLUDED."@ + name, k + 1 == columns.len()),
                    excluded(columns, k + 1, rest),
                ),
            ),
        )
    }
}

/// The row with columns of another one, from the `k`-th on.
pub open spec fn overwritten(columns: Seq<Column>, k: nat, row: Row, by: Row) -> Row
    decreases columns.len() - k,
{
    if k >= columns.len() {
        row
    } else {
        overwritten(columns, k + 1, row.insert(columns[k as int], by[columns[k as int]]), by)
    }
}

/// A column as it is declared.
pub struct Definition {
    pub column: Column,
    pub kind: ColumnType,
    /// It is the primary key by itself.
    pub primary: bool,
    /// It is zero where nothing is said of it.
    pub zero: bool,
}

/// Declarations of columns from the `k`-th on. `more` says that something follows them.
pub open spec fn definitions(list: Seq<Definition>, k: nat, more: bool, rest: Words) -> Words
    decreases list.len() - k,
{
    if k >= list.len() {
        rest
    } else {
        let one = list[k as int];
        let last = k + 1 == list.len() && !more;
        let others = definitions(list, k + 1, more, rest);
        word(
            one.column.name(),
            word(
                one.kind.name(),
                word(
                    "NOT"@,
                    if one.primary {
                        word("NULL"@, word("PRIMARY"@, word(listed("KEY"@, last), others)))
                    } else if one.zero {
                        word("NULL"@, word("DEFAULT"@, word(listed("0"@, last), others)))
                    } else {
                        word(listed("NULL"@, last), others)
                    },
                ),
            ),
        )
    }
}

/// The columns that are declared, from the `k`-th on.
pub open spec fn declared(list: Seq<Definition>, k: nat) -> Map<Column, ColumnType>
    decreases list.len() - k,
{
    if k >= list.len() {
        Map::empty()
    } else {
        declared(list, k + 1).insert(list[k as int].column, list[k as int].kind)
    }
}

/// The columns that are primary keys by themselves, from the `k`-th on.
pub open spec fn primaries(list: Seq<Definition>, k: nat) -> Set<Column>
    decreases list.len() - k,
{
    if k >= list.len() {
        Set::empty()
    } else if list[k as int].primary {
        primaries(list, k + 1).insert(list[k as int].column)
    } else {
        primaries(list, k + 1)
    }
}

/// An index: what its name adds to that of the table, and its columns.
pub struct Index {
    pub suffix: Seq<char>,
    pub columns: Seq<Column>,
}

/// Columns in round brackets and a semicolon, from the `k`-th on.
pub open spec fn bracketed_end(columns: Seq<Column>, k: nat, rest: Words) -> Words
    decreases columns.len() - k,
{
    if k >= columns.len() {
        rest
    } else {
        let last = k + 1 == columns.len();
        let text = item(k == 0, columns[k as int].name(), last);
        word(
            if last {
                text + ";"@
            } else {
                text
            },
            bracketed_end(columns, k + 1, rest),
        )
    }
}

/// The statements that create indexes, from the `k`-th on.
pub open spec fn indexes_words(
    table: Seq<char>,
    indexes: Seq<Index>,
    k: nat,
    rest: Words,
) -> Words
    decreases indexes.len() - k,
{
    if k >= indexes.len() {
        rest
    } else {
        let one = indexes[k as int];
        word(
            "CREATE"@,
            word(
                "INDEX"@,
                word(
                    "IF"@,
                    word(
                        "NOT"@,
                        word(
                            "EXISTS"@,
                            word(
                                table + one.suffix,
                                word(
                                    "ON"@,
                                    word(
                                        table,
                                        bracketed_end(
                                            one.columns,
                                            0,
                                            indexes_words(table, indexes, k + 1, rest),
                                        ),
                                    ),
                                ),
                            ),
                        ),
                    ),
                ),
            ),
        )
    }
}

/// Two columns that together are to be one of the pairs in two lists.
pub struct Pairs {
    pub first: Column,
    pub second: Column,
    pub first_number: nat,
    pub second_number: nat,
}

impl Pairs {
    /// Both parameters are lists, equally long.
    pub open spec fn usable(self, params: Seq<SqlParamView>) -> bool {
        &&& 1 <= self.first_number <= params.len()
        &&& 1 <= self.second_number <= params.len()
        &&& bound(params, self.first_number) is ByteList
        &&& bound(params, self.second_number) is ByteList
        &&& bound(params, self.first_number)->ByteList_0.len() == bound(
            params,
            self.second_number,
        )->ByteList_0.len()
    }

    /// The row has the `i`-th pair in the columns.
    pub open spec fn at(self, params: Seq<SqlParamView>, row: Row, i: int) -> bool {
        &&& row[self.first] == SqlParamView::Bytes(
            bound(params, self.first_number)->ByteList_0[i],
        )
        &&& row[self.second] == SqlParamView::Bytes(
            bound(params, self.second_number)->ByteList_0[i],
        )
    }

    /// The row has one of the pairs in the columns.
    pub open spec fn among(self, params: Seq<SqlParamView>, row: Row) -> bool {
        exists|i: int|
            0 <= i < bound(params, self.first_number)->ByteList_0.len() && #[trigger] self.at(
                params,
                row,
                i,
            )
    }
}

/// What a statement asks of Postgres.
pub enum Command {
    /// Create a table and its indexes where they are missing.
    Create {
        table: Seq<char>,
        declares: Seq<Definition>,
        key: Seq<Column>,
        indexes: Seq<Index>,
    },
    /// Add a row that holds the parameters in the columns, each in its turn.
    Insert { table: Seq<char>, columns: Seq<Column>, conflict: Conflict },
    /// Set columns of the rows that meet the conditions.
    Update { table: Seq<char>, set: Seq<(Column, nat)>, wanted: Seq<Condition> },
    /// Remove the rows that meet the conditions.
    Delete { table: Seq<char>, wanted: Seq<Condition> },
    /// Find out whether a row meets the conditions.
    Find { table: Seq<char>, wanted: Seq<Condition> },
    /// Count the rows that meet the conditions.
    Count { table: Seq<char>, wanted: Seq<Condition> },
    /// Show columns of the rows that meet the conditions. A column can be asked to have a
    /// value, which every column has, and two columns to be one of some pairs.
    Select {
        table: Seq<char>,
        columns: Seq<Column>,
        wanted: Seq<Condition>,
        filled: Option<Column>,
        pairs: Option<Pairs>,
    },
    /// Show those of the pairs in two lists that some row has, in the two columns and
    /// together with a parameter in a third one.
    Match { table: Seq<char>, lists: Pairs, fixed: Column, number: nat },
    /// Make a change. Answer one parameter if it has changed a row; otherwise a column of the
    /// row that met the conditions before, or another parameter if there is none. Answer also
    /// whether a row was changed.
    Swap {
        alias: Seq<char>,
        change: Box<Command>,
        column: Column,
        table: Seq<char>,
        wanted: Seq<Condition>,
        changed: nat,
        otherwise: Option<nat>,
    },
}

/// What a command answers.
#[verifier::ext_equal]
pub enum Answer {
    Nothing,
    Found(bool),
    Count(nat),
    /// For each of the rows, what is shown of it.
    Rows(Map<Row, Seq<SqlParamView>>),
    Pairs(Set<(Seq<u8>, Seq<u8>)>),
    /// A value, if there is one, and whether a row was changed.
    Swapped(Option<SqlParamView>, bool),
}

/// What comes of a command: the tables, the number of rows that were added, changed or
/// removed, and the answer.
#[verifier::ext_equal]
pub struct Outcome {
    pub database: Database,
    pub changed: nat,
    pub answer: Answer,
}

/// The condition that two columns are one of some pairs.
pub open spec fn pairs_words(pairs: Pairs, rest: Words) -> Words {
    word(
        item(true, pairs.first.name(), false),
        word(
            item(false, pairs.second.name(), true),
            word(
                "IN"@,
                word(
                    "("@,
                    word(
                        "SELECT"@,
                        word(
                            "*"@,
                            word(
                                "FROM"@,
                                word(
                                    "unnest("@ + place(pairs.first_number) + "::bytea[],"@,
                                    word(
                                        place(pairs.second_number) + "::bytea[])"@,
                                        word(")"@, rest),
                                    ),
                                ),
                            ),
                        ),
                    ),
                ),
            ),
        ),
    )
}

impl Command {
    /// How the command is spelled, in front of other words.
    pub open spec fn words(self, rest: Words) -> Words
        decreases self,
    {
        match self {
            Command::Create { table, declares, key, indexes } => {
                let end = if indexes.len() > 0 {
                    word(");"@, indexes_words(table, indexes, 0, rest))
                } else {
                    word(")"@, rest)
                };
                let keyed = if key.len() > 0 {
                    word("PRIMARY"@, word("KEY"@, bracketed(key, 0, end)))
                } else {
                    end
                };
                word(
                    "CREATE"@,
                    word(
                        "TABLE"@,
                        word(
                            "IF"@,
                            word(
                                "NOT"@,
                                word(
                                    "EXISTS"@,
                                    word(
                                        table,
                                        word(
                                            "("@,
                                            definitions(declares, 0, key.len() > 0, keyed),
                                        ),
                                    ),
                                ),
                            ),
                        ),
                    ),
                )
            },
            Command::Insert { table, columns, conflict } => {
                let end = match conflict {
                    Conflict::Ignore => word("DO"@, word("NOTHING"@, rest)),
                    Conflict::Skip(target) => bracketed(
                        target,
                        0,
                        word("DO"@, word("NOTHING"@, rest)),
                    ),
                    Conflict::Replace(target, replaced) => bracketed(
                        target,
                        0,
                        word("DO"@, word("UPDATE"@, word("SET"@, excluded(replaced, 0, rest)))),
                    ),
                };
                word(
                    "INSERT"@,
                    word(
                        "INTO"@,
                        word(
                            table,
                            bracketed(
                                columns,
                                0,
                                word(
                                    "VALUES"@,
                                    places(
                                        columns.len(),
                                        0,
                                        word("ON"@, word("CONFLICT"@, end)),
                                    ),
                                ),
                            ),
                        ),
                    ),
                )
            },
            Command::Update { table, set, wanted } => word(
                "UPDATE"@,
                word(
                    table,
                    word(
                        "SET"@,
                        settings(
                            set,
                            0,
                            word("WHERE"@, all_of(wanted, 0, Seq::empty(), rest)),
                        ),
                    ),
                ),
            ),
            Command::Delete { table, wanted } => word(
                "DELETE"@,
                word(
                    "FROM"@,
                    word(table, word("WHERE"@, all_of(wanted, 0, Seq::empty(), rest))),
                ),
            ),
            Command::Find { table, wanted } => word(
                "SELECT"@,
                word(
                    "1"@,
                    word(
                        "FROM"@,
                        word(
                            table,
                            word(
                                "WHERE"@,
                                all_of(
                                    wanted,
                                    0,
                                    Seq::empty(),
                                    word("LIMIT"@, word("1"@, rest)),
                                ),
                            ),
                        ),
                    ),
                ),
            ),
            Command::Count { table, wanted } => word(
                "SELECT"@,
                word(
                    "COUNT(*)"@,
                    word(
                        "FROM"@,
                        word(
                            table,
                            if wanted.len() > 0 {
                                word("WHERE"@, all_of(wanted, 0, Seq::empty(), rest))
                            } else {
                                rest
                            },
                        ),
                    ),
                ),
            ),
            Command::Select { table, columns, wanted, filled, pairs } => {
                let with_filled = match filled {
                    Some(column) => word(
                        "AND"@,
                        word(column.name(), word("IS"@, word("NOT"@, word("NULL"@, rest)))),
                    ),
                    None => rest,
                };
                let end = match pairs {
                    Some(pairs) => word("AND"@, pairs_words(pairs, with_filled)),
                    None => with_filled,
                };
                word(
                    "SELECT"@,
                    names(
                        columns,
                        0,
                        word(
                            "FROM"@,
                            word(table, word("WHERE"@, all_of(wanted, 0, Seq::empty(), end))),
                        ),
                    ),
                )
            },
            Command::Match { table, lists, fixed, number } => {
                let last = word(
                    "f."@ + lists.second.name(),
                    word("="@, word("i.ctx"@, word(")"@, rest))),
                );
                let middle = word(
                    "f."@ + fixed.name(),
                    word("="@, word(place(number), word("AND"@, last))),
                );
                let inner = word(
                    "SELECT"@,
                    word(
                        "1"@,
                        word(
                            "FROM"@,
                            word(
                                table,
                                word(
                                    "f"@,
                                    word(
                                        "WHERE"@,
                                        word(
                                            "f."@ + lists.first.name(),
                                            word("="@, word("i.hash"@, word("AND"@, middle))),
                                        ),
                                    ),
                                ),
                            ),
                        ),
                    ),
                );
                let given = word(
                    "unnest("@ + place(lists.first_number) + "::bytea[],"@,
                    word(
                        place(lists.second_number) + "::bytea[])"@,
                        word(
                            "AS"@,
                            word(
                                "i(hash,"@,
                                word(
                                    "ctx)"@,
                                    word("WHERE"@, word("EXISTS"@, word("("@, inner))),
                                ),
                            ),
                        ),
                    ),
                );
                word(
                    "SELECT"@,
                    word("i.hash,"@, word("i.ctx"@, word("FROM"@, given))),
                )
            },
            Command::Swap { alias, change, column, table, wanted, changed, otherwise } => {
                let told = word(
                    "END,"@,
                    word(
                        "EXISTS(SELECT"@,
                        word("1"@, word("FROM"@, word(alias + ")"@, rest))),
                    ),
                );
                let read = match otherwise {
                    Some(number) => word(
                        "COALESCE("@,
                        word(
                            "(SELECT"@,
                            word(
                                column.name(),
                                word(
                                    "FROM"@,
                                    word(
                                        table,
                                        word(
                                            "WHERE"@,
                                            all_of(
                                                wanted,
                                                0,
                                                "),"@,
                                                word(place(number), word(")"@, told)),
                                            ),
                                        ),
                                    ),
                                ),
                            ),
                        ),
                    ),
                    None => word(
                        "(SELECT"@,
                        word(
                            column.name(),
                            word(
                                "FROM"@,
                                word(table, word("WHERE"@, all_of(wanted, 0, ")"@, told))),
                            ),
                        ),
                    ),
                };
                let case = word(
                    "SELECT"@,
                    word(
                        "CASE"@,
                        word(
                            "WHEN"@,
                            word(
                                "EXISTS(SELECT"@,
                                word(
                                    "1"@,
                                    word(
                                        "FROM"@,
                                        word(
                                            alias + ")"@,
                                            word(
                                                "THEN"@,
                                                word(place(changed), word("ELSE"@, read)),
                                            ),
                                        ),
                                    ),
                                ),
                            ),
                        ),
                    ),
                );
                word(
                    "WITH"@,
                    word(
                        alias,
                        word(
                            "AS"@,
                            word(
                                "("@,
                                change.words(
                                    word("RETURNING"@, word(column.name(), word(")"@, case))),
                                ),
                            ),
                        ),
                    ),
                )
            },
        }
    }

    /// The number of parameters that the command takes.
    pub open spec fn arity(self) -> nat
        decreases self,
    {
        match self {
            Command::Create { .. } => 0,
            Command::Insert { columns, .. } => columns.len(),
            Command::Update { set, wanted, .. } => larger(
                highest_set(set, 0),
                highest(wanted, 0),
            ),
            Command::Delete { wanted, .. } => highest(wanted, 0),
            Command::Find { wanted, .. } => highest(wanted, 0),
            Command::Count { wanted, .. } => highest(wanted, 0),
            Command::Select { wanted, pairs, .. } => match pairs {
                Some(pairs) => larger(
                    highest(wanted, 0),
                    larger(pairs.first_number, pairs.second_number),
                ),
                None => highest(wanted, 0),
            },
            Command::Match { lists, number, .. } => larger(
                number,
                larger(lists.first_number, lists.second_number),
            ),
            Command::Swap { change, wanted, changed, otherwise, .. } => larger(
                larger(change.arity(), highest(wanted, 0)),
                larger(
                    changed,
                    match otherwise {
                        Some(number) => number,
                        None => 0,
                    },
                ),
            ),
        }
    }

    /// What comes of the command; nothing where Postgres refuses it.
    pub open spec fn run(self, params: Seq<SqlParamView>, database: Database) -> Option<Outcome>
        decreases self,
    {
        match self {
            Command::Create { table, declares, key, .. } => Some(
                Outcome {
                    database: if database.contains_key(table) {
                        database
                    } else {
                        database.insert(
                            table,
                            Relation {
                                columns: declared(declares, 0),
                                key: key.to_set().union(primaries(declares, 0)),
                                rows: Set::empty(),
                            },
                        )
                    },
                    changed: 0,
                    answer: Answer::Nothing,
                },
            ),
            Command::Insert { table, columns, conflict } => {
                let relation = database[table];
                let row = row_with(columns, 0, params);
                let target = match conflict {
                    Conflict::Ignore => relation.key,
                    Conflict::Skip(target) => target.to_set(),
                    Conflict::Replace(target, _) => target.to_set(),
                };
                let clashes = |r: Row| agree(r, row, relation.key);
                if !(database.contains_key(table) && insertable(columns, 0, params, relation)
                    && row.dom() =~= relation.columns.dom() && target =~= relation.key) {
                    None
                } else if exists|r: Row|
                    #[trigger] relation.rows.contains(r) && agree(r, row, relation.key) {
                    Some(
                        match conflict {
                            Conflict::Replace(_, replaced) => Outcome {
                                database: database.insert(
                                    table,
                                    Relation {
                                        rows: Set::new(
                                            |r: Row|
                                                (relation.rows.contains(r) && !agree(
                                                    r,
                                                    row,
                                                    relation.key,
                                                )) || exists|old: Row|
                                                    #[trigger] relation.rows.contains(old)
                                                        && agree(old, row, relation.key) && r
                                                        == overwritten(replaced, 0, old, row),
                                        ),
                                        ..relation
                                    },
                                ),
                                changed: relation.rows.filter(clashes).len(),
                                answer: Answer::Nothing,
                            },
                            _ => Outcome { database, changed: 0, answer: Answer::Nothing },
                        },
                    )
                } else {
                    Some(
                        Outcome {
                            database: database.insert(
                                table,
                                Relation { rows: relation.rows.insert(row), ..relation },
                            ),
                            changed: 1,
                            answer: Answer::Nothing,
                        },
                    )
                }
            },
            Command::Update { table, set, wanted } => {
                let relation = database[table];
                if database.contains_key(table) && settable(set, 0, params, relation) && askable(
                    wanted,
                    0,
                    params,
                    relation,
                ) {
                    Some(
                        Outcome {
                            database: database.insert(
                                table,
                                Relation {
                                    rows: Set::new(
                                        |r: Row|
                                            (relation.rows.contains(r) && !meets(
                                                wanted,
                                                0,
                                                params,
                                                r,
                                            )) || exists|old: Row|
                                                #[trigger] relation.rows.contains(old) && meets(
                                                    wanted,
                                                    0,
                                                    params,
                                                    old,
                                                ) && r == row_set(set, 0, params, old),
                                    ),
                                    ..relation
                                },
                            ),
                            changed: relation.rows.filter(
                                |r: Row| meets(wanted, 0, params, r),
                            ).len(),
                            answer: Answer::Nothing,
                        },
                    )
                } else {
                    None
                }
            },
            Command::Delete { table, wanted } => {
                let relation = database[table];
                if database.contains_key(table) && askable(wanted, 0, params, relation) {
                    Some(
                        Outcome {
                            database: database.insert(
                                table,
                                Relation {
                                    rows: relation.rows.filter(
                                        |r: Row| !meets(wanted, 0, params, r),
                                    ),
                                    ..relation
                                },
                            ),
                            changed: relation.rows.filter(
                                |r: Row| meets(wanted, 0, params, r),
                            ).len(),
                            answer: Answer::Nothing,
                        },
                    )
                } else {
                    None
                }
            },
            Command::Find { table, wanted } => {
                let relation = database[table];
                if database.contains_key(table) && askable(wanted, 0, params, relation) {
                    Some(
                        Outcome {
                            database,
                            changed: 0,
                            answer: Answer::Found(
                                exists|r: Row|
                                    #[trigger] relation.rows.contains(r) && meets(
                                        wanted,
                                        0,
                                        params,
                                        r,
                                    ),
                            ),
                        },
                    )
                } else {
                    None
                }
            },
            Command::Count { table, wanted } => {
                let relation = database[table];
                if database.contains_key(table) && askable(wanted, 0, params, relation) {
                    Some(
                        Outcome {
                            database,
                            changed: 0,
                            answer: Answer::Count(
                                relation.rows.filter(|r: Row| meets(wanted, 0, params, r)).len(),
                            ),
                        },
                    )
                } else {
                    None
                }
            },
            Command::Select { table, columns, wanted, filled, pairs } => {
                let relation = database[table];
                let known = forall|i: int|
                    0 <= i < columns.len() ==> relation.columns.contains_key(
                        #[trigger] columns[i],
                    );
                if database.contains_key(table) && known && askable(wanted, 0, params, relation)
                    && (pairs matches Some(pairs) ==> pairs.usable(params)) && (
                filled matches Some(column) ==> relation.columns.contains_key(column)) {
                    Some(
                        Outcome {
                            database,
                            changed: 0,
                            answer: Answer::Rows(
                                Map::new(
                                    |r: Row|
                                        relation.rows.contains(r) && meets(wanted, 0, params, r)
                                            && (pairs matches Some(pairs) ==> pairs.among(
                                            params,
                                            r,
                                        )),
                                    |r: Row| cells(columns, 0, r),
                                ),
                            ),
                        },
                    )
                } else {
                    None
                }
            },
            Command::Match { table, lists, fixed, number } => {
                let relation = database[table];
                let firsts = bound(params, lists.first_number)->ByteList_0;
                let seconds = bound(params, lists.second_number)->ByteList_0;
                if database.contains_key(table) && lists.usable(params) && usable(
                    relation,
                    params,
                    fixed,
                    number,
                ) {
                    Some(
                        Outcome {
                            database,
                            changed: 0,
                            answer: Answer::Pairs(
                                Set::new(
                                    |pair: (Seq<u8>, Seq<u8>)|
                                        exists|i: int, r: Row|
                                            0 <= i < firsts.len() && pair == (
                                                firsts[i],
                                                seconds[i],
                                            ) && #[trigger] relation.rows.contains(r)
                                                && #[trigger] lists.at(params, r, i) && r[fixed]
                                                == bound(params, number),
                                ),
                            ),
                        },
                    )
                } else {
                    None
                }
            },
            Command::Swap { change, column, table, wanted, changed, otherwise, .. } => {
                let relation = database[table];
                match change.run(params, database) {
                    Some(inner) => if database.contains_key(table) && askable(
                        wanted,
                        0,
                        params,
                        relation,
                    ) && relation.columns.contains_key(column) && usable(
                        relation,
                        params,
                        column,
                        changed,
                    ) && (otherwise matches Some(number) ==> usable(
                        relation,
                        params,
                        column,
                        number,
                    )) {
                        Some(
                            Outcome {
                                database: inner.database,
                                changed: inner.changed,
                                answer: Answer::Swapped(
                                    if inner.changed > 0 {
                                        Some(bound(params, changed))
                                    } else if exists|r: Row|
                                        #[trigger] picked(relation, wanted, params, r) {
                                        Some(
                                            (choose|r: Row|
                                                #[trigger] picked(
                                                    relation,
                                                    wanted,
                                                    params,
                                                    r,
                                                ))[column],
                                        )
                                    } else {
                                        match otherwise {
                                            Some(number) => Some(bound(params, number)),
                                            None => None,
                                        }
                                    },
                                    inner.changed > 0,
                                ),
                            },
                        )
                    } else {
                        None
                    },
                    None => None,
                }
            },
        }
    }
}

/// The statement asks for the command, and this comes of it.
pub open spec fn comes_of(
    command: Command,
    sql: SqlStatementView,
    database: Database,
    outcome: Outcome,
) -> bool {
    &&& spells(sql.text, command.words(Words::End))
    &&& sql.params.len() == command.arity()
    &&& command.run(sql.params, database) == Some(outcome)
}

/// Executing the statement on the tables has this outcome.
pub open spec fn executes(sql: SqlStatementView, database: Database, outcome: Outcome) -> bool {
    exists|command: Command| #[trigger] comes_of(command, sql, database, outcome)
}

} // verus!
