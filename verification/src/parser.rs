//! Reading a command line as a statement.
//!
//! The first word of a line names the operation, whatever the case of its
//! letters; the second is the key; what follows is the value. The keywords
//! are ASCII words, and only ASCII capitals are folded to match them.
//!
//! The meaning of a line is the spec function [`parse`], which
//! [`Statement::prep`] computes. What a line gives cause to report is
//! [`diagnosis`], which [`Statement::prep_with_diagnostic`] hands out beside
//! the statement; nothing here prints.

use crate::words::{join, joined, split_words, texts, tokens, trim, trimmed};
use vstd::prelude::*;
use vstd::slice::slice_subrange;

verus! {

/// What a statement asks of the store.
#[derive(Clone, Copy, Debug, PartialEq, Eq, Structural)]
pub enum StatementType {
    /// Store a value under a key: `SET` and its synonyms.
    Put,
    /// Read the value under a key: `GET` and its synonyms.
    Get,
    /// Remove a key and its value: `DEL` and its synonyms.
    Del,
    /// The line names no operation.
    Unk,
    /// The line names an operation and lacks what the operation needs.
    Fail,
}

/// The small letter for an ASCII capital; any other character as it is.
pub open spec fn fold_case(c: char) -> char {
    if 'A' <= c <= 'Z' {
        ((c as u8) + 32) as char
    } else {
        c
    }
}

/// `word` with each ASCII capital replaced by its small letter.
pub open spec fn folded(word: Seq<char>) -> Seq<char> {
    Seq::new(word.len(), |k: int| fold_case(word[k]))
}

/// The words that ask to store a value.
pub open spec fn is_put_word(w: Seq<char>) -> bool {
    w == "set"@ || w == "put"@ || w == "insert"@ || w == "in"@ || w == "i"@
}

/// The words that ask to read a value.
pub open spec fn is_get_word(w: Seq<char>) -> bool {
    w == "get"@ || w == "select"@ || w == "output"@ || w == "out"@ || w == "o"@
}

/// The words that ask to remove a key.
pub open spec fn is_del_word(w: Seq<char>) -> bool {
    w == "del"@ || w == "delete"@ || w == "rem"@ || w == "remove"@ || w == "rm"@ || w == "d"@
}

/// The operation that `word` names: the keyword tables are searched for
/// `word` in small letters, and a word in none of them names nothing.
pub open spec fn keyword_kind(word: Seq<char>) -> StatementType {
    let w = folded(word);
    if is_put_word(w) {
        StatementType::Put
    } else if is_get_word(w) {
        StatementType::Get
    } else if is_del_word(w) {
        StatementType::Del
    } else {
        StatementType::Unk
    }
}

/// The small letter for `c` where `c` is an ASCII capital.
fn fold(c: char) -> (r: char)
    ensures
        r == fold_case(c),
{
    if 'A' <= c && c <= 'Z' {
        ((c as u8) + 32) as char
    } else {
        c
    }
}

/// `word` in small letters.
fn fold_word(word: &str) -> (w: Vec<char>)
    ensures
        w@ == folded(word@),
{
    let mut w: Vec<char> = Vec::new();
    for c in it: word.chars()
        invariant
            it.seq() == word@,
            w@.len() == it.index(),
            forall|j: int| 0 <= j < w@.len() ==> w@[j] == fold_case(word@[j]),
    {
        w.push(fold(c));
    }
    w
}

/// Whether the characters of `w` are those of `keyword`.
fn spells(w: &Vec<char>, keyword: &str) -> (b: bool)
    ensures
        b == (w@ == keyword@),
{
    let mut same: bool = true;
    let mut k: usize = 0;
    for c in it: keyword.chars()
        invariant
            it.seq() == keyword@,
            same ==> k == it.index() && k <= w@.len(),
            same ==> forall|j: int| 0 <= j < k ==> w@[j] == keyword@[j],
            !same ==> w@ != keyword@,
    {
        if same {
            if k < w.len() && w[k] == c {
                k = k + 1;
            } else {
                same = false;
            }
        }
    }
    proof {
        if same && k == w@.len() {
            assert(w@ =~= keyword@);
        }
    }
    same && k == w.len()
}

impl StatementType {
    /// The operation that `word` names.
    pub fn check(word: &str) -> (kind: Self)
        ensures
            kind == keyword_kind(word@),
    {
        let w = fold_word(word);
        if spells(&w, "set") || spells(&w, "put") || spells(&w, "insert") || spells(&w, "in")
            || spells(&w, "i") {
            Self::Put
        } else if spells(&w, "get") || spells(&w, "select") || spells(&w, "output") || spells(
            &w,
            "out",
        ) || spells(&w, "o") {
            Self::Get
        } else if spells(&w, "del") || spells(&w, "delete") || spells(&w, "rem") || spells(
            &w,
            "remove",
        ) || spells(&w, "rm") || spells(&w, "d") {
            Self::Del
        } else {
            Self::Unk
        }
    }

    /// The word by which messages call this operation.
    pub open spec fn word(self) -> Seq<char> {
        match self {
            Self::Put => "SET"@,
            Self::Get => "GET"@,
            Self::Del => "DEL"@,
            _ => "Unknown"@,
        }
    }

    /// The word by which messages call this operation.
    pub fn get_word(&self) -> (word: String)
        ensures
            word@ == self.word(),
    {
        match self {
            Self::Put => "SET".to_string(),
            Self::Get => "GET".to_string(),
            Self::Del => "DEL".to_string(),
            _ => "Unknown".to_string(),
        }
    }
}

/// A command line, read.
#[derive(Debug, PartialEq, Eq)]
pub struct Statement {
    /// The operation.
    pub stype: StatementType,
    /// The key: there for `Put`, `Get` and `Del`.
    pub key: Option<String>,
    /// The value: there for `Put`.
    pub value: Option<String>,
}

/// What a [`Statement`] holds, with texts as sequences of characters.
pub struct StatementView {
    pub stype: StatementType,
    pub key: Option<Seq<char>>,
    pub value: Option<Seq<char>>,
}

impl StatementView {
    /// A statement carries what its operation needs and nothing besides:
    /// `Put` a key and a value, `Get` and `Del` a key, `Unk` and `Fail`
    /// neither.
    pub open spec fn well_formed(self) -> bool {
        match self.stype {
            StatementType::Put => self.key is Some && self.value is Some,
            StatementType::Get | StatementType::Del => self.key is Some && self.value is None,
            StatementType::Unk | StatementType::Fail => self.key is None && self.value is None,
        }
    }
}

/// The text of an optional string.
pub open spec fn text_of(s: Option<String>) -> Option<Seq<char>> {
    match s {
        Some(s) => Some(s@),
        None => None,
    }
}

impl View for Statement {
    type V = StatementView;

    open spec fn view(&self) -> StatementView {
        StatementView { stype: self.stype, key: text_of(self.key), value: text_of(self.value) }
    }
}

/// What the reading of a line has to report besides the statement.
#[derive(Debug, PartialEq, Eq)]
pub enum Diagnostic {
    /// The operation needs a key and the line has none: the statement fails.
    KeyMissing { operation: StatementType },
    /// The operation needs a value and the line has none: the statement
    /// fails.
    ValueMissing { operation: StatementType },
    /// The operation takes a key only: the rest of the line, `ignored`, was
    /// passed over, and the statement stands.
    InputIgnored { ignored: String },
}

/// What a [`Diagnostic`] holds, with texts as sequences of characters.
pub enum DiagnosticView {
    KeyMissing { operation: StatementType },
    ValueMissing { operation: StatementType },
    InputIgnored { ignored: Seq<char> },
}

impl View for Diagnostic {
    type V = DiagnosticView;

    open spec fn view(&self) -> DiagnosticView {
        match *self {
            Diagnostic::KeyMissing { operation } => DiagnosticView::KeyMissing { operation },
            Diagnostic::ValueMissing { operation } => DiagnosticView::ValueMissing { operation },
            Diagnostic::InputIgnored { ignored } => DiagnosticView::InputIgnored {
                ignored: ignored@,
            },
        }
    }
}

/// What an optional diagnostic holds.
pub open spec fn report_of(d: Option<Diagnostic>) -> Option<DiagnosticView> {
    match d {
        Some(d) => Some(d@),
        None => None,
    }
}

/// The operation that a line of these words names: that of its first word.
/// A line without words names none.
pub open spec fn operation(words: Seq<Seq<char>>) -> StatementType {
    if words.len() == 0 {
        StatementType::Unk
    } else {
        keyword_kind(words[0])
    }
}

/// What follows the key: the words from the third on, with one space between
/// neighbours and no whitespace at either end.
pub open spec fn rest_text(words: Seq<Seq<char>>) -> Seq<char> {
    trimmed(joined(words.skip(2)))
}

/// The statement that is neither operation nor failure.
pub open spec fn unknown() -> StatementView {
    StatementView { stype: StatementType::Unk, key: None, value: None }
}

/// The statement of a line that names an operation and lacks an argument.
pub open spec fn failure() -> StatementView {
    StatementView { stype: StatementType::Fail, key: None, value: None }
}

/// The statement that `line` stands for.
///
/// `Put` needs a key and a value, so three words at least; `Get` and `Del`
/// need a key, so two, and pass over the rest. With fewer words the line
/// fails. A line that names no operation is unknown, whatever follows.
pub open spec fn parse(line: Seq<char>) -> StatementView {
    let words = tokens(line);
    match operation(words) {
        StatementType::Put => if words.len() >= 3 {
            StatementView {
                stype: StatementType::Put,
                key: Some(words[1]),
                value: Some(rest_text(words)),
            }
        } else {
            failure()
        },
        StatementType::Get => if words.len() >= 2 {
            StatementView { stype: StatementType::Get, key: Some(words[1]), value: None }
        } else {
            failure()
        },
        StatementType::Del => if words.len() >= 2 {
            StatementView { stype: StatementType::Del, key: Some(words[1]), value: None }
        } else {
            failure()
        },
        _ => unknown(),
    }
}

/// What the reading of `line` reports: at most one thing.
///
/// A `Put` without value reports the value missing, also where the key is
/// missing too. A `Get` or `Del` without key reports the key missing; one
/// with more than a key reports what it passed over.
pub open spec fn diagnosis(line: Seq<char>) -> Option<DiagnosticView> {
    let words = tokens(line);
    let kind = operation(words);
    match kind {
        StatementType::Put => if words.len() < 3 {
            Some(DiagnosticView::ValueMissing { operation: kind })
        } else {
            None
        },
        StatementType::Get | StatementType::Del => if words.len() < 2 {
            Some(DiagnosticView::KeyMissing { operation: kind })
        } else if words.len() > 2 {
            Some(DiagnosticView::InputIgnored { ignored: rest_text(words) })
        } else {
            None
        },
        _ => None,
    }
}

impl Statement {
    /// Reads `cmd`, and says what there is to report about it.
    pub fn prep_with_diagnostic(cmd: &String) -> (out: (Self, Option<Diagnostic>))
        ensures
            out.0@ == parse(cmd@),
            out.0@.well_formed(),
            report_of(out.1) == diagnosis(cmd@),
    {
        let words = split_words(cmd.as_str());
        let stype = if words.len() == 0 {
            StatementType::Unk
        } else {
            StatementType::check(words[0])
        };
        // What the line offers as key and as value.
        let key_candidate: Option<String> = if words.len() > 1 {
            Some(words[1].to_string())
        } else {
            None
        };
        let value_candidate: Option<String> = if words.len() > 2 {
            let rest = join(slice_subrange(words.as_slice(), 2, words.len()));
            proof {
                assert(texts(words@.subrange(2, words@.len() as int)) == tokens(cmd@).skip(2));
            }
            Some(trim(rest.as_str()).to_string())
        } else {
            None
        };
        // What the operation takes of it.
        let key: Option<String>;
        let value: Option<String>;
        let diagnostic: Option<Diagnostic>;
        match stype {
            StatementType::Put => {
                diagnostic = if value_candidate.is_none() {
                    Some(Diagnostic::ValueMissing { operation: stype })
                } else {
                    None
                };
                key = key_candidate;
                value = value_candidate;
            },
            StatementType::Get | StatementType::Del => {
                diagnostic = if key_candidate.is_none() {
                    Some(Diagnostic::KeyMissing { operation: stype })
                } else {
                    match value_candidate {
                        Some(ignored) => Some(Diagnostic::InputIgnored { ignored }),
                        None => None,
                    }
                };
                key = key_candidate;
                value = None;
            },
            _ => {
                diagnostic = None;
                key = None;
                value = None;
            },
        }
        // A known operation without its key, or a `Put` without its value,
        // fails as a whole.
        let lacks_value = stype == StatementType::Put && value.is_none();
        let lacks_key = stype != StatementType::Unk && key.is_none();
        let statement = if lacks_value || lacks_key {
            Statement { stype: StatementType::Fail, key: None, value: None }
        } else {
            Statement { stype, key, value }
        };
        (statement, diagnostic)
    }

    /// Reads `cmd`.
    pub fn prep(cmd: &String) -> (statement: Self)
        ensures
            statement@ == parse(cmd@),
            statement@.well_formed(),
    {
        Self::prep_with_diagnostic(cmd).0
    }
}

/// Letter case does not matter to a keyword: two words that are alike but
/// for the case of their ASCII letters name the same operation.
pub proof fn lemma_keyword_ignores_case(a: Seq<char>, b: Seq<char>)
    requires
        a.len() == b.len(),
        forall|k: int| 0 <= k < a.len() ==> fold_case(a[k]) == fold_case(b[k]),
    ensures
        keyword_kind(a) == keyword_kind(b),
{
    assert(folded(a) =~= folded(b));
}

/// The three keyword tables share no word, so a word of a table names that
/// table's operation, however its letters are cased.
pub proof fn lemma_keywords_classified(word: Seq<char>)
    ensures
        is_put_word(folded(word)) <==> keyword_kind(word) == StatementType::Put,
        is_get_word(folded(word)) <==> keyword_kind(word) == StatementType::Get,
        is_del_word(folded(word)) <==> keyword_kind(word) == StatementType::Del,
        keyword_kind(word) != StatementType::Fail,
{
    reveal_strlit("set");
    reveal_strlit("put");
    reveal_strlit("insert");
    reveal_strlit("in");
    reveal_strlit("i");
    reveal_strlit("get");
    reveal_strlit("select");
    reveal_strlit("output");
    reveal_strlit("out");
    reveal_strlit("o");
    reveal_strlit("del");
    reveal_strlit("delete");
    reveal_strlit("rem");
    reveal_strlit("remove");
    reveal_strlit("rm");
    reveal_strlit("d");
    // No two keywords agree in both length and first letter.
    assert("set"@.len() == 3 && "set"@[0] == 's');
    assert("put"@.len() == 3 && "put"@[0] == 'p');
    assert("insert"@.len() == 6 && "insert"@[0] == 'i');
    assert("in"@.len() == 2 && "in"@[0] == 'i');
    assert("i"@.len() == 1 && "i"@[0] == 'i');
    assert("get"@.len() == 3 && "get"@[0] == 'g');
    assert("select"@.len() == 6 && "select"@[0] == 's');
    assert("output"@.len() == 6 && "output"@[0] == 'o');
    assert("out"@.len() == 3 && "out"@[0] == 'o');
    assert("o"@.len() == 1 && "o"@[0] == 'o');
    assert("del"@.len() == 3 && "del"@[0] == 'd');
    assert("delete"@.len() == 6 && "delete"@[0] == 'd');
    assert("rem"@.len() == 3 && "rem"@[0] == 'r');
    assert("remove"@.len() == 6 && "remove"@[0] == 'r');
    assert("rm"@.len() == 2 && "rm"@[0] == 'r');
    assert("d"@.len() == 1 && "d"@[0] == 'd');
}

/// Letter case in the first word does not matter to a line: two lines
/// whose first words are alike but for case, and whose other words are the
/// same, stand for the same statement and report the same.
pub proof fn lemma_parse_ignores_keyword_case(a: Seq<char>, b: Seq<char>)
    requires
        tokens(a).len() == tokens(b).len(),
        tokens(a).len() > 0 ==> folded(tokens(a)[0]) == folded(tokens(b)[0]),
        forall|k: int| 1 <= k < tokens(a).len() ==> tokens(a)[k] == tokens(b)[k],
    ensures
        parse(a) == parse(b),
        diagnosis(a) == diagnosis(b),
{
    if tokens(a).len() >= 3 {
        let (rest_a, rest_b) = (tokens(a).skip(2), tokens(b).skip(2));
        assert forall|k: int| 0 <= k < rest_a.len() implies rest_a[k] == rest_b[k] by {
            assert(tokens(a)[k + 2] == tokens(b)[k + 2]);
        }
        assert(rest_a =~= rest_b);
    }
}

/// Every line stands for a well-formed statement.
pub proof fn lemma_parse_well_formed(line: Seq<char>)
    ensures
        parse(line).well_formed(),
{
}

/// A line fails exactly where its operation is known and lacks an argument:
/// a `Put` with fewer than three words, or any known operation with fewer
/// than two. A line that does not fail keeps the operation it names.
pub proof fn lemma_failure_rule(line: Seq<char>)
    ensures
        parse(line).stype == StatementType::Fail <==> {
            let words = tokens(line);
            ||| operation(words) == StatementType::Put && words.len() < 3
            ||| operation(words) != StatementType::Unk && words.len() < 2
        },
        parse(line).stype != StatementType::Fail ==> parse(line).stype == operation(tokens(line)),
{
}

/// A line fails exactly where a missing key or a missing value is reported;
/// what else is reported comes with a statement that stands.
pub proof fn lemma_failure_is_reported(line: Seq<char>)
    ensures
        parse(line).stype == StatementType::Fail <==> (diagnosis(line) is Some && !(
        diagnosis(line)->0 is InputIgnored)),
        diagnosis(line) matches Some(DiagnosticView::KeyMissing { operation }) ==> operation
            == StatementType::Get || operation == StatementType::Del,
        diagnosis(line) matches Some(DiagnosticView::ValueMissing { operation }) ==> operation
            == StatementType::Put,
{
}

} // verus!
