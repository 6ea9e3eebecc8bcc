//! Typed failure values carrying a file location, and the source-file
//! bookkeeping used to render them for the console. Every failure is a
//! value of a closed set of kinds; rendering produces a `String` whose
//! exact contents the contracts state, and the caller that owns the
//! console writes it out.

use vstd::prelude::*;
use vstd::string::StrSliceExecFns;
use vstd::string::StringExecFns;

use crate::text::{dec_digits, push_char, usize_to_string};

verus! {

/// The closed set of failure kinds. The file kinds carry the textual
/// classification of the underlying OS error, captured as text at the
/// boundary that performed the I/O.
#[derive(Debug)]
#[allow(inconsistent_fields)]
pub enum ErrorKind {
    FileOpenFailure { filename: String, rust_err: String },
    FileReadFailure { filename: String, line: usize, rust_err: String },
    UnexpectedToken { found: String, expected: Vec<String> },
    NoBinding { name: String },
    BindingExists { name: String },
    ITypeMismatch { found: String, expected: String },
    MTypeMismatch { found: String, expected: String },
    UnboundImplication,
    UnboundTheorem,
}

/// The name under which a failure kind is reported.
pub open spec fn error_kind_name(k: ErrorKind) -> Seq<char> {
    match k {
        ErrorKind::FileOpenFailure { .. } => "FileOpenFailure"@,
        ErrorKind::FileReadFailure { .. } => "FileReadFailure"@,
        ErrorKind::UnexpectedToken { .. } => "UnexpectedToken"@,
        ErrorKind::NoBinding { .. } => "NoBinding"@,
        ErrorKind::BindingExists { .. } => "BindingExists"@,
        ErrorKind::ITypeMismatch { .. } => "ITypeMismatch"@,
        ErrorKind::MTypeMismatch { .. } => "MTypeMismatch"@,
        ErrorKind::UnboundImplication => "UnboundImplication"@,
        ErrorKind::UnboundTheorem => "UnboundTheorem"@,
    }
}

/// The views of a sequence of strings, elementwise.
pub open spec fn string_views(items: Seq<String>) -> Seq<Seq<char>> {
    items.map_values(|s: String| s@)
}

/// A comma-separated list of double-quoted items, as the expected-token
/// set of an `UnexpectedToken` failure is listed.
pub open spec fn quoted_list(items: Seq<Seq<char>>) -> Seq<char>
    decreases items.len(),
{
    if items.len() == 0 {
        Seq::empty()
    } else if items.len() == 1 {
        "\""@ + items[0] + "\""@
    } else {
        quoted_list(items.drop_last()) + ", "@ + "\""@ + items.last() + "\""@
    }
}

/// The human-readable message of each failure kind.
pub open spec fn error_message(k: ErrorKind) -> Seq<char> {
    match k {
        ErrorKind::FileOpenFailure { filename, rust_err } => "could not open source file \""@
            + filename@ + "\" because of error `"@ + rust_err@ + "`"@,
        ErrorKind::FileReadFailure { filename, line, rust_err } => "could not read source file \""@
            + filename@ + "\" at line "@ + dec_digits(line as int) + " because of error `"@
            + rust_err@ + "`"@,
        ErrorKind::UnexpectedToken { found, expected } => "found token \""@ + found@
            + "\", expected one of ["@ + quoted_list(string_views(expected@)) + "]"@,
        ErrorKind::NoBinding { name } => "no binding found for `"@ + name@ + "`"@,
        ErrorKind::BindingExists { name } => "duplicate binding of `"@ + name@ + "`"@,
        ErrorKind::ITypeMismatch { found, expected } => "found type `"@ + found@
            + "`, expected type `"@ + expected@ + "`"@,
        ErrorKind::MTypeMismatch { found, expected } => "found metalogical type `"@ + found@
            + "`, expected metalogical type `"@ + expected@ + "`"@,
        ErrorKind::UnboundImplication => "implication between non-nullary formulae"@,
        ErrorKind::UnboundTheorem => "axiom/theorem accepts logical arguments"@,
    }
}

/// A place in a source file: name, line and column.
#[derive(Debug)]
pub struct FileLocation {
    pub filename: String,
    pub line: usize,
    pub col: usize,
}

/// The `name:line:col` rendering of a file location.
pub open spec fn file_location_string(l: FileLocation) -> Seq<char> {
    l.filename@ + ":"@ + dec_digits(l.line as int) + ":"@ + dec_digits(l.col as int)
}

impl Clone for FileLocation {
    fn clone(&self) -> (res: Self)
        ensures
            res == *self,
    {
        FileLocation { filename: self.filename.clone(), line: self.line, col: self.col }
    }
}

impl FileLocation {
    pub fn new(filename: &str, line: usize, col: usize) -> (r: FileLocation)
        ensures
            r.filename@ == filename@,
            r.line == line,
            r.col == col,
    {
        FileLocation { filename: String::from_str(filename), line, col }
    }

    pub fn full_string(&self) -> (r: String)
        ensures
            r@ == file_location_string(*self),
    {
        let mut s = self.filename.clone();
        s.append(":");
        s.append(usize_to_string(self.line).as_str());
        s.append(":");
        s.append(usize_to_string(self.col).as_str());
        s
    }
}

/// A failure: a kind and the place it was raised.
pub struct Error {
    pub error: ErrorKind,
    pub location: FileLocation,
}

/// Step equation for building a quoted list left to right.
proof fn lemma_quoted_list_take(items: Seq<Seq<char>>, j: int)
    requires
        1 <= j <= items.len(),
    ensures
        quoted_list(items.take(j)) == if j == 1 {
            "\""@ + items[0] + "\""@
        } else {
            quoted_list(items.take(j - 1)) + ", "@ + "\""@ + items[j - 1] + "\""@
        },
{
    let t = items.take(j);
    assert(t.drop_last() =~= items.take(j - 1));
    assert(t.last() == items[j - 1]);
}

impl Error {
    pub fn new(error: ErrorKind, location: &FileLocation) -> (r: Error)
        ensures
            r.error == error,
            r.location == *location,
    {
        Error { error, location: location.clone() }
    }

    /// The `name:line:col` place of the failure.
    pub fn location_string(&self) -> (r: String)
        ensures
            r@ == file_location_string(self.location),
    {
        self.location.full_string()
    }

    /// The name of the failure's kind.
    pub fn err_type(&self) -> (r: &'static str)
        ensures
            r@ == error_kind_name(self.error),
    {
        match self.error {
            ErrorKind::FileOpenFailure { .. } => "FileOpenFailure",
            ErrorKind::FileReadFailure { .. } => "FileReadFailure",
            ErrorKind::UnexpectedToken { .. } => "UnexpectedToken",
            ErrorKind::NoBinding { .. } => "NoBinding",
            ErrorKind::BindingExists { .. } => "BindingExists",
            ErrorKind::ITypeMismatch { .. } => "ITypeMismatch",
            ErrorKind::MTypeMismatch { .. } => "MTypeMismatch",
            ErrorKind::UnboundImplication => "UnboundImplication",
            ErrorKind::UnboundTheorem => "UnboundTheorem",
        }
    }

    /// The failure's message, exactly as `error_message` states it.
    pub fn message(&self) -> (r: String)
        ensures
            r@ == error_message(self.error),
    {
        match &self.error {
            ErrorKind::FileOpenFailure { filename, rust_err } => {
                let mut s = String::from_str("could not open source file \"");
                s.append(filename.as_str());
                s.append("\" because of error `");
                s.append(rust_err.as_str());
                s.append("`");
                s
            },
            ErrorKind::FileReadFailure { filename, line, rust_err } => {
                let mut s = String::from_str("could not read source file \"");
                s.append(filename.as_str());
                s.append("\" at line ");
                s.append(usize_to_string(*line).as_str());
                s.append(" because of error `");
                s.append(rust_err.as_str());
                s.append("`");
                s
            },
            ErrorKind::UnexpectedToken { found, expected } => {
                let mut s = String::from_str("found token \"");
                s.append(found.as_str());
                s.append("\", expected one of [");
                let ghost items = string_views(expected@);
                let mut i: usize = 0;
                while i < expected.len()
                    invariant
                        i <= expected.len(),
                        items == string_views(expected@),
                        items.len() == expected@.len(),
                        forall|j: int| 0 <= j < items.len() ==> items[j] == expected@[j]@,
                        s@ == "found token \""@ + found@ + "\", expected one of ["@
                            + quoted_list(items.take(i as int)),
                    decreases expected.len() - i,
                {
                    if i > 0 {
                        s.append(", ");
                    }
                    s.append("\"");
                    s.append(expected[i].as_str());
                    s.append("\"");
                    proof {
                        lemma_quoted_list_take(items, i + 1);
                        assert(s@ =~= "found token \""@ + found@ + "\", expected one of ["@
                            + quoted_list(items.take(i + 1)));
                    }
                    i = i + 1;
                }
                proof {
                    assert(items.take(expected@.len() as int) =~= items);
                }
                s.append("]");
                s
            },
            ErrorKind::NoBinding { name } => {
                let mut s = String::from_str("no binding found for `");
                s.append(name.as_str());
                s.append("`");
                s
            },
            ErrorKind::BindingExists { name } => {
                let mut s = String::from_str("duplicate binding of `");
                s.append(name.as_str());
                s.append("`");
                s
            },
            ErrorKind::ITypeMismatch { found, expected } => {
                let mut s = String::from_str("found type `");
                s.append(found.as_str());
                s.append("`, expected type `");
                s.append(expected.as_str());
                s.append("`");
                s
            },
            ErrorKind::MTypeMismatch { found, expected } => {
                let mut s = String::from_str("found metalogical type `");
                s.append(found.as_str());
                s.append("`, expected metalogical type `");
                s.append(expected.as_str());
                s.append("`");
                s
            },
            ErrorKind::UnboundImplication => String::from_str(
                "implication between non-nullary formulae",
            ),
            ErrorKind::UnboundTheorem => String::from_str("axiom/theorem accepts logical arguments"),
        }
    }

    /// The full console rendering, source excerpt included: the caller
    /// that owns the console writes the returned text out.
    pub fn to_console(&self, source: &SourceInfo) -> (r: String)
        requires
            self.location.line < source.lines@.len(),
        ensures
            r@ == "At "@ + file_location_string(self.location) + ":\n"@ + excerpt_text(
                *source,
                self.location,
            ) + error_kind_name(self.error) + " : "@ + error_message(self.error) + "\n"@,
    {
        let mut s = String::from_str("At ");
        s.append(self.location_string().as_str());
        s.append(":\n");
        s.append(excerpt(source, &self.location).as_str());
        s.append(self.err_type());
        s.append(" : ");
        s.append(self.message().as_str());
        s.append("\n");
        s
    }

    /// The console rendering used when the source text is not at hand.
    pub fn to_console_noexcerpt(&self) -> (r: String)
        ensures
            r@ == "At "@ + file_location_string(self.location) + ":\n"@ + error_kind_name(
                self.error,
            ) + " : "@ + error_message(self.error) + "\n"@,
    {
        let mut s = String::from_str("At ");
        s.append(self.location_string().as_str());
        s.append(":\n");
        s.append(self.err_type());
        s.append(" : ");
        s.append(self.message().as_str());
        s.append("\n");
        s
    }
}

/// The byte length of a line of text, UTF-8 encoded.
pub open spec fn line_bytes(s: Seq<char>) -> int {
    vstd::utf8::encode_utf8(s).len() as int
}

/// The total byte length of a sequence of lines.
pub open spec fn total_bytes(lines: Seq<String>) -> int
    decreases lines.len(),
{
    if lines.len() == 0 {
        0
    } else {
        total_bytes(lines.drop_last()) + line_bytes(lines.last()@)
    }
}

/// Byte totals of prefixes are non-negative and bounded by the whole.
proof fn lemma_total_bytes_take(lines: Seq<String>, j: int)
    requires
        0 <= j <= lines.len(),
    ensures
        0 <= total_bytes(lines.take(j)) <= total_bytes(lines),
    decreases lines.len(),
{
    if j == lines.len() {
        assert(lines.take(j) =~= lines);
        if lines.len() > 0 {
            lemma_total_bytes_take(lines.drop_last(), j - 1);
            assert(lines.drop_last().take(j - 1) =~= lines.drop_last());
        }
    } else {
        assert(lines.drop_last().take(j) =~= lines.take(j));
        lemma_total_bytes_take(lines.drop_last(), j);
    }
}

/// Step equation for prefix byte totals.
proof fn lemma_total_bytes_step(lines: Seq<String>, j: int)
    requires
        0 <= j < lines.len(),
    ensures
        total_bytes(lines.take(j + 1)) == total_bytes(lines.take(j)) + line_bytes(lines[j]@),
{
    let t = lines.take(j + 1);
    assert(t.drop_last() =~= lines.take(j));
    assert(t.last() == lines[j]);
}

/// The stored text of one source file: its name, its lines as read (line
/// terminators kept), and the running byte offsets of the line ends.
#[derive(Debug)]
pub struct SourceInfo {
    pub filename: String,
    pub lines: Vec<String>,
    pub len_so_far: Vec<usize>,
}

/// A character stripped of line terminators: a carriage return becomes a
/// zero-width space (so column markers keep their place), a line feed
/// disappears, anything else stands.
pub open spec fn clean_char(c: char) -> Seq<char> {
    if c == '\n' {
        Seq::empty()
    } else if c == '\r' {
        seq!['\u{200B}']
    } else {
        seq![c]
    }
}

/// A line of text with its terminators stripped as `clean_char` says.
pub open spec fn clean_line(s: Seq<char>) -> Seq<char>
    decreases s.len(),
{
    if s.len() == 0 {
        Seq::empty()
    } else {
        clean_line(s.drop_last()) + clean_char(s.last())
    }
}

impl SourceInfo {
    /// The stored offsets match the lines: one running total per line,
    /// each strictly above the one before it.
    pub open spec fn wf(self) -> bool {
        &&& self.len_so_far@.len() == self.lines@.len()
        &&& forall|i: int|
            0 <= i < self.lines@.len() ==> self.len_so_far@[i] == total_bytes(
                self.lines@.take(i + 1),
            )
        &&& forall|i: int, j: int|
            0 <= i < j < self.len_so_far@.len() ==> self.len_so_far@[i] < self.len_so_far@[j]
    }

    /// Builds the bookkeeping for one source file from its name and its
    /// lines, as a reader hands them out: every line keeps its
    /// terminator, and none is empty (a reader yields no empty chunk).
    pub fn from_lines(filename: String, lines: Vec<String>) -> (r: SourceInfo)
        requires
            forall|i: int| 0 <= i < lines@.len() ==> line_bytes(lines@[i]@) >= 1,
            total_bytes(lines@) <= usize::MAX,
        ensures
            r.filename == filename,
            r.lines == lines,
            r.wf(),
    {
        let mut len_so_far: Vec<usize> = Vec::new();
        let mut i: usize = 0;
        while i < lines.len()
            invariant
                i <= lines.len(),
                forall|k: int| 0 <= k < lines@.len() ==> line_bytes(lines@[k]@) >= 1,
                total_bytes(lines@) <= usize::MAX,
                len_so_far@.len() == i as int,
                forall|k: int|
                    0 <= k < i ==> len_so_far@[k] == total_bytes(lines@.take(k + 1)),
                forall|k: int, l: int| 0 <= k < l < i ==> len_so_far@[k] < len_so_far@[l],
            decreases lines.len() - i,
        {
            let partial_sum: usize = if i == 0 {
                0
            } else {
                len_so_far[i - 1]
            };
            proof {
                lemma_total_bytes_step(lines@, i as int);
                lemma_total_bytes_take(lines@, i + 1);
                lemma_total_bytes_take(lines@.take(i as int), i as int);
            }
            let amt = lines[i].as_str().len();
            len_so_far.push(partial_sum + amt);
            i = i + 1;
        }
        SourceInfo { filename, lines, len_so_far }
    }

    /// Turns a byte offset into a file location: the line whose span
    /// holds the offset, and the column within it. An offset that lands
    /// exactly on a stored line-end total is reported at column zero of
    /// that line; an offset beyond the last total is reported on the
    /// line after it.
    pub fn to_file_location(&self, index: usize) -> (r: FileLocation)
        requires
            self.wf(),
        ensures
            r.filename@ == self.filename@,
            (exists|k: int|
                0 <= k < self.len_so_far@.len() && self.len_so_far@[k] == index) ==> (
            r.line < self.len_so_far@.len() && self.len_so_far@[r.line as int] == index && r.col
                == 0),
            (forall|k: int|
                0 <= k < self.len_so_far@.len() ==> self.len_so_far@[k] != index) ==> {
                &&& r.line <= self.len_so_far@.len()
                &&& forall|k: int| 0 <= k < r.line ==> self.len_so_far@[k] < index
                &&& (r.line < self.len_so_far@.len() ==> self.len_so_far@[r.line as int] > index)
                &&& r.col == index - (if r.line == 0 {
                    0
                } else {
                    self.len_so_far@[r.line as int - 1] as int
                })
            },
    {
        let n = self.len_so_far.len();
        let mut i: usize = 0;
        while i < n && self.len_so_far[i] < index
            invariant
                i <= n,
                n == self.len_so_far@.len(),
                self.wf(),
                forall|k: int| 0 <= k < i ==> self.len_so_far@[k] < index,
            decreases n - i,
        {
            i = i + 1;
        }
        if i < n && self.len_so_far[i] == index {
            FileLocation::new(self.filename.as_str(), i, 0)
        } else {
            let base: usize = if i == 0 {
                0
            } else {
                self.len_so_far[i - 1]
            };
            FileLocation::new(self.filename.as_str(), i, index - base)
        }
    }

    /// One stored line with its terminators stripped as `clean_line`
    /// says.
    pub fn get_line(&self, lno: usize) -> (r: String)
        requires
            lno < self.lines@.len(),
        ensures
            r@ == clean_line(self.lines@[lno as int]@),
    {
        let line: &String = &self.lines[lno];
        let n = line.as_str().unicode_len();
        let mut s = String::new();
        let mut i: usize = 0;
        while i < n
            invariant
                i <= n,
                n == line@.len(),
                line == self.lines@[lno as int],
                lno < self.lines@.len(),
                s@ == clean_line(line@.take(i as int)),
            decreases n - i,
        {
            let c = line.as_str().get_char(i);
            if c == '\n' {
            } else if c == '\r' {
                push_char(&mut s, '\u{200B}');
            } else {
                push_char(&mut s, c);
            }
            proof {
                let t = line@.take(i + 1);
                assert(t.drop_last() =~= line@.take(i as int));
                assert(t.last() == line@[i as int]);
                assert(s@ =~= clean_line(line@.take(i + 1)));
            }
            i = i + 1;
        }
        proof {
            assert(line@.take(n as int) =~= line@);
        }
        s
    }
}

/// The excerpt block of a console rendering: the offending line and a
/// caret under the offending column.
pub open spec fn excerpt_text(source: SourceInfo, location: FileLocation) -> Seq<char> {
    "|\n|\t"@ + clean_line(source.lines@[location.line as int]@) + "\n|\t"@ + Seq::new(
        location.col as nat,
        |i: int| ' ',
    ) + "^\n"@
}

/// Renders the excerpt block.
pub fn excerpt(source: &SourceInfo, location: &FileLocation) -> (r: String)
    requires
        location.line < source.lines@.len(),
    ensures
        r@ == excerpt_text(*source, *location),
{
    let mut s = String::from_str("|\n|\t");
    s.append(source.get_line(location.line).as_str());
    s.append("\n|\t");
    let mut i: usize = 0;
    while i < location.col
        invariant
            i <= location.col,
            s@ == "|\n|\t"@ + clean_line(source.lines@[location.line as int]@) + "\n|\t"@
                + Seq::new(i as nat, |k: int| ' '),
        decreases location.col - i,
    {
        push_char(&mut s, ' ');
        proof {
            assert(Seq::new(i as nat, |k: int| ' ').push(' ') =~= Seq::new(
                (i + 1) as nat,
                |k: int| ' ',
            ));
        }
        i = i + 1;
    }
    s.append("^\n");
    proof {
        assert(s@ =~= excerpt_text(*source, *location));
    }
    s
}

} // verus!
