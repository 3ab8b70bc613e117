//! Patterns: text with colour placeholders, and how it is rendered.
use vstd::prelude::*;
use vstd::string::StringExecFns;
use crate::text::{
    chars_of,
    extension_of,
    file_extension,
    file_name,
    file_name_of,
    replace_all,
    replaced,
    string_of,
};

verus! {

/// What went wrong while showing a pattern.
#[derive(Debug, Clone, Copy, PartialEq, Eq, Structural)]
pub enum PatternErrorType {
    InvalidTOML,
    FileDoesNotExist,
    IOError,
}

impl PatternErrorType {
    /// The name of the kind, as it is shown to the user.
    pub open spec fn label(self) -> Seq<char> {
        match self {
            PatternErrorType::InvalidTOML => "InvalidTOML"@,
            PatternErrorType::FileDoesNotExist => "FileDoesNotExist"@,
            PatternErrorType::IOError => "IOError"@,
        }
    }

    /// The name of the kind, as it is shown to the user.
    pub fn name(&self) -> (s: &'static str)
        ensures
            s@ == self.label(),
    {
        match self {
            PatternErrorType::InvalidTOML => "InvalidTOML",
            PatternErrorType::FileDoesNotExist => "FileDoesNotExist",
            PatternErrorType::IOError => "IOError",
        }
    }
}

/// A failure to show a pattern: its kind and a message for the user.
#[derive(Debug)]
pub struct PatternError {
    e_type: PatternErrorType,
    message: String,
}

/// The view of an error: its kind and the characters of its message.
pub struct PatternErrorView {
    pub e_type: PatternErrorType,
    pub message: Seq<char>,
}

impl View for PatternError {
    type V = PatternErrorView;

    closed spec fn view(&self) -> PatternErrorView {
        PatternErrorView { e_type: self.e_type, message: self.message@ }
    }
}

impl PatternError {
    /// An error of kind `e_type` that carries `msg`.
    pub fn new(e_type: PatternErrorType, msg: &str) -> (e: Self)
        ensures
            e@ == (PatternErrorView { e_type, message: msg@ }),
    {
        PatternError { e_type, message: String::from_str(msg) }
    }

    /// The kind of the error.
    pub fn e_type(&self) -> (e_type: PatternErrorType)
        ensures
            e_type == self@.e_type,
    {
        self.e_type
    }

    /// The message of the error.
    pub fn message(&self) -> (message: &str)
        ensures
            message@ == self@.message,
    {
        self.message.as_str()
    }

    /// The error as it is shown to the user: its kind, a colon and a space,
    /// and its message.
    pub fn describe(&self) -> (text: String)
        ensures
            text@ == self@.e_type.label() + ": "@ + self@.message,
    {
        let mut text = String::from_str(self.e_type.name());
        text.append(": ");
        text.append(self.message.as_str());
        text
    }
}

/// The escape sequence that selects the graphic rendition `inner`.
pub open spec fn escape_code(inner: Seq<char>) -> Seq<char> {
    "\x1b["@ + inner + "m"@
}

/// The escape sequence that selects the graphic rendition `inner`.
pub fn make_escape_code(inner: &str) -> (code: String)
    ensures
        code@ == escape_code(inner@),
{
    let mut code = String::from_str("\x1b[");
    code.append(inner);
    code.append("m");
    code
}

/// The placeholder that stands for the colour `key` in a pattern.
pub open spec fn placeholder(key: Seq<char>) -> Seq<char> {
    "{"@ + key + "}"@
}

/// `text` after the placeholder of each of `colors` is replaced by the
/// escape sequence of its value, one colour after the other.
pub open spec fn painted(text: Seq<char>, colors: Seq<(Seq<char>, Seq<char>)>) -> Seq<char>
    decreases colors.len(),
{
    if colors.len() == 0 {
        text
    } else {
        replaced(
            painted(text, colors.drop_last()),
            placeholder(colors.last().0),
            escape_code(colors.last().1),
        )
    }
}

/// What a pattern draws: its text with the colours painted in, and then
/// every `{reset}` replaced by the escape sequence that resets the colours.
pub open spec fn drawn(text: Seq<char>, colors: Seq<(Seq<char>, Seq<char>)>) -> Seq<char> {
    replaced(painted(text, colors), "{reset}"@, escape_code("0"@))
}

/// Whether no key occurs twice in `colors`.
pub open spec fn distinct_keys(colors: Seq<(Seq<char>, Seq<char>)>) -> bool {
    forall|i: int, j: int|
        0 <= i < j < colors.len() ==> (#[trigger] colors[i]).0 != (#[trigger] colors[j]).0
}

/// The keys and values that a sequence of pairs of strings holds.
pub open spec fn pairs_of(v: Seq<(String, String)>) -> Seq<(Seq<char>, Seq<char>)> {
    Seq::new(v.len(), |i: int| (v[i].0@, v[i].1@))
}

/// A pattern, as the contracts see it.
pub struct PatternView {
    /// The colours, each a key and a graphic rendition, in the order they
    /// are painted in.
    pub colors: Seq<(Seq<char>, Seq<char>)>,
    /// The text, with a placeholder wherever a colour begins.
    pub pattern: Seq<char>,
}

/// A text with colour placeholders, and the colours that they stand for.
#[derive(Debug)]
pub struct Pattern {
    colors: Vec<(String, String)>,
    pattern: String,
}

impl View for Pattern {
    type V = PatternView;

    closed spec fn view(&self) -> PatternView {
        PatternView { colors: pairs_of(self.colors@), pattern: self.pattern@ }
    }
}

impl Pattern {
    #[verifier::type_invariant]
    spec fn keys_are_distinct(self) -> bool {
        distinct_keys(pairs_of(self.colors@))
    }

    /// The pattern with the text `pattern` and no colours yet.
    pub fn new(pattern: String) -> (p: Pattern)
        ensures
            p@.pattern == pattern@,
            p@.colors.len() == 0,
    {
        Pattern { colors: Vec::new(), pattern }
    }

    /// The pattern with the colour `key` given the graphic rendition
    /// `value`. A key that the pattern holds keeps its place and gets the new
    /// value; a new key comes last.
    pub fn with_color(self, key: String, value: String) -> (p: Pattern)
        ensures
            p@.pattern == self@.pattern,
            distinct_keys(self@.colors),
            distinct_keys(p@.colors),
            forall|i: int|
                0 <= i < self@.colors.len() && (#[trigger] self@.colors[i]).0 == key@
                    ==> p@.colors == self@.colors.update(i, (key@, value@)),
            (forall|i: int| 0 <= i < self@.colors.len() ==> (#[trigger] self@.colors[i]).0 != key@)
                ==> p@.colors == self@.colors.push((key@, value@)),
    {
        proof {
            use_type_invariant(&self);
        }
        let ghost before = pairs_of(self.colors@);
        let mut colors = self.colors;
        let mut i: usize = 0;
        while i < colors.len()
            invariant
                i <= colors.len(),
                pairs_of(colors@) == before,
                before == self@.colors,
                distinct_keys(before),
                forall|j: int| 0 <= j < i ==> (#[trigger] before[j]).0 != key@,
            decreases colors.len() - i,
        {
            if colors[i].0 == key {
                assert(before[i as int].0 == key@);
                colors.set(i, (key, value));
                assert(pairs_of(colors@) =~= before.update(i as int, (key@, value@)));
                return Pattern { colors, pattern: self.pattern };
            }
            i += 1;
        }
        colors.push((key, value));
        assert(pairs_of(colors@) =~= before.push((key@, value@)));
        Pattern { colors, pattern: self.pattern }
    }

    /// The text of the pattern, with its placeholders.
    pub fn pattern(&self) -> (text: &str)
        ensures
            text@ == self@.pattern,
    {
        self.pattern.as_str()
    }

    /// The colours of the pattern, each a key and a graphic rendition, in
    /// the order they are painted in. No key occurs twice.
    pub fn colors(&self) -> (colors: &Vec<(String, String)>)
        ensures
            pairs_of(colors@) == self@.colors,
            distinct_keys(self@.colors),
    {
        proof {
            use_type_invariant(self);
        }
        &self.colors
    }

    /// Draws the pattern: paints in its colours and the resets.
    pub fn draw(&self) -> (text: String)
        ensures
            text@ == drawn(self@.pattern, self@.colors),
    {
        let mut text = chars_of(self.pattern.as_str());
        let mut i: usize = 0;
        while i < self.colors.len()
            invariant
                i <= self.colors.len(),
                text@ == painted(self@.pattern, self@.colors.subrange(0, i as int)),
            decreases self.colors.len() - i,
        {
            let mut slot = String::from_str("{");
            slot.append(self.colors[i].0.as_str());
            slot.append("}");
            let code = make_escape_code(self.colors[i].1.as_str());
            text = replace_all(&text, &chars_of(slot.as_str()), &chars_of(code.as_str()));
            i += 1;
            proof {
                let upto = self@.colors.subrange(0, i as int);
                assert(upto.drop_last() =~= self@.colors.subrange(0, i - 1));
            }
        }
        assert(self@.colors.subrange(0, i as int) =~= self@.colors);
        let reset = make_escape_code("0");
        let text = replace_all(&text, &chars_of("{reset}"), &chars_of(reset.as_str()));
        string_of(&text, 0, text.len())
    }
}

/// How a pattern file is shown.
#[derive(Debug, Clone, Copy, PartialEq, Eq, Structural)]
pub enum PatternKind {
    /// A text with placeholders: it is read, parsed and drawn.
    Toml,
    /// A script: it is run, and what it writes is shown.
    Shell,
}

/// Whether the file at `path` has the extension `toml`.
pub open spec fn is_toml(path: Seq<char>) -> bool {
    extension_of(file_name_of(path)) == Some("toml"@)
}

/// The error for a path that is no file.
pub open spec fn not_a_file(path: Seq<char>) -> PatternErrorView {
    PatternErrorView {
        e_type: PatternErrorType::FileDoesNotExist,
        message: "Provided path "@ + path + " is not a file"@,
    }
}

/// How the file at `path` is shown: a file with the extension `toml` is
/// drawn, any other file is run.
pub open spec fn shown_as(path: Seq<char>) -> PatternKind {
    if is_toml(path) {
        PatternKind::Toml
    } else {
        PatternKind::Shell
    }
}

/// Decides how the pattern at `path` is shown, given whether `path` is a
/// file. What is no file is an error.
pub fn print_pattern(path: &str, is_file: bool) -> (r: Result<PatternKind, PatternError>)
    ensures
        match r {
            Ok(kind) => is_file && kind == shown_as(path@),
            Err(e) => !is_file && e@ == not_a_file(path@),
        },
{
    if !is_file {
        let mut message = String::from_str("Provided path ");
        message.append(path);
        message.append(" is not a file");
        return Err(PatternError { e_type: PatternErrorType::FileDoesNotExist, message });
    }
    let name = file_name(path);
    match file_extension(name.as_str()) {
        Some(extension) => if extension == String::from_str("toml") {
            Ok(PatternKind::Toml)
        } else {
            Ok(PatternKind::Shell)
        },
        None => Ok(PatternKind::Shell),
    }
}

/// What reading and parsing a pattern file gave.
#[derive(Debug)]
pub enum Loaded {
    /// The file could not be read; the text says why.
    Unreadable(String),
    /// The file is no valid pattern; the text says why.
    Invalid(String),
    /// The pattern that the file holds.
    Parsed(Pattern),
}

/// The error for a pattern file that could not be read.
pub open spec fn unreadable(path: Seq<char>, text: Seq<char>) -> PatternErrorView {
    PatternErrorView {
        e_type: PatternErrorType::IOError,
        message: "Error "@ + text + " reading "@ + path,
    }
}

/// The error for a pattern file that is no valid pattern.
pub open spec fn invalid_toml(path: Seq<char>, text: Seq<char>) -> PatternErrorView {
    PatternErrorView {
        e_type: PatternErrorType::InvalidTOML,
        message: "TOML file "@ + path + " invalid. Error: "@ + text,
    }
}

/// What is printed for the pattern file at `path`, given what reading and
/// parsing it gave: the drawn pattern, or the error that names the file.
pub fn print_toml_pattern(path: &str, loaded: Loaded) -> (r: Result<String, PatternError>)
    ensures
        match loaded {
            Loaded::Unreadable(text) => r is Err && r->Err_0@ == unreadable(path@, text@),
            Loaded::Invalid(text) => r is Err && r->Err_0@ == invalid_toml(path@, text@),
            Loaded::Parsed(pattern) => r is Ok && r->Ok_0@ == drawn(
                pattern@.pattern,
                pattern@.colors,
            ),
        },
{
    match loaded {
        Loaded::Unreadable(text) => {
            let mut message = String::from_str("Error ");
            message.append(text.as_str());
            message.append(" reading ");
            message.append(path);
            Err(PatternError { e_type: PatternErrorType::IOError, message })
        },
        Loaded::Invalid(text) => {
            let mut message = String::from_str("TOML file ");
            message.append(path);
            message.append(" invalid. Error: ");
            message.append(text.as_str());
            Err(PatternError { e_type: PatternErrorType::InvalidTOML, message })
        },
        Loaded::Parsed(pattern) => Ok(pattern.draw()),
    }
}

} // verus!
