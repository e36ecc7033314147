//! Edits of a manifest's dependency lines: a line `<package> = "<anything>"`
//! is replaced by a new assignment, or emptied.
//!
//! The package name is matched literally: it is escaped before it enters the
//! pattern. Removal empties the matched line and leaves its line break, so a
//! blank line stands where the assignment was.

use vstd::prelude::*;

use crate::rewrite::EditError;
use crate::visitors::FileContentsEditor;

verus! {

/// Name of the manifest that the dependency edits apply to.
pub const PYPROJECT_TOML: &'static str = "pyproject.toml";

#[verifier::external_type_specification]
#[verifier::external_body]
pub struct ExRegex(regex::Regex);

#[verifier::external_type_specification]
#[verifier::external_body]
pub struct ExRegexError(regex::Error);

/// A character with a meaning in a regex pattern.
pub open spec fn is_meta_character(c: char) -> bool {
    c == '\\' || c == '.' || c == '+' || c == '*' || c == '?' || c == '(' || c == ')' || c
        == '|' || c == '[' || c == ']' || c == '{' || c == '}' || c == '^' || c == '$' || c == '#'
        || c == '&' || c == '-' || c == '~'
}

/// The text with a backslash before each metacharacter: a pattern that
/// matches the text literally.
pub open spec fn escaped(s: Seq<char>) -> Seq<char>
    decreases s.len(),
{
    if s.len() == 0 {
        Seq::empty()
    } else if is_meta_character(s.last()) {
        escaped(s.drop_last()) + seq!['\\', s.last()]
    } else {
        escaped(s.drop_last()).push(s.last())
    }
}

/// Whether `regex::Regex::new` accepts a pattern (in one build: the size
/// limit it checks is measured on the compiled program).
pub uninterp spec fn compiles(pattern: Seq<char>) -> bool;

/// The pattern that a compiled regex was made from (what `as_str` returns).
pub uninterp spec fn regex_source(re: regex::Regex) -> Seq<char>;

/// What `regex::Regex::replace_all` makes of `text` with a regex compiled
/// from `pattern`, each match replaced by `repl` taken literally.
pub uninterp spec fn replaced_all(pattern: Seq<char>, text: Seq<char>, repl: Seq<char>) -> Seq<
    char,
>;

/// Relies on `regex::escape`: the text with every regex metacharacter escaped.
#[verifier::external_body]
fn escape_literal(s: &str) -> (r: String)
    ensures
        r@ == escaped(s@),
{
    regex::escape(s)
}

/// Relies on `regex::Regex::new`: compiles a pattern, or fails; a compiled
/// regex keeps the pattern it was made from.
#[verifier::external_body]
fn compile(pattern: &str) -> (r: Result<regex::Regex, regex::Error>)
    ensures
        r is Ok <==> compiles(pattern@),
        r matches Ok(re) ==> regex_source(re) == pattern@,
{
    regex::Regex::new(pattern)
}

/// Relies on `regex::Regex::replace_all` with `regex::NoExpand`: every match
/// replaced by `repl`, with no `$` reference expanded.
#[verifier::external_body]
fn replace_all(re: &regex::Regex, text: &str, repl: &str) -> (r: String)
    ensures
        r@ == replaced_all(regex_source(*re), text@, repl@),
{
    re.replace_all(text, regex::NoExpand(repl)).into_owned()
}

/// The pattern of a whole line `<package> = "<one or more characters>"`,
/// the package name taken literally; `^` and `$` match at line boundaries.
pub open spec fn assignment_pattern(package: Seq<char>) -> Seq<char> {
    "(?m)^"@ + escaped(package) + " = \".+\"$"@
}

/// The line `<package> = "<version>"`.
pub open spec fn version_line(package: Seq<char>, version: Seq<char>) -> Seq<char> {
    package + " = \""@ + version + "\""@
}

fn create_regex(package: &str) -> (r: Result<regex::Regex, regex::Error>)
    ensures
        r is Ok <==> compiles(assignment_pattern(package@)),
        r matches Ok(re) ==> regex_source(re) == assignment_pattern(package@),
{
    let mut pattern = String::from_str("(?m)^");
    let name = escape_literal(package);
    pattern.append(name.as_str());
    pattern.append(" = \".+\"$");
    compile(pattern.as_str())
}

/// Replaces every dependency line of one package.
pub struct StringReplacer {
    regex: regex::Regex,
    repl: String,
}

impl StringReplacer {
    /// The pattern the lines are matched against.
    pub closed spec fn pattern(&self) -> Seq<char> {
        regex_source(self.regex)
    }

    /// What each matched line is replaced with.
    pub closed spec fn replacement(&self) -> Seq<char> {
        self.repl@
    }

    /// Sets the version of `package_name` to `version`: each line
    /// `<package_name> = "..."` becomes `<package_name> = "<version>"`, the
    /// name and the version inserted as they are.
    /// Fails, before any file is touched, where the pattern does not compile.
    pub fn package_version_editor(package_name: &str, version: &str) -> (r: Result<
        Self,
        regex::Error,
    >)
        ensures
            r is Ok <==> compiles(assignment_pattern(package_name@)),
            r matches Ok(s) ==> {
                &&& s.pattern() == assignment_pattern(package_name@)
                &&& s.replacement() == version_line(package_name@, version@)
            },
    {
        let regex = create_regex(package_name)?;
        let mut repl = String::from_str(package_name);
        repl.append(" = \"");
        repl.append(version);
        repl.append("\"");
        Ok(StringReplacer { regex, repl })
    }

    /// Removes `package_name`: each line `<package_name> = "..."` is emptied.
    /// Fails, before any file is touched, where the pattern does not compile.
    pub fn package_remover(package_name: &str) -> (r: Result<Self, regex::Error>)
        ensures
            r is Ok <==> compiles(assignment_pattern(package_name@)),
            r matches Ok(s) ==> {
                &&& s.pattern() == assignment_pattern(package_name@)
                &&& s.replacement() == Seq::<char>::empty()
            },
    {
        let regex = create_regex(package_name)?;
        Ok(StringReplacer { regex, repl: String::new() })
    }

    /// The content with every matched line replaced.
    pub fn replace(&self, contents: &str) -> (r: String)
        ensures
            r@ == replaced_all(self.pattern(), contents@, self.replacement()),
    {
        replace_all(&self.regex, contents, self.repl.as_str())
    }
}

impl FileContentsEditor for StringReplacer {
    fn edit(&self, contents: &str) -> (r: Result<String, EditError>)
        ensures
            r matches Ok(t) && t@ == replaced_all(self.pattern(), contents@, self.replacement()),
    {
        Ok(self.replace(contents))
    }
}

} // verus!
