//! The directives of the tool and what each one needs and answers.
use vstd::prelude::*;
use crate::escape::push_char;
use crate::encode::{
    push_str, issue, issue_command, log_command, encoded_line, log_properties, opt_view, property_views,
    PropertyView,
};

verus! {

/// Whether `pos` is the place of the first `=` in `s`.
pub open spec fn split_at_first_eq(s: Seq<char>, pos: int) -> bool {
    &&& 0 <= pos < s.len()
    &&& s[pos] == '='
    &&& forall|j: int| 0 <= j < pos ==> s[j] != '='
}

/// The message with which `parse_key_val` refuses text without `=`.
pub open spec fn no_eq_message(s: Seq<char>) -> Seq<char> {
    "invalid KEY=value: no `=` found in `"@ + s + "`"@
}

/// Splits `key=value` at the first `=`; the value may hold further `=`.
pub fn parse_key_val(s: &str) -> (r: Result<(String, String), String>)
    ensures
        r is Ok <==> s@.contains('='),
        r matches Ok((k, v)) ==> exists|pos: int|
            split_at_first_eq(s@, pos) && k@ == s@.take(pos) && v@ == s@.skip(pos + 1),
        r matches Err(e) ==> e@ == no_eq_message(s@),
{
    let mut found: Option<usize> = None;
    let n = s.unicode_len();
    let mut idx: usize = 0;
    for c in it: s.chars()
        invariant
            it.seq() == s@,
            n == s@.len(),
            idx == it.index(),
            idx <= s@.len(),
            found matches Some(p) ==> split_at_first_eq(s@, p as int) && p < idx,
            found is None ==> forall|j: int| 0 <= j < idx ==> s@[j] != '=',
    {
        if found.is_none() && c == '=' {
            found = Some(idx);
        }
        idx = idx + 1;
    }
    match found {
        Some(p) => {
            let key = s.substring_char(0, p);
            let value = s.substring_char(p + 1, idx);
            assert(s@.contains('=')) by {
                assert(s@[p as int] == '=');
            }
            Ok((String::from_str(key), String::from_str(value)))
        },
        None => {
            let mut msg = String::new();
            push_str(&mut msg, "invalid KEY=value: no `=` found in `");
            push_str(&mut msg, s);
            push_str(&mut msg, "`");
            Err(msg)
        },
    }
}

/// The directives of the tool, each with the fields it takes.
#[allow(inconsistent_fields)]
#[derive(Debug, Clone)]
pub enum Command {
    /// A command line with any name, properties and message.
    IssueCommand { properties: Vec<(String, String)>, command: String, message: Option<String> },
    /// Sets an environment variable for the later steps of the job.
    SetEnv { key: String, value: String },
    /// Like `SetEnv`, with the value of a variable of this process.
    Export { key: String },
    /// Sets an output parameter of the step.
    SetOutput { name: String, value: String },
    /// Prepends a directory, made absolute, to the `PATH` of the later steps.
    AddPath { path: String },
    /// Prints whether step debugging is on.
    IsDebug,
    /// A debug message, with an optional file, line and column.
    Debug { file: Option<String>, line: Option<u64>, col: Option<u64>, message: String },
    /// A warning message, with an optional file, line and column.
    Warning { file: Option<String>, line: Option<u64>, col: Option<u64>, message: String },
    /// An error message, with an optional file, line and column.
    Error { file: Option<String>, line: Option<u64>, col: Option<u64>, message: String },
    /// Masks a value in the log.
    AddMask { value: String },
    /// Stops the processing of commands until `endtoken` is issued.
    StopCommands { endtoken: String },
    /// Prints the value of an input of the step, trimmed.
    GetInput { name: String, required: bool },
    /// Opens a foldable output group.
    StartGroup { name: String },
    /// Closes the output group.
    EndGroup,
    /// Saves state for the post-job part of this action.
    SaveState { name: String, value: String },
    /// Prints state saved by this action's main part.
    GetState { name: String },
    /// Posts a comment on the pull request of the job's event.
    PostComment { message: String, secret: String },
    /// Prints a message as it is.
    Info { message: String },
}

/// The two ways in which a directive fails.
#[derive(Debug, Clone, Copy, PartialEq, Eq, Structural)]
pub enum CliError {
    /// A required input or environment variable is absent.
    MissingRequiredValue,
    /// A path cannot be resolved, or the comment cannot be posted.
    UnresolvableResource,
}

/// What a directive needs from outside the library before it can answer.
#[derive(Debug, Clone)]
pub enum Need {
    /// Nothing: the answer follows from the directive alone.
    Nothing,
    /// The value of this environment variable, if it is set.
    Variable(String),
    /// The absolute, canonical form of this path, if it resolves.
    CanonicalPath(String),
    /// The comment posted; present when that succeeded.
    CommentPost,
}

/// Upper-cases an ASCII letter and turns a space into `_`.
pub open spec fn input_key_char(c: char) -> char {
    if c == ' ' {
        '_'
    } else if 'a' <= c && c <= 'z' {
        (((c as u32) - 32) as u8) as char
    } else {
        c
    }
}

/// The environment variable that holds the input `name`.
pub open spec fn input_key(name: Seq<char>) -> Seq<char> {
    "INPUT_"@ + name.map_values(|c: char| input_key_char(c))
}

/// The environment variable that holds the state `name`.
pub open spec fn state_key(name: Seq<char>) -> Seq<char> {
    "STATE_"@ + name
}

/// The variable that tells whether step debugging is on.
pub open spec fn debug_key() -> Seq<char> {
    "RUNNER_DEBUG"@
}

/// Builds the environment key for the input `name`: `INPUT_`, then the name
/// with spaces as `_` and ASCII letters upper-cased.
pub fn input_env_key(name: &str) -> (r: String)
    ensures
        r@ == input_key(name@),
{
    let mut out = String::new();
    push_str(&mut out, "INPUT_");
    let ghost head = out@;
    for c in it: name.chars()
        invariant
            it.seq() == name@,
            head == "INPUT_"@,
            out@ == head + name@.take(it.index()).map_values(|c: char| input_key_char(c)),
    {
        let k = if c == ' ' {
            '_'
        } else if 'a' <= c && c <= 'z' {
            ((c as u32 - 32) as u8) as char
        } else {
            c
        };
        push_char(&mut out, k);
        proof {
            assert(name@.take(it.index() + 1).map_values(|c: char| input_key_char(c))
                =~= name@.take(it.index()).map_values(|c: char| input_key_char(c)).push(k));
        }
    }
    proof {
        assert(name@.take(name@.len() as int) =~= name@);
    }
    out
}

/// Builds the environment key for the state `name`: `STATE_` and the name.
pub fn state_env_key(name: &str) -> (r: String)
    ensures
        r@ == state_key(name@),
{
    let mut out = String::new();
    push_str(&mut out, "STATE_");
    push_str(&mut out, name);
    out
}

/// Whether `n` is what the directive `cmd` needs from outside.
pub open spec fn needs(cmd: Command, n: Need) -> bool {
    match cmd {
        Command::Export { key } => n matches Need::Variable(k) && k@ == key@,
        Command::IsDebug => n matches Need::Variable(k) && k@ == debug_key(),
        Command::GetInput { name, .. } => n matches Need::Variable(k) && k@ == input_key(name@),
        Command::GetState { name } => n matches Need::Variable(k) && k@ == state_key(name@),
        Command::AddPath { path } => n matches Need::CanonicalPath(p) && p@ == path@,
        Command::PostComment { .. } => n is CommentPost,
        _ => n is Nothing,
    }
}

/// Says what `cmd` needs from outside before `respond` can answer it.
pub fn need_of(cmd: &Command) -> (r: Need)
    ensures
        needs(*cmd, r),
{
    match cmd {
        Command::Export { key } => Need::Variable(key.clone()),
        Command::IsDebug => {
            let k = String::from_str("RUNNER_DEBUG");
            Need::Variable(k)
        },
        Command::GetInput { name, .. } => Need::Variable(input_env_key(name.as_str())),
        Command::GetState { name } => Need::Variable(state_env_key(name.as_str())),
        Command::AddPath { path } => Need::CanonicalPath(path.clone()),
        Command::PostComment { .. } => Need::CommentPost,
        _ => Need::Nothing,
    }
}

/// Whether `c` has the Unicode White_Space property.
pub open spec fn is_white_space(c: char) -> bool {
    let u = c as u32;
    ||| 0x9 <= u && u <= 0xD
    ||| u == 0x20
    ||| u == 0x85
    ||| u == 0xA0
    ||| u == 0x1680
    ||| 0x2000 <= u && u <= 0x200A
    ||| u == 0x2028
    ||| u == 0x2029
    ||| u == 0x202F
    ||| u == 0x205F
    ||| u == 0x3000
}

/// `s` without its leading white space.
pub open spec fn trim_start(s: Seq<char>) -> Seq<char>
    decreases s.len(),
{
    if s.len() > 0 && is_white_space(s[0]) {
        trim_start(s.skip(1))
    } else {
        s
    }
}

/// `s` without its trailing white space.
pub open spec fn trim_end(s: Seq<char>) -> Seq<char>
    decreases s.len(),
{
    if s.len() > 0 && is_white_space(s.last()) {
        trim_end(s.drop_last())
    } else {
        s
    }
}

/// `s` without its leading and trailing white space.
pub open spec fn trimmed(s: Seq<char>) -> Seq<char> {
    trim_end(trim_start(s))
}

fn white_space(c: char) -> (r: bool)
    ensures
        r == is_white_space(c),
{
    let u = c as u32;
    (0x9 <= u && u <= 0xD) || u == 0x20 || u == 0x85 || u == 0xA0 || u == 0x1680 || (0x2000 <= u
        && u <= 0x200A) || u == 0x2028 || u == 0x2029 || u == 0x202F || u == 0x205F || u == 0x3000
}

/// Removes the leading and trailing white space (the Unicode White_Space
/// characters) of `s`; what stands between is kept as it is.
pub fn trim_white_space(s: &str) -> (r: String)
    ensures
        r@ == trimmed(s@),
{
    let n = s.unicode_len();
    let mut chars: Vec<char> = Vec::new();
    for c in it: s.chars()
        invariant
            it.seq() == s@,
            chars@ == s@.take(it.index()),
    {
        proof {
            assert(s@.take(it.index() + 1) =~= s@.take(it.index()).push(c));
        }
        chars.push(c);
    }
    assert(s@.take(s@.len() as int) =~= s@);
    let mut a: usize = 0;
    assert(s@.subrange(0, n as int) =~= s@);
    while a < n && white_space(chars[a])
        invariant
            a <= n,
            n == s@.len(),
            chars@ == s@,
            trim_start(s@) == trim_start(s@.subrange(a as int, n as int)),
        decreases n - a,
    {
        assert(s@.subrange(a as int, n as int).skip(1) =~= s@.subrange(a as int + 1, n as int));
        a = a + 1;
    }
    let ghost front = s@.subrange(a as int, n as int);
    assert(trim_start(front) == front);
    let mut b: usize = n;
    while b > a && white_space(chars[b - 1])
        invariant
            a <= b <= n,
            n == s@.len(),
            chars@ == s@,
            front == s@.subrange(a as int, n as int),
            trim_end(front) == trim_end(s@.subrange(a as int, b as int)),
        decreases b - a,
    {
        assert(s@.subrange(a as int, b as int).drop_last() =~= s@.subrange(a as int, b as int - 1));
        b = b - 1;
    }
    let kept = s.substring_char(a, b);
    String::from_str(kept)
}

/// The single `name` property.
pub open spec fn name_property(v: Seq<char>) -> Seq<PropertyView> {
    seq![(seq!['n', 'a', 'm', 'e'], v)]
}

fn name_properties(v: String) -> (r: Vec<(String, String)>)
    ensures
        property_views(r@) == name_property(v@),
{
    proof {
        reveal_strlit("name");
        assert("name"@ =~= seq!['n', 'a', 'm', 'e']);
    }
    let r = vec![(String::from_str("name"), v)];
    assert(property_views(r@) =~= name_property(v@));
    r
}

/// The text of a `Result` of the library.
pub open spec fn result_view(r: Result<String, CliError>) -> Result<Seq<char>, CliError> {
    match r {
        Ok(s) => Ok(s@),
        Err(e) => Err(e),
    }
}

/// The line for `name` and `message` with no properties.
pub open spec fn plain(name: Seq<char>, message: Seq<char>) -> Result<Seq<char>, CliError> {
    Ok(encoded_line(name, message, Seq::empty()))
}

/// The line for `name` with the single property `name=key`.
pub open spec fn named(name: Seq<char>, key: Seq<char>, message: Seq<char>) -> Result<Seq<char>, CliError> {
    Ok(encoded_line(name, message, name_property(key)))
}

/// What `cmd` answers, given what was found outside (see `Need`).
pub open spec fn response(cmd: Command, found: Option<Seq<char>>) -> Result<Seq<char>, CliError> {
    match cmd {
        Command::IssueCommand { properties, command, message } => Ok(
            encoded_line(
                command@,
                match message {
                    Some(m) => m@,
                    None => Seq::empty(),
                },
                property_views(properties@),
            ),
        ),
        Command::SetEnv { key, value } => named("set-env"@, key@, value@),
        Command::Export { key } => match found {
            Some(v) => named("set-env"@, key@, v),
            None => Err(CliError::MissingRequiredValue),
        },
        Command::SetOutput { name, value } => named("set-output"@, name@, value@),
        Command::AddPath { .. } => match found {
            Some(p) => plain("add-path"@, p),
            None => Err(CliError::UnresolvableResource),
        },
        Command::IsDebug => match found {
            Some(v) => Ok(v),
            None => Err(CliError::MissingRequiredValue),
        },
        Command::Debug { file, line, col, message } => Ok(
            encoded_line("debug"@, message@, log_properties(opt_view(file), line, col)),
        ),
        Command::Warning { file, line, col, message } => Ok(
            encoded_line("warning"@, message@, log_properties(opt_view(file), line, col)),
        ),
        Command::Error { file, line, col, message } => Ok(
            encoded_line("error"@, message@, log_properties(opt_view(file), line, col)),
        ),
        Command::AddMask { value } => plain("add-mask"@, value@),
        Command::StopCommands { endtoken } => plain("stop-commands"@, endtoken@),
        Command::GetInput { required, .. } => match found {
            Some(v) => Ok(trimmed(v)),
            None => if required {
                Err(CliError::MissingRequiredValue)
            } else {
                Ok(Seq::empty())
            },
        },
        Command::StartGroup { name } => plain("group"@, name@),
        Command::EndGroup => plain("endgroup"@, Seq::empty()),
        Command::SaveState { name, value } => named("save-state"@, name@, value@),
        Command::GetState { .. } => match found {
            Some(v) => Ok(v),
            None => Ok(Seq::empty()),
        },
        Command::PostComment { .. } => match found {
            Some(_) => plain("post-comment"@, "success"@),
            None => Err(CliError::UnresolvableResource),
        },
        Command::Info { message } => Ok(message@),
    }
}

/// Answers `cmd`: the line to print, or the error that stops the process.
/// `found` is what was fetched for `need_of(cmd)`: the variable's value, the
/// canonical path, or for a comment some value when it was posted; `None`
/// when that is absent or failed. Directives that need nothing ignore it.
pub fn respond(cmd: Command, found: Option<String>) -> (r: Result<String, CliError>)
    ensures
        result_view(r) == response(cmd, opt_view(found)),
{
    match cmd {
        Command::IssueCommand { properties, command, message } => {
            let m = match message {
                Some(m) => m,
                None => String::new(),
            };
            Ok(issue_command(command.as_str(), m.as_str(), properties))
        },
        Command::SetEnv { key, value } => Ok(
            issue_command("set-env", value.as_str(), name_properties(key)),
        ),
        Command::Export { key } => match found {
            Some(v) => Ok(issue_command("set-env", v.as_str(), name_properties(key))),
            None => Err(CliError::MissingRequiredValue),
        },
        Command::SetOutput { name, value } => Ok(
            issue_command("set-output", value.as_str(), name_properties(name)),
        ),
        Command::AddPath { .. } => match found {
            Some(p) => Ok(issue("add-path", p.as_str())),
            None => Err(CliError::UnresolvableResource),
        },
        Command::IsDebug => match found {
            Some(v) => Ok(v),
            None => Err(CliError::MissingRequiredValue),
        },
        Command::Debug { file, line, col, message } => Ok(
            log_command("debug", message.as_str(), file, line, col),
        ),
        Command::Warning { file, line, col, message } => Ok(
            log_command("warning", message.as_str(), file, line, col),
        ),
        Command::Error { file, line, col, message } => Ok(
            log_command("error", message.as_str(), file, line, col),
        ),
        Command::AddMask { value } => Ok(issue("add-mask", value.as_str())),
        Command::StopCommands { endtoken } => Ok(issue("stop-commands", endtoken.as_str())),
        Command::GetInput { required, .. } => match found {
            Some(v) => Ok(trim_white_space(v.as_str())),
            None => if required {
                Err(CliError::MissingRequiredValue)
            } else {
                Ok(String::new())
            },
        },
        Command::StartGroup { name } => Ok(issue("group", name.as_str())),
        Command::EndGroup => {
            proof {
                reveal_strlit("");
                assert(""@ =~= Seq::<char>::empty());
            }
            Ok(issue("endgroup", ""))
        },
        Command::SaveState { name, value } => Ok(
            issue_command("save-state", value.as_str(), name_properties(name)),
        ),
        Command::GetState { .. } => match found {
            Some(v) => Ok(v),
            None => Ok(String::new()),
        },
        Command::PostComment { .. } => match found {
            Some(_) => Ok(issue("post-comment", "success")),
            None => Err(CliError::UnresolvableResource),
        },
        Command::Info { message } => Ok(message),
    }
}

} // verus!
