//! Configuration: where Managed Links live, what discovery skips, and named display roots.

use vstd::prelude::*;
use vstd::utf8;

use crate::environment::{Environment, EnvironmentView};
use crate::patterns;
use crate::host::{FileRead, FileReadView, IoError, IoErrorView};
use crate::order;
use crate::path;
use crate::path::PathBuf;
use crate::text;
use crate::views;

verus! {

/// A directory with a display name.
#[derive(Debug, PartialEq, Eq)]
pub struct NamedRoot {
    pub name: String,
    pub root: PathBuf,
}

#[verifier::ext_equal]
pub struct NamedRootView {
    pub name: Seq<char>,
    pub root: Seq<u8>,
}

impl View for NamedRoot {
    type V = NamedRootView;

    open spec fn view(&self) -> NamedRootView {
        NamedRootView { name: self.name@, root: self.root@ }
    }
}

impl Clone for NamedRoot {
    fn clone(&self) -> (r: Self)
        ensures
            r@ == self@,
    {
        NamedRoot { name: self.name.clone(), root: self.root.clone() }
    }
}

/// A configuration that has been checked. The roots are in the order of their names.
#[derive(Debug, PartialEq, Eq)]
pub struct Configuration {
    pub bin_dir: PathBuf,
    pub ignore: Vec<String>,
    pub roots: Vec<NamedRoot>,
}

#[verifier::ext_equal]
pub struct ConfigurationView {
    pub bin_dir: Seq<u8>,
    pub ignore: Seq<Seq<char>>,
    pub roots: Seq<NamedRootView>,
}

impl View for Configuration {
    type V = ConfigurationView;

    open spec fn view(&self) -> ConfigurationView {
        ConfigurationView {
            bin_dir: self.bin_dir@,
            ignore: views::views(self.ignore@),
            roots: views::views(self.roots@),
        }
    }
}

#[allow(inconsistent_fields)]
#[derive(Debug, PartialEq, Eq)]
pub enum ConfigurationError {
    MissingHome,
    MissingVariable(String),
    RelativePath { field: &'static str, path: String },
    Read { path: PathBuf, source: IoError },
    Invalid { path: PathBuf, message: String },
}

#[allow(inconsistent_fields)]
#[verifier::ext_equal]
pub enum ConfigurationErrorView {
    MissingHome,
    MissingVariable(Seq<char>),
    RelativePath { field: Seq<char>, path: Seq<char> },
    Read { path: Seq<u8>, source: IoErrorView },
    Invalid { path: Seq<u8>, message: Seq<char> },
}

impl View for ConfigurationError {
    type V = ConfigurationErrorView;

    open spec fn view(&self) -> ConfigurationErrorView {
        match *self {
            ConfigurationError::MissingHome => ConfigurationErrorView::MissingHome,
            ConfigurationError::MissingVariable(name) => ConfigurationErrorView::MissingVariable(
                name@,
            ),
            ConfigurationError::RelativePath { field, path } =>
                ConfigurationErrorView::RelativePath { field: field@, path: path@ },
            ConfigurationError::Read { path, source } => ConfigurationErrorView::Read {
                path: path@,
                source: source@,
            },
            ConfigurationError::Invalid { path, message } => ConfigurationErrorView::Invalid {
                path: path@,
                message: message@,
            },
        }
    }
}

impl ConfigurationErrorView {
    /// What the error says.
    pub open spec fn message(self) -> Seq<char> {
        match self {
            ConfigurationErrorView::MissingHome =>
                "HOME is required to resolve configuration paths"@,
            ConfigurationErrorView::MissingVariable(name) =>
                "configured path references missing environment variable "@ + name,
            ConfigurationErrorView::RelativePath { field, path } => field
                + " must resolve to an absolute path, got "@ + path,
            ConfigurationErrorView::Read { path, source } => "could not read configuration "@
                + text::lossy_text(path) + ": "@ + source.message,
            ConfigurationErrorView::Invalid { path, message } => "invalid configuration "@
                + text::lossy_text(path) + ": "@ + message,
        }
    }
}

impl ConfigurationError {
    /// What the error says.
    pub fn message(&self) -> (r: String)
        ensures
            r@ == self@.message(),
    {
        match self {
            ConfigurationError::MissingHome =>
                "HOME is required to resolve configuration paths".to_owned(),
            ConfigurationError::MissingVariable(name) => text::joined(
                "configured path references missing environment variable ",
                name,
            ),
            ConfigurationError::RelativePath { field, path } => text::joined3(
                field,
                " must resolve to an absolute path, got ",
                path,
            ),
            ConfigurationError::Read { path, source } => {
                let mut m = text::joined3("could not read configuration ", &path.display(), ": ");
                m.append(&source.message);
                m
            },
            ConfigurationError::Invalid { path, message } => {
                let mut m = text::joined3("invalid configuration ", &path.display(), ": ");
                m.append(message);
                m
            },
        }
    }
}

/// A display root as the configuration file spells it.
#[derive(Debug)]
pub struct RootEntry {
    pub name: String,
    pub value: String,
}

#[verifier::ext_equal]
pub struct RootEntryView {
    pub name: Seq<char>,
    pub value: Seq<char>,
}

impl View for RootEntry {
    type V = RootEntryView;

    open spec fn view(&self) -> RootEntryView {
        RootEntryView { name: self.name@, value: self.value@ }
    }
}

impl order::Ranked for RootEntry {
    open spec fn ranks_before(self, other: Self) -> bool {
        text::text_order()(self.name@, other.name@)
    }

    fn before(&self, other: &Self) -> (r: bool) {
        text::less(&self.name, &other.name)
    }
}

/// The contents of a configuration file.
#[derive(Debug)]
pub struct ConfigFile {
    pub version: u32,
    pub bin_dir: Option<String>,
    pub ignore: Vec<String>,
    pub roots: Vec<RootEntry>,
}

#[verifier::ext_equal]
pub struct ConfigFileView {
    pub version: u32,
    pub bin_dir: Option<Seq<char>>,
    pub ignore: Seq<Seq<char>>,
    pub roots: Seq<RootEntryView>,
}

impl View for ConfigFile {
    type V = ConfigFileView;

    open spec fn view(&self) -> ConfigFileView {
        ConfigFileView {
            version: self.version,
            bin_dir: views::view_of(self.bin_dir),
            ignore: views::views(self.ignore@),
            roots: views::views(self.roots@),
        }
    }
}

/// The version of a configuration file that names none.
pub fn current_version() -> (r: u32)
    ensures
        r == 1,
{
    1
}

/// A letter or digit of ASCII, or an underscore: what an unbraced variable name is made of.
pub open spec fn name_char(c: char) -> bool {
    ('a' <= c && c <= 'z') || ('A' <= c && c <= 'Z') || ('0' <= c && c <= '9') || c == '_'
}

/// The number of leading characters that can stand in an unbraced variable name.
pub open spec fn name_len(s: Seq<char>) -> nat
    decreases s.len(),
{
    if s.len() == 0 || !name_char(s[0]) {
        0
    } else {
        1 + name_len(s.skip(1))
    }
}

/// What stands behind a `$`: a reference to a variable, and how many characters it takes.
pub enum Reference {
    Unclosed,
    Named { name: Seq<char>, len: int },
}

pub open spec fn reference(after: Seq<char>) -> Reference {
    if after.len() > 0 && after[0] == '{' {
        match text::first_index(after, 1, '}') {
            Some(end) => Reference::Named { name: after.subrange(1, end), len: end + 1 },
            None => Reference::Unclosed,
        }
    } else {
        let n = name_len(after) as int;
        Reference::Named { name: after.take(n), len: n }
    }
}

/// `prefix` in front of an outcome that is text.
pub open spec fn prefixed(
    prefix: Seq<char>,
    r: Result<Seq<char>, Seq<char>>,
) -> Result<Seq<char>, Seq<char>> {
    match r {
        Ok(s) => Ok(prefix + s),
        Err(e) => Err(e),
    }
}

/// `s` with every variable reference replaced by the variable's value, or the name that no
/// variable has. A value is taken as it is: references in it stay. A `$` without a name stays.
pub open spec fn substituted(s: Seq<char>, variables: Map<Seq<char>, Seq<u8>>) -> Result<
    Seq<char>,
    Seq<char>,
>
    decreases s.len(),
{
    if s.len() == 0 {
        Ok(s)
    } else if s[0] != '$' {
        prefixed(s.take(1), substituted(s.skip(1), variables))
    } else {
        let after = s.skip(1);
        match reference(after) {
            Reference::Unclosed => Err(after.skip(1)),
            Reference::Named { name, len } => if name.len() == 0 {
                prefixed(s.take(1), substituted(after, variables))
            } else if !variables.contains_key(name) {
                Err(name)
            } else {
                proof {
                    reference_fits(after);
                }
                prefixed(
                    text::lossy_text(variables[name]),
                    substituted(after.skip(len), variables),
                )
            },
        }
    }
}

/// A text with a leading `~` resolved to the home directory.
pub open spec fn with_home(value: Seq<char>, home: Seq<u8>) -> Seq<char> {
    if value == "~"@ {
        text::lossy_text(home)
    } else if "~/"@.is_prefix_of(value) {
        text::lossy_text(path::joined(home, utf8::encode_utf8(value.skip("~/"@.len() as int))))
    } else {
        value
    }
}

/// The path that a configured text stands for, or the name of the variable that it lacks.
pub open spec fn expanded_path(value: Seq<char>, environment: EnvironmentView) -> Result<
    Seq<u8>,
    Seq<char>,
> {
    match substituted(with_home(value, environment.home), environment.variables) {
        Ok(s) => Ok(utf8::encode_utf8(s)),
        Err(name) => Err(name),
    }
}

/// A reference ends within the text that holds it.
pub proof fn reference_fits(after: Seq<char>)
    ensures
        reference(after) matches Reference::Named { len, .. } ==> 0 <= len <= after.len(),
{
    first_index_bounds(after, 1, '}');
    name_len_bound(after);
}

proof fn name_len_bound(s: Seq<char>)
    ensures
        name_len(s) <= s.len(),
    decreases s.len(),
{
    if s.len() > 0 && name_char(s[0]) {
        name_len_bound(s.skip(1));
    }
}

proof fn first_index_bounds(s: Seq<char>, from: int, c: char)
    requires
        0 <= from,
    ensures
        text::first_index(s, from, c) matches Some(i) ==> from <= i < s.len() && s[i] == c,
    decreases s.len() - from,
{
    if from < s.len() && s[from] != c {
        first_index_bounds(s, from + 1, c);
    }
}

/// How many characters can stand in a name is where the first one stands that cannot.
pub proof fn name_len_at(s: Seq<char>, n: int)
    requires
        0 <= n <= s.len(),
        forall|i: int| 0 <= i < n ==> name_char(#[trigger] s[i]),
        n == s.len() || !name_char(s[n]),
    ensures
        name_len(s) == n,
    decreases s.len(),
{
    if n > 0 {
        assert(name_char(s[0]));
        assert forall|i: int| 0 <= i < n - 1 implies name_char(#[trigger] s.skip(1)[i]) by {
            assert(s.skip(1)[i] == s[i + 1]);
        }
        name_len_at(s.skip(1), n - 1);
    }
}

proof fn prefixed_twice(a: Seq<char>, b: Seq<char>, r: Result<Seq<char>, Seq<char>>)
    ensures
        prefixed(a, prefixed(b, r)) == prefixed(a + b, r),
{
    if let Ok(s) = r {
        assert(a + (b + s) =~= (a + b) + s);
    }
}

fn is_name_char(c: char) -> (r: bool)
    ensures
        r == name_char(c),
{
    ('a' <= c && c <= 'z') || ('A' <= c && c <= 'Z') || ('0' <= c && c <= '9') || c == '_'
}

fn index_from(chars: &Vec<char>, base: usize, from: usize, c: char) -> (r: Option<usize>)
    requires
        base <= from <= chars@.len(),
    ensures
        match r {
            Some(i) => from <= i < chars@.len() && text::first_index(
                chars@.skip(base as int),
                from - base,
                c,
            ) == Some(i - base),
            None => text::first_index(chars@.skip(base as int), from - base, c) is None,
        },
{
    let ghost t = chars@.skip(base as int);
    let mut i: usize = from;
    while i < chars.len()
        invariant
            base <= from <= i <= chars@.len(),
            t == chars@.skip(base as int),
            text::first_index(t, from - base, c) == text::first_index(t, i - base, c),
        decreases chars.len() - i,
    {
        assert(t[i - base] == chars@[i as int]);
        if chars[i] == c {
            return Some(i);
        }
        i = i + 1;
    }
    None
}

/// The path that a configured text stands for: `~` is the home directory, and `$NAME` and
/// `${NAME}` are variables.
pub fn expand_path(value: &str, environment: &Environment) -> (r: Result<
    PathBuf,
    ConfigurationError,
>)
    ensures
        match expanded_path(value@, environment@) {
            Ok(bytes) => r is Ok && r->Ok_0@ == bytes,
            Err(name) => r is Err && r->Err_0@ == ConfigurationErrorView::MissingVariable(name),
        },
{
    let start = if text::same(value, "~") {
        environment.home().display()
    } else {
        match text::without_prefix(value, "~/") {
            Some(rest) => environment.home().join_text(&rest).display(),
            None => value.to_owned(),
        }
    };
    let chars = text::chars_of(&start);
    let ghost s = chars@;
    let ghost variables = environment@.variables;
    let mut out = String::new();
    let mut i: usize = 0;
    proof {
        assert(s.skip(0) =~= s);
        assert(prefixed(out@, substituted(s, variables)) == substituted(s, variables)) by {
            if let Ok(t) = substituted(s, variables) {
                assert(out@ + t =~= t);
            }
        }
    }
    while i < chars.len()
        invariant
            i <= chars@.len(),
            chars@ == s,
            s == with_home(value@, environment@.home),
            variables == environment@.variables,
            prefixed(out@, substituted(s.skip(i as int), variables)) == substituted(s, variables),
        decreases chars.len() - i,
    {
        let ghost t = s.skip(i as int);
        let ghost before = out@;
        assert(t[0] == s[i as int]);
        assert(t.skip(1) =~= s.skip(i + 1));
        assert(before + t.take(1) =~= before.push(t[0]));
        proof {
            prefixed_twice(before, t.take(1), substituted(t.skip(1), variables));
        }
        if chars[i] != '$' {
            out.push(chars[i]);
            i = i + 1;
            continue;
        }
        let ghost after = s.skip(i + 1);
        let start: usize;
        let end: usize;
        let next: usize;
        if i + 1 < chars.len() && chars[i + 1] == '{' {
            assert(after[0] == '{');
            match index_from(&chars, i + 1, i + 2, '}') {
                Some(close) => {
                    start = i + 2;
                    end = close;
                    next = close + 1;
                    assert(after.subrange(1, end - (i + 1)) =~= s.subrange(
                        start as int,
                        end as int,
                    ));
                },
                None => {
                    let rest = text::slice_of(&chars, i + 2, chars.len());
                    assert(rest@ =~= after.skip(1));
                    return Err(ConfigurationError::MissingVariable(rest));
                },
            }
        } else {
            let mut stop: usize = i + 1;
            while stop < chars.len() && is_name_char(chars[stop])
                invariant
                    i + 1 <= stop <= chars@.len(),
                    chars@ == s,
                    forall|j: int| i + 1 <= j < stop ==> name_char(#[trigger] s[j]),
                decreases chars.len() - stop,
            {
                stop = stop + 1;
            }
            proof {
                assert forall|j: int| 0 <= j < stop - (i + 1) implies name_char(
                    #[trigger] after[j],
                ) by {
                    assert(after[j] == s[j + i + 1]);
                }
                name_len_at(after, stop - (i + 1));
                assert(after.take(stop - (i + 1)) =~= s.subrange(i + 1, stop as int));
            }
            start = i + 1;
            end = stop;
            next = stop;
        }
        let name = text::slice_of(&chars, start, end);
        assert(reference(after) == (Reference::Named { name: name@, len: next - (i + 1) }));
        if start == end {
            out.push('$');
            i = i + 1;
            continue;
        }
        match environment.variable(&name) {
            None => {
                return Err(ConfigurationError::MissingVariable(name));
            },
            Some(found) => {
                let replacement = text::lossy(found);
                proof {
                    assert(after.skip(next - (i + 1)) =~= s.skip(next as int));
                    prefixed_twice(
                        before,
                        replacement@,
                        substituted(s.skip(next as int), variables),
                    );
                }
                out.append(&replacement);
                i = next;
            },
        }
    }
    proof {
        assert(s.skip(i as int).len() == 0);
        assert(out@ + s.skip(i as int) =~= out@);
    }
    Ok(PathBuf::from_text(&out))
}

/// Text without `$` is left as it is.
pub proof fn text_without_references(s: Seq<char>, variables: Map<Seq<char>, Seq<u8>>)
    requires
        !s.contains('$'),
    ensures
        substituted(s, variables) == Ok::<Seq<char>, Seq<char>>(s),
    decreases s.len(),
{
    if s.len() > 0 {
        assert(s.contains(s[0]));
        assert(!s.skip(1).contains('$')) by {
            if s.skip(1).contains('$') {
                let i = choose|i: int| 0 <= i < s.skip(1).len() && s.skip(1)[i] == '$';
                assert(s[i + 1] == '$');
            }
        }
        text_without_references(s.skip(1), variables);
        assert(s.take(1) + s.skip(1) =~= s);
    }
}

/// The directory that holds the configuration of all programs.
pub open spec fn config_home_of(environment: EnvironmentView) -> Seq<u8> {
    match environment.variable("XDG_CONFIG_HOME"@) {
        Some(value) => value,
        None => path::joined(environment.home, utf8::encode_utf8(".config"@)),
    }
}

/// The directory that holds the configuration of all programs.
pub fn config_home(environment: &Environment) -> (r: PathBuf)
    ensures
        r@ == config_home_of(environment@),
{
    match environment.variable("XDG_CONFIG_HOME") {
        Some(value) => PathBuf::from_bytes(value.clone()),
        None => environment.home().join_text(".config"),
    }
}

/// The configuration file.
pub open spec fn config_path_of(environment: EnvironmentView) -> Seq<u8> {
    path::joined(config_home_of(environment), utf8::encode_utf8("bintui/config.toml"@))
}

/// The configuration file.
pub fn config_path(environment: &Environment) -> (r: PathBuf)
    ensures
        r@ == config_path_of(environment@),
{
    config_home(environment).join_text("bintui/config.toml")
}

/// What may name a display root.
pub open spec fn valid_root_name(name: Seq<char>) -> bool {
    name.len() > 0 && !name.contains('/') && !name.contains('[') && !name.contains(']')
        && !name.contains('\0')
}

pub open spec fn root_name_problem(name: Seq<char>) -> Seq<char> {
    "roots key "@ + text::quoted_text(name)
        + " must be a non-empty display name without '/', '[', ']', or NUL"@
}

fn validate_root_name(name: &str) -> (r: Result<(), String>)
    ensures
        r is Ok <==> valid_root_name(name@),
        r is Err ==> r->Err_0@ == root_name_problem(name@),
{
    if name.is_empty() || text::contains(name, '/') || text::contains(name, '[') || text::contains(
        name,
        ']',
    ) || text::contains(name, '\0') {
        Err(
            text::joined3(
                "roots key ",
                &text::quoted(name),
                " must be a non-empty display name without '/', '[', ']', or NUL",
            ),
        )
    } else {
        Ok(())
    }
}

/// A pattern as a gitignore line: one that holds a separator matches at any depth.
pub open spec fn gitignore_line(pattern: Seq<char>) -> Seq<char> {
    let negated = pattern.len() > 0 && pattern[0] == '!';
    let body = if negated {
        pattern.skip(1)
    } else {
        pattern
    };
    if (body.len() > 0 && body[0] == '/') || !body.contains('/') || (pattern.len() > 0
        && pattern[0] == '#') {
        pattern
    } else if negated {
        "!"@ + "**/"@ + body
    } else {
        "**/"@ + body
    }
}

/// A pattern as a gitignore line: one that holds a separator matches at any depth.
pub fn gitignore_pattern(pattern: &str) -> (r: String)
    ensures
        r@ == gitignore_line(pattern@),
{
    let chars = text::chars_of(pattern);
    let negated = chars.len() > 0 && chars[0] == '!';
    let body = if negated {
        text::slice_of(&chars, 1, chars.len())
    } else {
        text::text_of(&chars)
    };
    proof {
        if negated {
            assert(body@ =~= pattern@.skip(1));
        }
    }
    let start: usize = if negated {
        1
    } else {
        0
    };
    let rooted = start < chars.len() && chars[start] == '/';
    let comment = chars.len() > 0 && chars[0] == '#';
    if rooted || !text::contains(&body, '/') || comment {
        pattern.to_owned()
    } else if negated {
        text::joined3("!", "**/", &body)
    } else {
        text::joined("**/", &body)
    }
}

pub open spec fn unusable_pattern(pattern: Seq<char>, reason: Seq<char>) -> Seq<char> {
    "ignore value "@ + text::quoted_text(pattern) + " is not a valid gitignore pattern: "@ + reason
}

/// Whether a pattern can be used, and if not, why.
pub open spec fn checked_pattern(pattern: Seq<char>) -> Result<(), Seq<char>> {
    if pattern.len() == 0 || pattern.contains('\0') {
        Err(
            "ignore value "@ + text::quoted_text(pattern)
                + " must be a non-empty gitignore pattern without NUL"@,
        )
    } else {
        match patterns::line_globs(gitignore_line(pattern)) {
            Err(reason) => Err(unusable_pattern(pattern, reason)),
            Ok(globs) => match patterns::build_failure(globs) {
                Some(reason) => Err(unusable_pattern(pattern, reason)),
                None => Ok(()),
            },
        }
    }
}

fn validate_ignore_pattern(pattern: &str) -> (r: Result<(), String>)
    ensures
        match checked_pattern(pattern@) {
            Ok(_) => r is Ok,
            Err(message) => r is Err && r->Err_0@ == message,
        },
{
    if pattern.is_empty() || text::contains(pattern, '\0') {
        return Err(
            text::joined3(
                "ignore value ",
                &text::quoted(pattern),
                " must be a non-empty gitignore pattern without NUL",
            ),
        );
    }
    let mut builder = patterns::new_builder("");
    if let Err(reason) = patterns::add_line(&mut builder, &gitignore_pattern(pattern)) {
        let mut m = text::joined3(
            "ignore value ",
            &text::quoted(pattern),
            " is not a valid gitignore pattern: ",
        );
        m.append(&reason);
        return Err(m);
    }
    let ghost globs = patterns::line_globs(gitignore_line(pattern@))->Ok_0;
    assert(Seq::<Seq<char>>::empty() + globs =~= globs);
    match patterns::build(&builder) {
        Ok(_) => Ok(()),
        Err(reason) => {
            let mut m = text::joined3(
                "ignore value ",
                &text::quoted(pattern),
                " is not a valid gitignore pattern: ",
            );
            m.append(&reason);
            Err(m)
        },
    }
}

/// `path` without `.`, `..`, repeated and trailing separators.
pub fn normalize(path: &PathBuf) -> (r: PathBuf)
    ensures
        r@ == path::normalized(path@),
{
    path.normalize()
}

fn require_absolute(field: &'static str, path: &PathBuf) -> (r: Result<(), ConfigurationError>)
    ensures
        r is Ok <==> path::absolute(path@),
        r is Err ==> r->Err_0@ == (ConfigurationErrorView::RelativePath {
            field: field@,
            path: text::lossy_text(path@),
        }),
{
    if path.is_absolute() {
        Ok(())
    } else {
        Err(ConfigurationError::RelativePath { field, path: path.display() })
    }
}

/// The directory that an entry names, or why it cannot.
pub open spec fn resolved_root(
    entry: RootEntryView,
    environment: EnvironmentView,
) -> Result<NamedRootView, ConfigurationErrorView> {
    match expanded_path(entry.value, environment) {
        Err(name) => Err(ConfigurationErrorView::MissingVariable(name)),
        Ok(root) => if path::absolute(root) {
            Ok(NamedRootView { name: entry.name, root: path::normalized(root) })
        } else {
            Err(
                ConfigurationErrorView::Invalid {
                    path: config_path_of(environment),
                    message: "roots."@ + entry.name + " must resolve to an absolute path, got "@
                        + text::lossy_text(root),
                },
            )
        },
    }
}

pub open spec fn root_resolver(environment: EnvironmentView) -> spec_fn(RootEntryView) -> Result<
    NamedRootView,
    ConfigurationErrorView,
> {
    |entry: RootEntryView| resolved_root(entry, environment)
}

fn resolve_root(entry: &RootEntry, environment: &Environment) -> (r: Result<
    NamedRoot,
    ConfigurationError,
>)
    ensures
        match resolved_root(entry@, environment@) {
            Ok(root) => r is Ok && r->Ok_0@ == root,
            Err(error) => r is Err && r->Err_0@ == error,
        },
{
    match expand_path(&entry.value, environment) {
        Err(error) => Err(error),
        Ok(root) => if root.is_absolute() {
            Ok(NamedRoot { name: entry.name.clone(), root: root.normalize() })
        } else {
            let mut m = text::joined3(
                "roots.",
                &entry.name,
                " must resolve to an absolute path, got ",
            );
            m.append(&root.display());
            Err(ConfigurationError::Invalid { path: config_path(environment), message: m })
        },
    }
}

pub open spec fn pattern_checker() -> spec_fn(Seq<char>) -> Result<(), Seq<char>> {
    |pattern: Seq<char>| checked_pattern(pattern)
}

pub open spec fn root_name_checker() -> spec_fn(RootEntryView) -> Result<(), Seq<char>> {
    |entry: RootEntryView|
        if valid_root_name(entry.name) {
            Ok(())
        } else {
            Err(root_name_problem(entry.name))
        }
}

/// Entries are ordered by name.
pub open spec fn entry_order() -> spec_fn(RootEntryView, RootEntryView) -> bool {
    |a: RootEntryView, b: RootEntryView| text::text_order()(a.name, b.name)
}

/// Why the contents of a configuration file cannot be used, if they cannot.
pub open spec fn checked_file(file: ConfigFileView) -> Result<(), Seq<char>> {
    if file.version != 1 {
        Err(
            "unsupported configuration version "@ + text::decimal(file.version as nat)
                + "; expected 1"@,
        )
    } else {
        match views::collected(file.ignore, pattern_checker()) {
            Err(message) => Err(message),
            Ok(_) => match views::collected(
                order::stably_sorted(file.roots, entry_order()),
                root_name_checker(),
            ) {
                Err(message) => Err(message),
                Ok(_) => Ok(()),
            },
        }
    }
}

/// The configured directory for Managed Links, as text.
pub open spec fn raw_bin_dir(
    configured: Option<Seq<char>>,
    environment: EnvironmentView,
) -> Seq<char> {
    match configured {
        Some(value) => value,
        None => match environment.variable("XDG_BIN_HOME"@) {
            Some(value) => text::lossy_text(value),
            None => text::lossy_text(
                path::joined(environment.home, utf8::encode_utf8(".local/bin"@)),
            ),
        },
    }
}

/// The directory for Managed Links, or why there is none.
pub open spec fn resolved_bin_dir(
    configured: Option<Seq<char>>,
    environment: EnvironmentView,
) -> Result<Seq<u8>, ConfigurationErrorView> {
    match expanded_path(raw_bin_dir(configured, environment), environment) {
        Err(name) => Err(ConfigurationErrorView::MissingVariable(name)),
        Ok(bin_dir) => if path::absolute(bin_dir) {
            Ok(path::normalized(bin_dir))
        } else {
            Err(
                ConfigurationErrorView::RelativePath {
                    field: "bin_dir"@,
                    path: text::lossy_text(bin_dir),
                },
            )
        },
    }
}

/// The configuration that checked contents stand for; without contents, the defaults.
pub open spec fn configured(
    file: Option<ConfigFileView>,
    environment: EnvironmentView,
) -> Result<ConfigurationView, ConfigurationErrorView> {
    let entries = match file {
        Some(file) => order::stably_sorted(file.roots, entry_order()),
        None => Seq::empty(),
    };
    match views::collected(entries, root_resolver(environment)) {
        Err(error) => Err(error),
        Ok(roots) => match resolved_bin_dir(
            match file {
                Some(file) => file.bin_dir,
                None => None,
            },
            environment,
        ) {
            Err(error) => Err(error),
            Ok(bin_dir) => Ok(
                ConfigurationView {
                    bin_dir,
                    ignore: match file {
                        Some(file) => file.ignore,
                        None => Seq::empty(),
                    },
                    roots,
                },
            ),
        },
    }
}

/// The configuration of an environment whose configuration file was read with this outcome.
pub open spec fn loaded(
    environment: EnvironmentView,
    read: FileReadView<ConfigFileView>,
) -> Result<ConfigurationView, ConfigurationErrorView> {
    if environment.home.len() == 0 {
        Err(ConfigurationErrorView::MissingHome)
    } else if !path::absolute(config_home_of(environment)) {
        Err(
            ConfigurationErrorView::RelativePath {
                field: "XDG_CONFIG_HOME"@,
                path: text::lossy_text(config_home_of(environment)),
            },
        )
    } else {
        match read {
            FileReadView::Missing => configured(None, environment),
            FileReadView::Unreadable(source) => Err(
                ConfigurationErrorView::Read { path: config_path_of(environment), source },
            ),
            FileReadView::Malformed(message) => Err(
                ConfigurationErrorView::Invalid { path: config_path_of(environment), message },
            ),
            FileReadView::Parsed(file) => match checked_file(file) {
                Err(message) => Err(
                    ConfigurationErrorView::Invalid { path: config_path_of(environment), message },
                ),
                Ok(_) => configured(Some(file), environment),
            },
        }
    }
}

fn check_file(version: u32, ignore: &Vec<String>, roots: &Vec<RootEntry>, file: Ghost<
    ConfigFileView,
>) -> (r: Result<(), String>)
    requires
        version == file@.version,
        views::views(ignore@) == file@.ignore,
        views::views(roots@) == order::stably_sorted(file@.roots, entry_order()),
    ensures
        match checked_file(file@) {
            Ok(_) => r is Ok,
            Err(message) => r is Err && r->Err_0@ == message,
        },
{
    if version != 1 {
        return Err(
            text::joined3(
                "unsupported configuration version ",
                &text::decimal_of(version as u128),
                "; expected 1",
            ),
        );
    }
    let ghost patterns = views::views(ignore@);
    let ghost entries = views::views(roots@);
    let mut i: usize = 0;
    proof {
        views::collected_of_none(patterns, pattern_checker());
    }
    while i < ignore.len()
        invariant
            i <= ignore@.len(),
            version == 1,
            version == file@.version,
            patterns == views::views(ignore@),
            patterns == file@.ignore,
            views::collected(patterns.take(i as int), pattern_checker()) is Ok,
        decreases ignore.len() - i,
    {
        proof {
            views::collected_step(patterns, pattern_checker(), i as int);
        }
        if let Err(message) = validate_ignore_pattern(&ignore[i]) {
            return Err(message);
        }
        i = i + 1;
    }
    assert(patterns.take(i as int) =~= patterns);
    let mut k: usize = 0;
    proof {
        views::collected_of_none(entries, root_name_checker());
    }
    while k < roots.len()
        invariant
            k <= roots@.len(),
            version == 1,
            version == file@.version,
            views::collected(file@.ignore, pattern_checker()) is Ok,
            entries == views::views(roots@),
            entries == order::stably_sorted(file@.roots, entry_order()),
            views::collected(entries.take(k as int), root_name_checker()) is Ok,
        decreases roots.len() - k,
    {
        proof {
            views::collected_step(entries, root_name_checker(), k as int);
        }
        if let Err(message) = validate_root_name(&roots[k].name) {
            return Err(message);
        }
        k = k + 1;
    }
    assert(entries.take(k as int) =~= entries);
    Ok(())
}

/// The configuration of an environment, given the outcome of reading its configuration file.
pub fn load(environment: &Environment, read: FileRead<ConfigFile>) -> (r: Result<
    Configuration,
    ConfigurationError,
>)
    ensures
        match loaded(environment@, read@) {
            Ok(configuration) => r is Ok && r->Ok_0@ == configuration,
            Err(error) => r is Err && r->Err_0@ == error,
        },
{
    if environment.home().is_empty() {
        return Err(ConfigurationError::MissingHome);
    }
    if let Err(error) = require_absolute("XDG_CONFIG_HOME", &config_home(environment)) {
        return Err(error);
    }
    let path = config_path(environment);
    let ghost mut contents: Option<ConfigFileView> = None;
    let bin_dir: Option<String>;
    let ignore: Vec<String>;
    let entries: Vec<RootEntry>;
    match read {
        FileRead::Unreadable(source) => {
            return Err(ConfigurationError::Read { path, source });
        },
        FileRead::Malformed(message) => {
            return Err(ConfigurationError::Invalid { path, message });
        },
        FileRead::Missing => {
            bin_dir = None;
            ignore = Vec::new();
            entries = Vec::new();
        },
        FileRead::Parsed(file) => {
            proof {
                contents = Some(file@);
                views::views_of_sorted(file.roots@, entry_order());
            }
            entries = order::stable_sort(file.roots);
            if let Err(message) = check_file(
                file.version,
                &file.ignore,
                &entries,
                Ghost(contents->0),
            ) {
                return Err(ConfigurationError::Invalid { path, message });
            }
            bin_dir = file.bin_dir;
            ignore = file.ignore;
        },
    }
    let ghost expected = match contents {
        Some(file) => order::stably_sorted(file.roots, entry_order()),
        None => Seq::empty(),
    };
    assert(views::views(entries@) =~= expected);
    let mut roots: Vec<NamedRoot> = Vec::new();
    let ghost resolver = root_resolver(environment@);
    proof {
        views::collected_of_none(expected, resolver);
    }
    assert(views::views(roots@) =~= Seq::empty());
    let mut i: usize = 0;
    while i < entries.len()
        invariant
            i <= entries@.len(),
            resolver == root_resolver(environment@),
            expected == views::views(entries@),
            views::collected(expected.take(i as int), resolver) == Ok::<
                Seq<NamedRootView>,
                ConfigurationErrorView,
            >(views::views(roots@)),
            loaded(environment@, read@) == configured(contents, environment@),
            expected == (match contents {
                Some(file) => order::stably_sorted(file.roots, entry_order()),
                None => Seq::empty(),
            }),
        decreases entries.len() - i,
    {
        proof {
            views::collected_step(expected, resolver, i as int);
        }
        match resolve_root(&entries[i], environment) {
            Err(error) => {
                return Err(error);
            },
            Ok(root) => {
                let ghost before = roots@;
                roots.push(root);
                assert(views::views(roots@) =~= views::views(before).push(root@));
            },
        }
        i = i + 1;
    }
    assert(expected.take(i as int) =~= expected);
    let raw_bin = match bin_dir {
        Some(value) => value,
        None => match environment.variable("XDG_BIN_HOME") {
            Some(value) => text::lossy(value),
            None => environment.home().join_text(".local/bin").display(),
        },
    };
    let bin_dir = match expand_path(&raw_bin, environment) {
        Ok(bin_dir) => bin_dir,
        Err(error) => {
            return Err(error);
        },
    };
    if let Err(error) = require_absolute("bin_dir", &bin_dir) {
        return Err(error);
    }
    let r = Configuration { bin_dir: bin_dir.normalize(), ignore, roots };
    assert(r@.ignore =~= match contents {
        Some(file) => file.ignore,
        None => Seq::empty(),
    });
    Ok(r)
}

} // verus!
