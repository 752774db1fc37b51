//! What holds of every configuration that loads.

use vstd::prelude::*;
use vstd::utf8;

use crate::configuration;
use crate::configuration::{ConfigFileView, Reference};
use crate::environment::EnvironmentView;
use crate::host::FileReadView;
use crate::order;
use crate::path;
use crate::registry;
use crate::text;
use crate::views;

verus! {

/// The path is absolute, and normalizing it changes nothing.
pub open spec fn settled(s: Seq<u8>) -> bool {
    path::absolute(s) && path::normalized(s) == s
}

proof fn normalized_paths_are_settled(s: Seq<u8>)
    requires
        path::absolute(s),
    ensures
        settled(path::normalized(s)),
{
    path::names_of_normalized(s);
    path::normalizing_is_idempotent(s);
}

/// Every path of a configuration that loads is absolute and normalized.
pub proof fn configured_paths_are_absolute(
    environment: EnvironmentView,
    read: FileReadView<ConfigFileView>,
)
    requires
        configuration::loaded(environment, read) is Ok,
    ensures
        settled(configuration::loaded(environment, read)->Ok_0.bin_dir),
        forall|i: int|
            0 <= i < configuration::loaded(environment, read)->Ok_0.roots.len() ==> settled(
                (#[trigger] configuration::loaded(environment, read)->Ok_0.roots[i]).root,
            ),
{
    let file = match read {
        FileReadView::Parsed(file) => Some(file),
        _ => None,
    };
    let entries = match file {
        Some(file) => order::stably_sorted(file.roots, configuration::entry_order()),
        None => Seq::empty(),
    };
    let resolver = configuration::root_resolver(environment);
    views::collected_elements(entries, resolver);
    let roots = configuration::loaded(environment, read)->Ok_0.roots;
    assert forall|i: int| 0 <= i < roots.len() implies settled((#[trigger] roots[i]).root) by {
        assert(resolver(entries[i]) == Ok::<_, configuration::ConfigurationErrorView>(roots[i]));
        let root = configuration::expanded_path(entries[i].value, environment)->Ok_0;
        normalized_paths_are_settled(root);
    }
    let configured = match file {
        Some(file) => file.bin_dir,
        None => None,
    };
    normalized_paths_are_settled(
        configuration::expanded_path(
            configuration::raw_bin_dir(configured, environment),
            environment,
        )->Ok_0,
    );
}

/// Of the versions of the file format only the first one loads.
pub proof fn only_one_version_loads(environment: EnvironmentView, file: ConfigFileView)
    requires
        configuration::loaded(environment, FileReadView::Parsed(file)) is Ok,
    ensures
        file.version == 1,
{
}

/// The directory for Managed Links is the one that is configured, else the one that the
/// environment names.
pub proof fn the_configured_directory_comes_first(
    environment: EnvironmentView,
    file: ConfigFileView,
)
    requires
        configuration::loaded(environment, FileReadView::Parsed(file)) is Ok,
    ensures
        ({
            let bin_dir = configuration::loaded(environment, FileReadView::Parsed(
                file,
            ))->Ok_0.bin_dir;
            match (file.bin_dir, environment.variable("XDG_BIN_HOME"@)) {
                (Some(value), _) => configuration::expanded_path(value, environment) matches Ok(p)
                    && bin_dir == path::normalized(p),
                (None, Some(value)) => configuration::expanded_path(
                    text::lossy_text(value),
                    environment,
                ) matches Ok(p) && bin_dir == path::normalized(p),
                (None, None) => true,
            }
        }),
{
}

/// Without a configuration and a variable that names another directory, Managed Links lie in
/// `.local/bin` of the home directory, unless a `$` in its path would be taken for a variable.
pub proof fn links_lie_below_the_home_directory(environment: EnvironmentView)
    requires
        path::absolute(environment.home),
        utf8::valid_utf8(environment.home),
        !environment.home.contains(36u8),
        environment.variable("XDG_BIN_HOME"@) is None,
        path::absolute(configuration::config_home_of(environment)),
    ensures
        configuration::loaded(
            environment,
            FileReadView::Missing,
        ) matches Ok(configuration) && configuration.bin_dir == path::normalized(
            path::joined(environment.home, utf8::encode_utf8(".local/bin"@)),
        ) && configuration.roots.len() == 0 && configuration.ignore.len() == 0,
{
    let home = environment.home;
    let tail = ".local/bin"@;
    let t = utf8::encode_utf8(tail);
    reveal_strlit(".local/bin");
    assert(!tail.contains('$'));
    text::ascii_bytes_of_text(tail, 36u8);
    assert(36u8 as char == '$');
    let rest = tail.skip(1);
    assert(tail =~= seq!['.'] + rest);
    text::encoding_of_ascii('.', rest);
    assert(!path::absolute(t));
    let whole = path::joined(home, t);
    path::lead_of_joined(home, t);
    let head = utf8::decode_utf8(home);
    utf8::decode_utf8_encode_utf8(home);
    let middle = if home.last() != path::SLASH {
        seq!['/']
    } else {
        Seq::<char>::empty()
    };
    let spelled = head + middle + tail;
    text::encoding_of_appended(head + middle, tail);
    text::encoding_of_appended(head, middle);
    assert(utf8::encode_utf8(Seq::<char>::empty()).len() == 0);
    text::encoding_of_ascii('/', Seq::<char>::empty());
    assert(seq!['/'] + Seq::<char>::empty() =~= seq!['/']);
    assert(utf8::encode_utf8(spelled) =~= whole);
    utf8::encode_utf8_valid_utf8(spelled);
    assert(!whole.contains(36u8)) by {
        if whole.contains(36u8) {
            let i = choose|i: int| 0 <= i < whole.len() && whole[i] == 36u8;
            if i < home.len() {
                assert(home.contains(home[i]));
            } else if i >= whole.len() - t.len() {
                assert(t.contains(t[i - (whole.len() - t.len())]));
            }
        }
    }
    registry::absolute_text_keeps_its_home(whole, home);
    registry::decoded_without_references(whole);
    configuration::text_without_references(utf8::decode_utf8(whole), environment.variables);
    utf8::decode_utf8_encode_utf8(whole);
    assert(views::collected(
        Seq::<configuration::RootEntryView>::empty(),
        configuration::root_resolver(environment),
    ) is Ok);
}

/// A text refers to a variable.
pub open spec fn refers_to(s: Seq<char>, name: Seq<char>) -> bool
    decreases s.len(),
{
    if s.len() == 0 {
        false
    } else if s[0] != '$' {
        refers_to(s.skip(1), name)
    } else {
        let after = s.skip(1);
        match configuration::reference(after) {
            Reference::Unclosed => false,
            Reference::Named { name: found, len } => if found.len() == 0 {
                refers_to(after, name)
            } else {
                proof {
                    configuration::reference_fits(after);
                }
                found == name || refers_to(after.skip(len), name)
            },
        }
    }
}

/// Two environments differ in one variable at most.
pub open spec fn differ_in(a: EnvironmentView, b: EnvironmentView, name: Seq<char>) -> bool {
    &&& a.home == b.home
    &&& a.cwd == b.cwd
    &&& a.variables.remove(name) == b.variables.remove(name)
}

proof fn other_variables_are_the_same(
    a: EnvironmentView,
    b: EnvironmentView,
    name: Seq<char>,
    other: Seq<char>,
)
    requires
        differ_in(a, b, name),
        other != name,
    ensures
        a.variables.contains_key(other) == b.variables.contains_key(other),
        a.variables.contains_key(other) ==> a.variables[other] == b.variables[other],
        a.variable(other) == b.variable(other),
{
    let left = a.variables.remove(name);
    let right = b.variables.remove(name);
    assert(left.contains_key(other) == a.variables.contains_key(other));
    assert(right.contains_key(other) == b.variables.contains_key(other));
    if left.contains_key(other) {
        assert(left[other] == a.variables[other]);
        assert(right[other] == b.variables[other]);
    }
}

/// What a text does not refer to has no part in what it stands for.
pub proof fn unused_variables_do_not_matter(
    s: Seq<char>,
    a: EnvironmentView,
    b: EnvironmentView,
    name: Seq<char>,
)
    requires
        differ_in(a, b, name),
        !refers_to(s, name),
    ensures
        configuration::substituted(s, a.variables) == configuration::substituted(s, b.variables),
    decreases s.len(),
{
    if s.len() > 0 {
        if s[0] != '$' {
            unused_variables_do_not_matter(s.skip(1), a, b, name);
        } else {
            let after = s.skip(1);
            if let Reference::Named { name: found, len } = configuration::reference(after) {
                configuration::reference_fits(after);
                if found.len() == 0 {
                    unused_variables_do_not_matter(after, a, b, name);
                } else {
                    other_variables_are_the_same(a, b, name, found);
                    unused_variables_do_not_matter(after.skip(len), a, b, name);
                }
            }
        }
    }
}

/// A configured directory wins over the one that the environment names: where a file sets
/// `bin_dir`, two environments that differ in `XDG_BIN_HOME` alone load the same configuration, or
/// fail with the same error, unless a path of the file refers to that variable.
pub proof fn the_environment_gives_way(
    a: EnvironmentView,
    b: EnvironmentView,
    file: ConfigFileView,
    bin_dir: Seq<char>,
)
    requires
        differ_in(a, b, "XDG_BIN_HOME"@),
        file.bin_dir == Some(bin_dir),
        !refers_to(configuration::with_home(bin_dir, a.home), "XDG_BIN_HOME"@),
        forall|i: int|
            0 <= i < file.roots.len() ==> !refers_to(
                configuration::with_home((#[trigger] file.roots[i]).value, a.home),
                "XDG_BIN_HOME"@,
            ),
    ensures
        configuration::loaded(a, FileReadView::Parsed(file)) == configuration::loaded(
            b,
            FileReadView::Parsed(file),
        ),
        configuration::loaded(a, FileReadView::Parsed(file)) matches Ok(configuration) ==> (
        configuration::expanded_path(bin_dir, a) matches Ok(p) && configuration.bin_dir
            == path::normalized(p)),
{
    let name = "XDG_BIN_HOME"@;
    reveal_strlit("XDG_BIN_HOME");
    reveal_strlit("XDG_CONFIG_HOME");
    assert("XDG_CONFIG_HOME"@.len() != name.len());
    other_variables_are_the_same(a, b, name, "XDG_CONFIG_HOME"@);
    let entries = order::stably_sorted(file.roots, configuration::entry_order());
    assert forall|i: int| 0 <= i < entries.len() implies configuration::root_resolver(a)(
        #[trigger] entries[i],
    ) == configuration::root_resolver(b)(entries[i]) by {
        broadcast use vstd::seq_lib::group_to_multiset_ensures;

        order::stable_sort_is_a_permutation(file.roots, configuration::entry_order());
        assert(entries.to_multiset().contains(entries[i]));
        assert(file.roots.contains(entries[i]));
        let j = choose|j: int| 0 <= j < file.roots.len() && file.roots[j] == entries[i];
        unused_variables_do_not_matter(
            configuration::with_home(file.roots[j].value, a.home),
            a,
            b,
            name,
        );
    }
    views::collected_alike(
        entries,
        configuration::root_resolver(a),
        configuration::root_resolver(b),
    );
    unused_variables_do_not_matter(configuration::with_home(bin_dir, a.home), a, b, name);
}

/// Where the environment names a directory for configuration, the file that is read lies there, and
/// the home directory has no part in where it lies.
pub proof fn the_named_configuration_is_read(environment: EnvironmentView, home: Seq<u8>)
    requires
        environment.variable("XDG_CONFIG_HOME"@) is Some,
    ensures
        configuration::config_path_of(environment) == path::joined(
            environment.variable("XDG_CONFIG_HOME"@)->0,
            utf8::encode_utf8("bintui/config.toml"@),
        ),
        configuration::config_path_of(environment) == configuration::config_path_of(
            EnvironmentView { home, ..environment },
        ),
{
    assert((EnvironmentView { home, ..environment }).variable("XDG_CONFIG_HOME"@)
        == environment.variable("XDG_CONFIG_HOME"@));
}

/// A configured pattern is a gitignore line as it stands, unless it names a path: one that holds a
/// separator, but none in front, matches at any depth. What counts is what stands behind a `!` that
/// negates the pattern, and a comment stays one.
pub proof fn how_a_pattern_becomes_a_line(pattern: Seq<char>)
    ensures
        ({
            let line = configuration::gitignore_line(pattern);
            let start: int = if pattern.len() > 0 && pattern[0] == '!' {
                1
            } else {
                0
            };
            let rooted = start < pattern.len() && pattern[start] == '/';
            let nested = exists|i: int| start <= i < pattern.len() && #[trigger] pattern[i] == '/';
            let comment = pattern.len() > 0 && pattern[0] == '#';
            if rooted || !nested || comment {
                line == pattern
            } else {
                line == pattern.take(start) + seq!['*', '*', '/'] + pattern.skip(start)
            }
        }),
{
    reveal_strlit("!");
    reveal_strlit("**/");
    let negated = pattern.len() > 0 && pattern[0] == '!';
    let start: int = if negated {
        1
    } else {
        0
    };
    let body = pattern.skip(start);
    assert(pattern.skip(0) =~= pattern);
    assert(forall|i: int| 0 <= i < body.len() ==> #[trigger] body[i] == pattern[i + start]);
    if body.contains('/') {
        let i = choose|i: int| 0 <= i < body.len() && body[i] == '/';
        assert(pattern[i + start] == '/');
    }
    if exists|i: int| start <= i < pattern.len() && #[trigger] pattern[i] == '/' {
        let i = choose|i: int| start <= i < pattern.len() && #[trigger] pattern[i] == '/';
        assert(body[i - start] == '/');
    }
    assert(pattern.take(0) + seq!['*', '*', '/'] + body =~= "**/"@ + body);
    if negated {
        assert(pattern.take(1) =~= "!"@);
        assert("!"@ + "**/"@ =~= pattern.take(1) + seq!['*', '*', '/']);
    }
}

} // verus!
