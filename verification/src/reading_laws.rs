//! What the files of the program stand for.

use vstd::prelude::*;
use vstd::utf8;

use crate::configuration;
use crate::configuration::{ConfigFileView, ConfigurationView, NamedRootView, RootEntryView};
use crate::environment::EnvironmentView;
use crate::host::FileReadView;
use crate::model::RegistrationView;
use crate::order;
use crate::path;
use crate::patterns;
use crate::registry;
use crate::registry::{RegistrationFileView, RegistryErrorView, RegistryFileView};
use crate::text;
use crate::views;

verus! {

/// A letter or digit of ASCII, or an underscore.
pub open spec fn names_a_variable(c: char) -> bool {
    97 <= c as int <= 122 || 65 <= c as int <= 90 || 48 <= c as int <= 57 || c == '_'
}

/// What stands before the first `$` stays.
pub proof fn text_before_a_reference_stays(
    before: Seq<char>,
    rest: Seq<char>,
    variables: Map<Seq<char>, Seq<u8>>,
)
    requires
        !before.contains('$'),
    ensures
        configuration::substituted(before + rest, variables) == match configuration::substituted(
            rest,
            variables,
        ) {
            Ok(done) => Ok::<Seq<char>, Seq<char>>(before + done),
            Err(name) => Err(name),
        },
    decreases before.len(),
{
    if before.len() == 0 {
        assert(before + rest =~= rest);
        if let Ok(done) = configuration::substituted(rest, variables) {
            assert(before + done =~= done);
        }
    } else {
        let s = before + rest;
        assert(before[0] != '$');
        let later = before.skip(1);
        assert(!later.contains('$')) by {
            if later.contains('$') {
                let i = choose|i: int| 0 <= i < later.len() && later[i] == '$';
                assert(before[i + 1] == '$');
            }
        }
        text_before_a_reference_stays(later, rest, variables);
        assert(s.skip(1) =~= later + rest);
        if let Ok(done) = configuration::substituted(rest, variables) {
            assert(s.take(1) + (later + done) =~= before + done);
        }
    }
}

/// What a reference stands for: the value of the variable that it names, which is not searched for
/// references again; a variable that is not set is an error.
pub open spec fn replaced(
    name: Seq<char>,
    rest: Seq<char>,
    variables: Map<Seq<char>, Seq<u8>>,
) -> Result<Seq<char>, Seq<char>> {
    if !variables.contains_key(name) {
        Err(name)
    } else {
        match configuration::substituted(rest, variables) {
            Ok(done) => Ok(text::lossy_text(variables[name]) + done),
            Err(missing) => Err(missing),
        }
    }
}

/// `$NAME` stands for a variable: its name goes as far as letters, digits and underscores do.
pub proof fn what_a_reference_stands_for(
    name: Seq<char>,
    rest: Seq<char>,
    variables: Map<Seq<char>, Seq<u8>>,
)
    requires
        name.len() > 0,
        forall|i: int| 0 <= i < name.len() ==> names_a_variable(#[trigger] name[i]),
        rest.len() == 0 || !names_a_variable(rest[0]),
    ensures
        configuration::substituted(seq!['$'] + name + rest, variables) == replaced(
            name,
            rest,
            variables,
        ),
{
    let s = seq!['$'] + name + rest;
    let after = s.skip(1);
    assert(after =~= name + rest);
    assert forall|i: int| 0 <= i < name.len() implies configuration::name_char(
        #[trigger] after[i],
    ) by {
        assert(names_a_variable(name[i]));
    }
    configuration::name_len_at(after, name.len() as int);
    assert(names_a_variable(name[0]));
    assert(after[0] != '{');
    assert(after.take(name.len() as int) =~= name);
    assert(after.skip(name.len() as int) =~= rest);
}

proof fn first_index_is(s: Seq<char>, from: int, c: char, at: int)
    requires
        0 <= from <= at < s.len(),
        s[at] == c,
        forall|i: int| from <= i < at ==> s[i] != c,
    ensures
        text::first_index(s, from, c) == Some(at),
    decreases at - from,
{
    if from < at {
        first_index_is(s, from + 1, c, at);
    }
}

proof fn no_first_index(s: Seq<char>, from: int, c: char)
    requires
        0 <= from,
        forall|i: int| from <= i < s.len() ==> s[i] != c,
    ensures
        text::first_index(s, from, c) is None,
    decreases s.len() - from,
{
    if from < s.len() {
        no_first_index(s, from + 1, c);
    }
}

/// `${NAME}` stands for a variable too, whatever characters its name is made of; a brace that is not
/// closed is an error.
pub proof fn what_a_braced_reference_stands_for(
    name: Seq<char>,
    rest: Seq<char>,
    variables: Map<Seq<char>, Seq<u8>>,
)
    requires
        name.len() > 0,
        !name.contains('}'),
    ensures
        configuration::substituted(seq!['$', '{'] + name + seq!['}'] + rest, variables) == replaced(
            name,
            rest,
            variables,
        ),
        configuration::substituted(seq!['$', '{'] + name, variables) == Err::<
            Seq<char>,
            Seq<char>,
        >(name),
{
    let s = seq!['$', '{'] + name + seq!['}'] + rest;
    let after = s.skip(1);
    assert(after =~= seq!['{'] + name + seq!['}'] + rest);
    assert forall|i: int| 1 <= i < name.len() + 1 implies after[i] != '}' by {
        assert(after[i] == name[i - 1]);
    }
    let n = name.len() as int;
    first_index_is(after, 1, '}', n + 1);
    assert(after.subrange(1, n + 1) =~= name);
    assert(after.skip(n + 2) =~= rest);
    let open = seq!['$', '{'] + name;
    let inner = open.skip(1);
    assert(inner =~= seq!['{'] + name);
    assert forall|i: int| 1 <= i < inner.len() implies inner[i] != '}' by {
        assert(inner[i] == name[i - 1]);
    }
    no_first_index(inner, 1, '}');
    assert(inner.skip(1) =~= name);
}

/// A `$` that no name follows stays.
pub proof fn a_lone_sign_stays(rest: Seq<char>, variables: Map<Seq<char>, Seq<u8>>)
    requires
        rest.len() == 0 || (!names_a_variable(rest[0]) && rest[0] != '{'),
    ensures
        configuration::substituted(seq!['$'] + rest, variables) == match configuration::substituted(
            rest,
            variables,
        ) {
            Ok(done) => Ok::<Seq<char>, Seq<char>>(seq!['$'] + done),
            Err(name) => Err(name),
        },
{
    let s = seq!['$'] + rest;
    assert(s.skip(1) =~= rest);
    assert(s.take(1) =~= seq!['$']);
    configuration::name_len_at(rest, 0);
}

/// `~` is the home directory, and what begins with `~/` lies below it; no other text is changed
/// before its references are replaced.
pub proof fn what_a_tilde_stands_for(value: Seq<char>, environment: EnvironmentView)
    ensures
        ({
            let spelled = if value == seq!['~'] {
                text::lossy_text(environment.home)
            } else if value.len() >= 2 && value[0] == '~' && value[1] == '/' {
                text::lossy_text(
                    path::joined(environment.home, utf8::encode_utf8(value.skip(2))),
                )
            } else {
                value
            };
            configuration::expanded_path(value, environment) == match configuration::substituted(
                spelled,
                environment.variables,
            ) {
                Ok(done) => Ok::<Seq<u8>, Seq<char>>(utf8::encode_utf8(done)),
                Err(name) => Err(name),
            }
        }),
{
    reveal_strlit("~");
    reveal_strlit("~/");
    assert("~"@ =~= seq!['~']);
    assert("~/"@ =~= seq!['~', '/']);
    if value.len() >= 2 && value[0] == '~' && value[1] == '/' {
        assert(value.take(2) =~= "~/"@);
    }
}

/// The configuration of all programs lies where `XDG_CONFIG_HOME` says, or else in `.config` of the
/// home directory; that of this one in `bintui` there.
pub proof fn where_the_files_lie(environment: EnvironmentView)
    ensures
        ({
            let home = if environment.variables.contains_key("XDG_CONFIG_HOME"@) {
                environment.variables["XDG_CONFIG_HOME"@]
            } else {
                path::joined(environment.home, utf8::encode_utf8(".config"@))
            };
            &&& configuration::config_path_of(environment) == path::joined(
                home,
                utf8::encode_utf8("bintui/config.toml"@),
            )
            &&& registry::registry_path_of(environment) == path::joined(
                home,
                utf8::encode_utf8("bintui/registry.toml"@),
            )
            &&& crate::discovery_ignore::path_of(environment) == path::joined(
                home,
                utf8::encode_utf8("bintui/ignore.toml"@),
            )
            &&& registry::lock_path_of(environment) == path::joined(
                path::joined(home, utf8::encode_utf8("bintui"@)),
                utf8::encode_utf8("registry.lock"@),
            )
            &&& crate::discovery_ignore::lock_path_of(environment) == path::joined(
                path::joined(home, utf8::encode_utf8("bintui"@)),
                utf8::encode_utf8("ignore.lock"@),
            )
        }),
{
}

/// A pattern can be used: it is not empty, holds no NUL, and makes sense as a gitignore line.
pub open spec fn usable_pattern(pattern: Seq<char>) -> bool {
    &&& pattern.len() > 0
    &&& !pattern.contains('\0')
    &&& patterns::line_globs(configuration::gitignore_line(pattern)) matches Ok(globs)
        && patterns::build_failure(globs) is None
}

/// A display root can be used: its name can be told from the rest of a path, and its value stands
/// for an absolute path.
pub open spec fn usable_root(entry: RootEntryView, environment: EnvironmentView) -> bool {
    &&& entry.name.len() > 0
    &&& !entry.name.contains('/')
    &&& !entry.name.contains('[')
    &&& !entry.name.contains(']')
    &&& !entry.name.contains('\0')
    &&& configuration::expanded_path(entry.value, environment) matches Ok(root) && path::absolute(
        root,
    )
}

/// Where Managed Links are to lie, as text.
pub open spec fn bin_dir_text(
    configured: Option<Seq<char>>,
    environment: EnvironmentView,
) -> Seq<char> {
    if configured is Some {
        configured->0
    } else if environment.variables.contains_key("XDG_BIN_HOME"@) {
        text::lossy_text(environment.variables["XDG_BIN_HOME"@])
    } else {
        text::lossy_text(path::joined(environment.home, utf8::encode_utf8(".local/bin"@)))
    }
}

/// A text stands for an absolute path.
pub open spec fn stands_for_a_path(value: Seq<char>, environment: EnvironmentView) -> bool {
    configuration::expanded_path(value, environment) matches Ok(p) && path::absolute(p)
}

/// All is collected exactly where nothing fails.
pub proof fn collected_if_all<A, B, E>(s: Seq<A>, f: spec_fn(A) -> Result<B, E>)
    ensures
        views::collected(s, f) is Ok <==> forall|i: int| 0 <= i < s.len() ==> f(#[trigger] s[i]) is Ok,
{
    if forall|i: int| 0 <= i < s.len() ==> f(#[trigger] s[i]) is Ok {
        let out = Seq::new(s.len(), |i: int| f(s[i])->Ok_0);
        assert forall|i: int| 0 <= i < s.len() implies f(#[trigger] s[i]) == Ok::<B, E>(out[i]) by {
            assert(f(s[i]) is Ok);
        }
        views::all_collected(s, f, out);
    }
    if views::collected(s, f) is Ok {
        views::collected_elements(s, f);
    }
}

/// Sorting keeps what is there.
pub proof fn sorted_elements<A>(s: Seq<A>, less: spec_fn(A, A) -> bool)
    ensures
        forall|x: A| #[trigger] order::stably_sorted(s, less).contains(x) <==> s.contains(x),
        order::stably_sorted(s, less).len() == s.len(),
{
    order::stable_sort_is_a_permutation(s, less);
    let sorted = order::stably_sorted(s, less);
    broadcast use vstd::seq_lib::group_to_multiset_ensures;

    assert forall|x: A| #[trigger] sorted.contains(x) <==> s.contains(x) by {
        assert(sorted.contains(x) <==> sorted.to_multiset().count(x) > 0);
        assert(s.contains(x) <==> s.to_multiset().count(x) > 0);
    }
}

proof fn sorted_roots_are_fine(roots: Seq<RootEntryView>, environment: EnvironmentView)
    ensures
        ({
            let sorted = order::stably_sorted(roots, configuration::entry_order());
            (views::collected(sorted, configuration::root_name_checker()) is Ok
                && views::collected(sorted, configuration::root_resolver(environment)) is Ok)
                <==> forall|i: int|
                0 <= i < roots.len() ==> usable_root(#[trigger] roots[i], environment)
        }),
{
    let sorted = order::stably_sorted(roots, configuration::entry_order());
    let checker = configuration::root_name_checker();
    let resolver = configuration::root_resolver(environment);
    collected_if_all(sorted, checker);
    collected_if_all(sorted, resolver);
    sorted_elements(roots, configuration::entry_order());
    assert forall|entry: RootEntryView|
        (#[trigger] checker(entry) is Ok && resolver(entry) is Ok) <==> usable_root(
            entry,
            environment,
        ) by {}
    if views::collected(sorted, checker) is Ok && views::collected(sorted, resolver) is Ok {
        assert forall|i: int| 0 <= i < roots.len() implies usable_root(
            #[trigger] roots[i],
            environment,
        ) by {
            assert(roots.contains(roots[i]));
            assert(sorted.contains(roots[i]));
            let j = choose|j: int| 0 <= j < sorted.len() && sorted[j] == roots[i];
            assert(checker(sorted[j]) is Ok && resolver(sorted[j]) is Ok);
        }
    }
    if forall|i: int| 0 <= i < roots.len() ==> usable_root(#[trigger] roots[i], environment) {
        assert forall|j: int| 0 <= j < sorted.len() implies checker(#[trigger] sorted[j]) is Ok
            && resolver(sorted[j]) is Ok by {
            assert(sorted.contains(sorted[j]));
            let i = choose|i: int| 0 <= i < roots.len() && roots[i] == sorted[j];
            assert(usable_root(roots[i], environment));
        }
    }
}

/// A configuration file loads exactly where it has the one version, and everything in it can be
/// used.
pub proof fn when_a_configuration_loads(environment: EnvironmentView, file: ConfigFileView)
    ensures
        configuration::loaded(environment, FileReadView::Parsed(file)) is Ok <==> {
            &&& environment.home.len() > 0
            &&& path::absolute(configuration::config_home_of(environment))
            &&& file.version == 1
            &&& forall|i: int| 0 <= i < file.ignore.len() ==> usable_pattern(#[trigger] file.ignore[i])
            &&& forall|i: int|
                0 <= i < file.roots.len() ==> usable_root(#[trigger] file.roots[i], environment)
            &&& stands_for_a_path(bin_dir_text(file.bin_dir, environment), environment)
        },
        configuration::loaded(environment, FileReadView::Missing) is Ok <==> {
            &&& environment.home.len() > 0
            &&& path::absolute(configuration::config_home_of(environment))
            &&& stands_for_a_path(bin_dir_text(None, environment), environment)
        },
{
    let checker = configuration::pattern_checker();
    collected_if_all(file.ignore, checker);
    assert forall|i: int| 0 <= i < file.ignore.len() implies (checker(#[trigger] file.ignore[i])
        is Ok <==> usable_pattern(file.ignore[i])) by {}
    sorted_roots_are_fine(file.roots, environment);
    collected_if_all(Seq::<RootEntryView>::empty(), configuration::root_resolver(environment));
    if forall|i: int| 0 <= i < file.ignore.len() ==> usable_pattern(#[trigger] file.ignore[i]) {
        assert forall|i: int| 0 <= i < file.ignore.len() implies checker(#[trigger] file.ignore[i])
            is Ok by {
            assert(usable_pattern(file.ignore[i]));
        }
    }
}

/// What a configuration file stands for: its patterns as they are, its display roots in the order of
/// their names, each with the path that its value stands for, and the directory for Managed Links
/// that it names, or else the environment, or else the one below the home directory.
pub proof fn what_a_configuration_holds(
    environment: EnvironmentView,
    file: ConfigFileView,
    loaded: ConfigurationView,
)
    requires
        configuration::loaded(environment, FileReadView::Parsed(file)) == Ok::<
            ConfigurationView,
            configuration::ConfigurationErrorView,
        >(loaded),
    ensures
        loaded.ignore == file.ignore,
        loaded.roots.len() == file.roots.len(),
        forall|i: int|
            0 <= i < loaded.roots.len() ==> exists|j: int|
                {
                    &&& 0 <= j < file.roots.len()
                    &&& (#[trigger] file.roots[j]).name == (#[trigger] loaded.roots[i]).name
                    &&& configuration::expanded_path(
                        file.roots[j].value,
                        environment,
                    ) matches Ok(root) && loaded.roots[i].root == path::normalized(root)
                },
        forall|i: int, j: int|
            0 <= i < j < loaded.roots.len() ==> !text::text_order()(
                (#[trigger] loaded.roots[j]).name,
                (#[trigger] loaded.roots[i]).name,
            ),
        configuration::expanded_path(
            bin_dir_text(file.bin_dir, environment),
            environment,
        ) matches Ok(bin_dir) && loaded.bin_dir == path::normalized(bin_dir),
{
    let sorted = order::stably_sorted(file.roots, configuration::entry_order());
    let resolver = configuration::root_resolver(environment);
    views::collected_elements(sorted, resolver);
    sorted_elements(file.roots, configuration::entry_order());
    text::text_order_is_strict();
    order::strict_order_is_weak(text::text_order());
    assert(order::weak_order(configuration::entry_order())) by {
        let less = configuration::entry_order();
        let names = text::text_order();
        assert forall|a: RootEntryView, b: RootEntryView, c: RootEntryView|
            #[trigger] less(a, c) implies less(a, b) || #[trigger] less(b, c) by {
            assert(names(a.name, c.name));
            assert(names(a.name, b.name) || names(b.name, c.name));
        }
        assert forall|a: RootEntryView, b: RootEntryView, c: RootEntryView|
            #[trigger] less(a, b) && #[trigger] less(b, c) implies less(a, c) by {
            assert(names(a.name, b.name) && names(b.name, c.name));
        }
        assert forall|a: RootEntryView| !#[trigger] less(a, a) by {
            assert(!names(a.name, a.name));
        }
    }
    order::stable_sort_sorts(file.roots, configuration::entry_order());
    assert forall|i: int| 0 <= i < loaded.roots.len() implies exists|j: int|
        {
            &&& 0 <= j < file.roots.len()
            &&& (#[trigger] file.roots[j]).name == (#[trigger] loaded.roots[i]).name
            &&& configuration::expanded_path(file.roots[j].value, environment) matches Ok(root)
                && loaded.roots[i].root == path::normalized(root)
        } by {
        assert(resolver(sorted[i]) == Ok::<
            NamedRootView,
            configuration::ConfigurationErrorView,
        >(loaded.roots[i]));
        assert(sorted.contains(sorted[i]));
        let j = choose|j: int| 0 <= j < file.roots.len() && file.roots[j] == sorted[i];
        assert(file.roots[j].name == loaded.roots[i].name);
    }
    assert forall|i: int, j: int| 0 <= i < j < loaded.roots.len() implies !text::text_order()(
        (#[trigger] loaded.roots[j]).name,
        (#[trigger] loaded.roots[i]).name,
    ) by {
        assert(resolver(sorted[i]) is Ok && resolver(sorted[j]) is Ok);
        assert(!configuration::entry_order()(sorted[j], sorted[i]));
    }
}

/// Texts are ordered as in a dictionary, by the numbers of their characters.
pub proof fn how_texts_are_ordered(a: Seq<char>, b: Seq<char>)
    ensures
        text::text_order()(a, b) <==> exists|i: int|
            {
                &&& 0 <= i <= a.len()
                &&& i < b.len()
                &&& #[trigger] a.take(i) == b.take(i)
                &&& i == a.len() || (a[i] as int) < (b[i] as int)
            },
{
    let less = text::char_order();
    if text::text_order()(a, b) {
        let i = choose|i: int| order::falls_below_at(less, a, b, i);
        assert(a.take(i) =~= b.take(i));
    }
    if exists|i: int|
        {
            &&& 0 <= i <= a.len()
            &&& i < b.len()
            &&& #[trigger] a.take(i) == b.take(i)
            &&& i == a.len() || (a[i] as int) < (b[i] as int)
        } {
        let i = choose|i: int|
            {
                &&& 0 <= i <= a.len()
                &&& i < b.len()
                &&& #[trigger] a.take(i) == b.take(i)
                &&& i == a.len() || (a[i] as int) < (b[i] as int)
            };
        assert forall|j: int| 0 <= j < i implies a[j] == b[j] by {
            assert(a.take(i)[j] == b.take(i)[j]);
        }
        assert(order::falls_below_at(less, a, b, i));
    }
}

/// A Command Name is any text but the empty one, `.`, `..`, and those with a separator or a NUL.
pub proof fn what_a_command_name_is(name: Seq<char>)
    ensures
        registry::valid_name(name) <==> {
            &&& name.len() > 0
            &&& name != seq!['.']
            &&& name != seq!['.', '.']
            &&& forall|i: int| 0 <= i < name.len() ==> #[trigger] name[i] != '/' && name[i] != '\0'
        },
{
    reveal_strlit(".");
    reveal_strlit("..");
    assert("."@ =~= seq!['.']);
    assert(".."@ =~= seq!['.', '.']);
    if name.contains('/') {
        let i = choose|i: int| 0 <= i < name.len() && name[i] == '/';
        assert(name[i] == '/');
    }
    if name.contains('\0') {
        let i = choose|i: int| 0 <= i < name.len() && name[i] == '\0';
        assert(name[i] == '\0');
    }
}

/// An entry of a Registry file can be used: it has a Command Name, and its Target stands for an
/// absolute path.
pub open spec fn usable_entry(entry: RegistrationFileView, environment: EnvironmentView) -> bool {
    registry::valid_name(entry.name) && stands_for_a_path(entry.target, environment)
}

/// The names of some entries are distinct.
pub open spec fn distinctly_named(entries: Seq<RegistrationFileView>) -> bool {
    forall|i: int, j: int|
        0 <= i < j < entries.len() ==> (#[trigger] entries[i]).name != (#[trigger] entries[j]).name
}

/// Entries are read exactly where each can be used and no name is given twice.
pub proof fn how_entries_are_read(entries: Seq<RegistrationFileView>, environment: EnvironmentView)
    ensures
        registry::read_entries(entries, environment) is Ok <==> distinctly_named(entries) && forall|
            i: int,
        |
            0 <= i < entries.len() ==> usable_entry(#[trigger] entries[i], environment),
        registry::read_entries(entries, environment) matches Ok(registrations) ==> {
            &&& registrations.len() == entries.len()
            &&& forall|i: int|
                0 <= i < entries.len() ==> {
                    &&& (#[trigger] registrations[i]).name == entries[i].name
                    &&& registrations[i].enabled == entries[i].enabled
                    &&& configuration::expanded_path(entries[i].target, environment) matches Ok(p)
                        && registrations[i].target == path::normalized(p)
                }
        },
    decreases entries.len(),
{
    if entries.len() > 0 {
        let before = entries.drop_last();
        how_entries_are_read(before, environment);
        let last = entries.last();
        assert forall|i: int| 0 <= i < before.len() implies before[i] == #[trigger] entries[i] by {}
        match registry::read_entries(before, environment) {
            Err(_) => {
                if distinctly_named(entries) && forall|i: int|
                    0 <= i < entries.len() ==> usable_entry(#[trigger] entries[i], environment) {
                    assert forall|i: int| 0 <= i < before.len() implies usable_entry(
                        #[trigger] before[i],
                        environment,
                    ) by {
                        assert(usable_entry(entries[i], environment));
                    }
                    assert forall|i: int, j: int| 0 <= i < j < before.len() implies (
                    #[trigger] before[i]).name != (#[trigger] before[j]).name by {
                        assert(entries[i].name != entries[j].name);
                    }
                }
            },
            Ok(registrations) => {
                assert(registry::registered(registrations, last.name) <==> exists|i: int|
                    0 <= i < before.len() && (#[trigger] before[i]).name == last.name) by {
                    if registry::registered(registrations, last.name) {
                        let i = choose|i: int|
                            0 <= i < registrations.len() && #[trigger] registrations[i].name
                                == last.name;
                        assert(before[i].name == last.name);
                    }
                    if exists|i: int| 0 <= i < before.len() && (#[trigger] before[i]).name
                        == last.name {
                        let i = choose|i: int|
                            0 <= i < before.len() && (#[trigger] before[i]).name == last.name;
                        assert(registrations[i].name == last.name);
                    }
                }
                let n = before.len() as int;
                assert(entries[n] == last);
                if registry::registered(registrations, last.name) {
                    let i = choose|i: int|
                        0 <= i < before.len() && (#[trigger] before[i]).name == last.name;
                    assert(entries[i].name == entries[n].name);
                    assert(!distinctly_named(entries));
                } else {
                    assert(distinctly_named(entries)) by {
                        assert forall|i: int, j: int| 0 <= i < j < entries.len() implies (
                        #[trigger] entries[i]).name != (#[trigger] entries[j]).name by {
                            assert(before[i].name == entries[i].name);
                            if j < n {
                                assert(before[i].name != before[j].name);
                            }
                        }
                    }
                    if usable_entry(last, environment) {
                        assert forall|i: int| 0 <= i < entries.len() implies usable_entry(
                            #[trigger] entries[i],
                            environment,
                        ) by {
                            if i < n {
                                assert(usable_entry(before[i], environment));
                            }
                        }
                    }
                }
            },
        }
    }
}

/// A Registry file loads exactly where it has the one version, every entry can be used, and no name
/// is given twice. Each entry stands for a Registration with its name and its state, of the Target
/// that its text stands for, in the order of the file. Without a file nothing is registered.
pub proof fn what_a_registry_holds(environment: EnvironmentView, file: RegistryFileView)
    ensures
        registry::loaded(environment, FileReadView::Missing) == Ok::<
            Seq<RegistrationView>,
            RegistryErrorView,
        >(Seq::empty()),
        registry::loaded(environment, FileReadView::Parsed(file)) is Ok <==> file.version == 1
            && distinctly_named(file.registrations) && forall|i: int|
            0 <= i < file.registrations.len() ==> usable_entry(
                #[trigger] file.registrations[i],
                environment,
            ),
        registry::loaded(environment, FileReadView::Parsed(file)) matches Ok(registrations) ==> {
            &&& registrations.len() == file.registrations.len()
            &&& forall|i: int|
                0 <= i < registrations.len() ==> {
                    &&& (#[trigger] registrations[i]).name == file.registrations[i].name
                    &&& registrations[i].enabled == file.registrations[i].enabled
                    &&& configuration::expanded_path(
                        file.registrations[i].target,
                        environment,
                    ) matches Ok(p) && registrations[i].target == path::normalized(p)
                }
        },
{
    how_entries_are_read(file.registrations, environment);
}

/// What is written of Registrations: the one version, and of each its name, its state and a text for
/// its Target, in their order.
pub proof fn what_is_written_of_registrations(
    registrations: Seq<RegistrationView>,
    environment: EnvironmentView,
    file: RegistryFileView,
)
    requires
        registry::stored(registrations, environment) == Ok::<RegistryFileView, RegistryErrorView>(
            file,
        ),
    ensures
        file.version == 1,
        file.registrations.len() == registrations.len(),
        forall|i: int|
            0 <= i < registrations.len() ==> {
                &&& (#[trigger] file.registrations[i]).name == registrations[i].name
                &&& file.registrations[i].enabled == registrations[i].enabled
            },
{
    let entry = registry::stored_entry(environment.home);
    views::collected_elements(registrations, entry);
    assert forall|i: int| 0 <= i < registrations.len() implies {
        &&& (#[trigger] file.registrations[i]).name == registrations[i].name
        &&& file.registrations[i].enabled == registrations[i].enabled
    } by {
        assert(entry(registrations[i]) == Ok::<RegistrationFileView, Seq<char>>(
            file.registrations[i],
        ));
    }
}

} // verus!
