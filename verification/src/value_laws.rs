//! What holds of the values that everything else is made of: texts, paths, sorted lists and the
//! variables of an environment.

use vstd::prelude::*;
use vstd::utf8;

use crate::environment;
use crate::environment::Variable;
use crate::model;
use crate::model::CanonicalPathView;
use crate::order;
use crate::path;
use crate::text;
use crate::tui;

verus! {

proof fn leading_space(s: Seq<char>) -> (n: int)
    ensures
        0 <= n <= s.len(),
        text::without_leading_space(s) == s.skip(n),
        forall|i: int| 0 <= i < n ==> text::white_space(#[trigger] s[i]),
        n < s.len() ==> !text::white_space(s[n]),
    decreases s.len(),
{
    if s.len() > 0 && text::white_space(s[0]) {
        let m = leading_space(s.skip(1));
        assert(s.skip(1).skip(m) =~= s.skip(m + 1));
        assert forall|i: int| 0 <= i < m + 1 implies text::white_space(#[trigger] s[i]) by {
            if i > 0 {
                assert(s.skip(1)[i - 1] == s[i]);
            }
        }
        m + 1
    } else {
        assert(s.skip(0) =~= s);
        0
    }
}

proof fn trailing_space(s: Seq<char>) -> (n: int)
    ensures
        0 <= n <= s.len(),
        text::without_trailing_space(s) == s.take(n),
        forall|i: int| n <= i < s.len() ==> text::white_space(#[trigger] s[i]),
        n > 0 ==> !text::white_space(s[n - 1]),
    decreases s.len(),
{
    if s.len() > 0 && text::white_space(s.last()) {
        let m = trailing_space(s.drop_last());
        assert(s.drop_last().take(m) =~= s.take(m));
        assert forall|i: int| m <= i < s.len() implies text::white_space(#[trigger] s[i]) by {
            if i < s.len() - 1 {
                assert(s.drop_last()[i] == s[i]);
            }
        }
        m
    } else {
        assert(s.take(s.len() as int) =~= s);
        s.len() as int
    }
}

/// What trimming leaves of a text: the part from the first character that is no white space up to
/// the last one.
pub proof fn what_trimming_leaves(s: Seq<char>) -> (cut: (int, int))
    ensures
        0 <= cut.0 <= cut.1 <= s.len(),
        text::trimmed_text(s) == s.subrange(cut.0, cut.1),
        forall|i: int|
            (0 <= i < cut.0 || cut.1 <= i < s.len()) ==> text::white_space(#[trigger] s[i]),
        cut.0 < cut.1 ==> !text::white_space(s[cut.0]) && !text::white_space(s[cut.1 - 1]),
{
    let m = leading_space(s);
    let rest = s.skip(m);
    let n = trailing_space(rest);
    assert(rest.take(n) =~= s.subrange(m, m + n));
    assert forall|i: int| (0 <= i < m || m + n <= i < s.len()) implies text::white_space(
        #[trigger] s[i],
    ) by {
        if i >= m {
            assert(rest[i - m] == s[i]);
        }
    }
    if n > 0 {
        assert(rest[n - 1] == s[m + n - 1]);
    }
    (m, m + n)
}

/// Among the characters of ASCII white space is what is blank or moves to another place.
pub proof fn what_white_space_is(c: char)
    requires
        (c as int) < 128,
    ensures
        text::white_space(c) <==> {
            ||| c == ' '
            ||| c == '\t'
            ||| c == '\n'
            ||| c == '\r'
            ||| c as int == 11
            ||| c as int == 12
        },
{
}

/// The number that decimal digits stand for.
pub open spec fn read_decimal(s: Seq<char>) -> int
    decreases s.len(),
{
    if s.len() == 0 {
        0
    } else {
        10 * read_decimal(s.drop_last()) + (s.last() as int - 48)
    }
}

/// A number in decimal is written with digits alone, reads back as the number, and begins with a
/// zero only where it is zero.
pub proof fn what_a_decimal_number_is(n: nat)
    ensures
        read_decimal(text::decimal(n)) == n,
        text::decimal(n).len() > 0,
        forall|i: int|
            0 <= i < text::decimal(n).len() ==> '0' <= #[trigger] text::decimal(n)[i] <= '9',
        n > 0 ==> text::decimal(n)[0] != '0',
    decreases n,
{
    let last = (48 + n % 10) as char;
    let digits = text::decimal(n);
    assert(last as int == 48 + n % 10);
    if n < 10 {
        assert(digits.drop_last() =~= Seq::<char>::empty());
        assert(digits.last() == last);
        assert(read_decimal(digits.drop_last()) == 0);
    } else {
        what_a_decimal_number_is(n / 10);
        assert(digits.drop_last() =~= text::decimal(n / 10));
        assert(digits.last() == last);
        assert forall|i: int| 0 <= i < digits.len() implies '0' <= #[trigger] digits[i]
            <= '9' by {
            if i < digits.len() - 1 {
                assert(digits[i] == text::decimal(n / 10)[i]);
            }
        }
        assert(digits[0] == text::decimal(n / 10)[0]);
    }
}

/// Texts are put together with the separator between any two neighbours, and nowhere else: two lists
/// put together are what each of them comes to, with one separator between.
pub proof fn how_texts_are_put_together(
    a: Seq<Seq<char>>,
    b: Seq<Seq<char>>,
    alone: Seq<char>,
    separator: Seq<char>,
)
    ensures
        text::separated(Seq::empty(), separator) == Seq::<char>::empty(),
        text::separated(seq![alone], separator) == alone,
        a.len() > 0 && b.len() > 0 ==> text::separated(a + b, separator) == text::separated(
            a,
            separator,
        ) + separator + text::separated(b, separator),
    decreases b.len(),
{
    if a.len() > 0 && b.len() > 0 {
        assert((a + b).drop_last() =~= a + b.drop_last());
        assert((a + b).last() == b.last());
        if b.len() == 1 {
            assert(a + b.drop_last() =~= a);
        } else {
            how_texts_are_put_together(a, b.drop_last(), alone, separator);
            assert(text::separated(a, separator) + separator + text::separated(
                b.drop_last(),
                separator,
            ) + separator + b.last() =~= text::separated(a, separator) + separator
                + text::separated(b, separator));
        }
    }
}

/// Leaving out repeats leaves every part once, where it first stood.
pub proof fn what_is_left_without_repeats(parts: Seq<Seq<char>>, more: Seq<char>)
    ensures
        tui::without_repeats(parts).no_duplicates(),
        forall|x: Seq<char>|
            #[trigger] tui::without_repeats(parts).contains(x) <==> parts.contains(x),
        tui::without_repeats(parts.push(more)) == if parts.contains(more) {
            tui::without_repeats(parts)
        } else {
            tui::without_repeats(parts).push(more)
        },
    decreases parts.len(),
{
    assert(parts.push(more).drop_last() =~= parts);
    if parts.len() > 0 {
        let rest = parts.drop_last();
        what_is_left_without_repeats(rest, more);
        let before = tui::without_repeats(rest);
        let left = tui::without_repeats(parts);
        assert forall|x: Seq<char>| #[trigger] left.contains(x) <==> parts.contains(x) by {
            assert(parts =~= rest.push(parts.last()));
            if rest.contains(x) {
                let i = rest.index_of(x);
                assert(parts[i] == x);
                assert(before.contains(x));
                let k = before.index_of(x);
                assert(left[k] == x);
            }
            if x == parts.last() {
                assert(parts[parts.len() - 1] == x);
                if !before.contains(x) {
                    assert(left[before.len() as int] == x);
                }
            }
            if parts.contains(x) && x != parts.last() {
                let i = parts.index_of(x);
                assert(rest[i] == x);
            }
            if left.contains(x) && x != parts.last() {
                let k = left.index_of(x);
                assert(before[k] == x);
                assert(before.contains(x));
            }
        }
    }
}

proof fn index_from(s: Seq<char>, k: int, from: int, c: char)
    requires
        0 <= k <= from <= s.len(),
    ensures
        text::first_index(s, from, c) == match text::first_index(s.skip(k), from - k, c) {
            Some(i) => Some(i + k),
            None => None,
        },
        text::first_index(s, from, c) matches Some(i) ==> from <= i < s.len(),
    decreases s.len() - from,
{
    if from < s.len() {
        assert(s.skip(k)[from - k] == s[from]);
        index_from(s, k, from + 1, c);
    }
}

proof fn lines_from_a_place(s: Seq<char>, k: int, from: int)
    requires
        0 <= k <= from <= s.len(),
    ensures
        text::lines_from(s, from) == text::lines_from(s.skip(k), from - k),
    decreases s.len() - from,
{
    let t = s.skip(k);
    if from < s.len() {
        index_from(s, k, from, '\n');
        match text::first_index(s, from, '\n') {
            Some(i) => {
                lines_from_a_place(s, k, i + 1);
                assert(s.subrange(from, i) =~= t.subrange(from - k, i - k));
            },
            None => {
                assert(s.subrange(from, s.len() as int) =~= t.subrange(
                    from - k,
                    t.len() as int,
                ));
            },
        }
    }
}

proof fn first_place(s: Seq<char>, from: int, c: char, i: int)
    requires
        0 <= from <= i < s.len(),
        s[i] == c,
        forall|j: int| from <= j < i ==> s[j] != c,
    ensures
        text::first_index(s, from, c) == Some(i),
    decreases i - from,
{
    if from < i {
        first_place(s, from + 1, c, i);
    }
}

/// A text that begins with a line and its end has that line first, without a carriage return before
/// the line feed, and behind it the lines of the rest. Without anything there is no line.
pub proof fn what_the_lines_of_a_text_are(line: Seq<char>, rest: Seq<char>)
    requires
        !line.contains('\n'),
    ensures
        text::lines_of(Seq::empty()) == Seq::<Seq<char>>::empty(),
        text::lines_of(line + seq!['\n'] + rest) == seq![
            if line.len() > 0 && line.last() == '\r' {
                line.drop_last()
            } else {
                line
            },
        ] + text::lines_of(rest),
{
    let s = line + seq!['\n'] + rest;
    let n = line.len() as int;
    assert forall|j: int| 0 <= j < n implies s[j] != '\n' by {
        assert(s[j] == line[j]);
        assert(line.contains(line[j]));
    }
    assert(s[n] == '\n');
    first_place(s, 0, '\n', n);
    assert(s.subrange(0, n) =~= line);
    lines_from_a_place(s, n + 1, n + 1);
    assert(s.skip(n + 1) =~= rest);
}

/// A name that is followed by `..` leaves nothing behind, wherever the two stand, and a `..` with
/// nothing before it leaves nothing either.
pub proof fn a_parent_takes_a_name_away(a: Seq<Seq<u8>>, name: Seq<u8>, b: Seq<Seq<u8>>)
    requires
        name != path::parent_name(),
    ensures
        path::resolved(a + seq![name, path::parent_name()] + b) == path::resolved(a + b),
        path::resolved(seq![path::parent_name()] + b) == path::resolved(b),
    decreases b.len(),
{
    let pair = seq![name, path::parent_name()];
    if b.len() == 0 {
        assert(a + pair + b =~= a.push(name).push(path::parent_name()));
        assert(a.push(name).push(path::parent_name()).drop_last() =~= a.push(name));
        assert(a.push(name).drop_last() =~= a);
        assert(path::resolved(a.push(name)) == path::resolved(a).push(name));
        assert(path::resolved(a).push(name).drop_last() =~= path::resolved(a));
        assert(a + b =~= a);
        assert((seq![path::parent_name()] + b).drop_last() =~= b);
    } else {
        a_parent_takes_a_name_away(a, name, b.drop_last());
        assert((a + pair + b).drop_last() =~= a + pair + b.drop_last());
        assert((a + b).drop_last() =~= a + b.drop_last());
        assert((seq![path::parent_name()] + b).drop_last() =~= seq![path::parent_name()]
            + b.drop_last());
        assert((a + pair + b).last() == b.last());
        assert((a + b).last() == b.last());
        assert((seq![path::parent_name()] + b).last() == b.last());
    }
}

/// A normalized path begins where the path does, and has its names with each `..` resolved.
pub proof fn what_normalizing_keeps(s: Seq<u8>)
    ensures
        path::absolute(path::normalized(s)) == path::absolute(s),
        path::names(path::normalized(s)) == path::resolved(path::names(s)),
        forall|i: int|
            0 <= i < path::names(path::normalized(s)).len() ==> #[trigger] path::names(
                path::normalized(s),
            )[i] != path::parent_name(),
{
    path::names_of_normalized(s);
    path::names_are_clean(s);
    path::resolved_names(path::names(s));
    path::names_of_rendered(path::absolute(s), path::resolved(path::names(s)));
}

/// An ordinary name of a path.
pub open spec fn ordinary(name: Seq<u8>) -> bool {
    path::clean_name(name) && name != path::parent_name()
}

/// How paths are ordered: a directory comes before what lies in it; of two paths that part at some
/// directory, the one whose name there is the lesser comes first. A name is the lesser where the
/// other one goes on behind it, or has the greater byte where the two part.
pub proof fn how_paths_are_ordered(
    common: Seq<Seq<u8>>,
    below: Seq<Seq<u8>>,
    m: Seq<u8>,
    n: Seq<u8>,
    other: Seq<Seq<u8>>,
    i: int,
)
    requires
        ordinary(m),
        ordinary(n),
        0 <= i <= m.len(),
        i < n.len(),
        m.take(i) == n.take(i),
        i == m.len() || m[i] < n[i],
    ensures
        below.len() > 0 ==> path::path_order()(common, common + below),
        path::path_order()(common.push(m) + below, common.push(n) + other),
        !path::path_order()(common.push(n) + other, common.push(m) + below),
{
    let less = path::component_order();
    path::path_order_is_strict();
    if below.len() > 0 {
        assert(order::falls_below_at(less, common, common + below, common.len() as int));
    }
    assert forall|j: int| 0 <= j < i implies m[j] == n[j] by {
        assert(m.take(i)[j] == m[j]);
        assert(n.take(i)[j] == n[j]);
    }
    assert(order::falls_below_at(path::byte_order(), m, n, i));
    assert(less(m, n)) by {
        assert(m != seq![path::SLASH]) by {
            if m == seq![path::SLASH] {
                assert(m[0] == path::SLASH);
            }
        }
        assert(n != seq![path::SLASH]) by {
            if n == seq![path::SLASH] {
                assert(n[0] == path::SLASH);
            }
        }
    }
    let a = common.push(m) + below;
    let b = common.push(n) + other;
    let at = common.len() as int;
    assert(a[at] == m && b[at] == n);
    assert(order::falls_below_at(less, a, b, at));
    let ranks = path::path_order();
    if ranks(b, a) {
        assert(ranks(a, b) && ranks(b, a));
        assert(ranks(a, a));
    }
}

/// `x` and `y` stand at the same place of an order.
pub open spec fn level<A>(less: spec_fn(A, A) -> bool, x: A) -> spec_fn(A) -> bool {
    |y: A| !less(x, y) && !less(y, x)
}

proof fn one_is_filtered<A>(x: A, chosen: spec_fn(A) -> bool)
    ensures
        seq![x].filter(chosen) == if chosen(x) {
            seq![x]
        } else {
            Seq::<A>::empty()
        },
{
    reveal(Seq::filter);
    let none = Seq::<A>::empty();
    assert(seq![x].drop_last() =~= none);
    assert(none.filter(chosen) =~= none);
    assert(none.push(x) =~= seq![x]);
}

proof fn placed_before_equals<A>(s: Seq<A>, x: A, less: spec_fn(A, A) -> bool, of: A)
    requires
        order::weak_order(less),
        order::sorted(s, less),
    ensures
        order::placed(s, x, less).filter(level(less, of)) == if level(less, of)(x) {
            seq![x] + s.filter(level(less, of))
        } else {
            s.filter(level(less, of))
        },
    decreases s.len(),
{
    let same = level(less, of);
    if s.len() == 0 {
        one_is_filtered(x, same);
        assert(s =~= Seq::<A>::empty());
        assert(s.filter(same) =~= Seq::<A>::empty()) by {
            reveal(Seq::filter);
        }
        assert(seq![x] + Seq::<A>::empty() =~= seq![x]);
    } else if less(s[0], x) {
        let rest = s.drop_first();
        assert(order::sorted(rest, less)) by {
            assert forall|i: int, j: int| 0 <= i < j < rest.len() implies !less(
                #[trigger] rest[j],
                #[trigger] rest[i],
            ) by {
                assert(rest[j] == s[j + 1] && rest[i] == s[i + 1]);
            }
        }
        placed_before_equals(rest, x, less, of);
        let tail = order::placed(rest, x, less);
        Seq::filter_distributes_over_add(seq![s[0]], tail, same);
        assert(s =~= seq![s[0]] + rest);
        Seq::filter_distributes_over_add(seq![s[0]], rest, same);
        if same(x) && same(s[0]) {
            assert(less(s[0], of) || less(of, x));
        }
        one_is_filtered(s[0], same);
        if same(x) {
            assert(seq![s[0]].filter(same) + tail.filter(same) =~= seq![x] + s.filter(same));
        }
    } else {
        Seq::filter_distributes_over_add(seq![x], s, same);
        one_is_filtered(x, same);
        assert(Seq::<A>::empty() + s.filter(same) =~= s.filter(same));
    }
}

/// Sorting keeps elements that are level in the order in which they were.
pub proof fn level_elements_keep_their_order<A>(s: Seq<A>, less: spec_fn(A, A) -> bool, of: A)
    requires
        order::weak_order(less),
    ensures
        order::stably_sorted(s, less).filter(level(less, of)) == s.filter(level(less, of)),
    decreases s.len(),
{
    let same = level(less, of);
    if s.len() > 0 {
        let rest = s.drop_first();
        level_elements_keep_their_order(rest, less, of);
        order::stable_sort_sorts(rest, less);
        placed_before_equals(order::stably_sorted(rest, less), s[0], less, of);
        assert(s =~= seq![s[0]] + rest);
        Seq::filter_distributes_over_add(seq![s[0]], rest, same);
        one_is_filtered(s[0], same);
        assert(Seq::<A>::empty() + rest.filter(same) =~= rest.filter(same));
    }
}

/// Of variables with the same name the last one counts; a name that none of them has is not set.
pub proof fn which_variable_counts(variables: Seq<Variable>, name: Seq<char>, i: int)
    ensures
        ({
            &&& 0 <= i < variables.len()
            &&& variables[i].name@ == name
            &&& forall|j: int| i < j < variables.len() ==> (#[trigger] variables[j]).name@ != name
        }) ==> environment::variables_map(variables).contains_key(name)
            && environment::variables_map(variables)[name] == variables[i].value@,
        (forall|j: int| 0 <= j < variables.len() ==> (#[trigger] variables[j]).name@ != name)
            ==> !environment::variables_map(variables).contains_key(name),
    decreases variables.len(),
{
    if variables.len() > 0 {
        let rest = variables.drop_last();
        which_variable_counts(rest, name, i);
        assert(variables.last() == variables[variables.len() - 1]);
        if forall|j: int| 0 <= j < variables.len() ==> (#[trigger] variables[j]).name@ != name {
            assert forall|j: int| 0 <= j < rest.len() implies (#[trigger] rest[j]).name@
                != name by {
                assert(rest[j] == variables[j]);
            }
            assert(variables[variables.len() - 1].name@ != name);
        }
        if 0 <= i < rest.len() && variables[i].name@ == name && forall|j: int|
            i < j < variables.len() ==> (#[trigger] variables[j]).name@ != name {
            assert forall|j: int| i < j < rest.len() implies (#[trigger] rest[j]).name@
                != name by {
                assert(rest[j] == variables[j]);
            }
            assert(variables[variables.len() - 1].name@ != name);
            assert(rest[i] == variables[i]);
        }
    }
}

/// The variables of a process count by their names: each that is text has the value that it was last
/// given, and no other name is set.
pub proof fn which_variable_of_a_process_counts(
    variables: Seq<(Vec<u8>, Vec<u8>)>,
    name: Seq<char>,
    i: int,
)
    ensures
        ({
            &&& 0 <= i < variables.len()
            &&& utf8::valid_utf8(variables[i].0@)
            &&& utf8::decode_utf8(variables[i].0@) == name
            &&& forall|j: int|
                i < j < variables.len() ==> !(utf8::valid_utf8((#[trigger] variables[j]).0@)
                    && utf8::decode_utf8(variables[j].0@) == name)
        }) ==> environment::textual_variables(variables).contains_key(name)
            && environment::textual_variables(variables)[name] == variables[i].1@,
        (forall|j: int|
            0 <= j < variables.len() ==> !(utf8::valid_utf8((#[trigger] variables[j]).0@)
                && utf8::decode_utf8(variables[j].0@) == name))
            ==> !environment::textual_variables(variables).contains_key(name),
    decreases variables.len(),
{
    if variables.len() > 0 {
        let rest = variables.drop_last();
        let last = variables.len() - 1;
        which_variable_of_a_process_counts(rest, name, i);
        assert(variables.last() == variables[last]);
        if forall|j: int|
            0 <= j < variables.len() ==> !(utf8::valid_utf8((#[trigger] variables[j]).0@)
                && utf8::decode_utf8(variables[j].0@) == name) {
            assert forall|j: int| 0 <= j < rest.len() implies !(utf8::valid_utf8(
                (#[trigger] rest[j]).0@,
            ) && utf8::decode_utf8(rest[j].0@) == name) by {
                assert(rest[j] == variables[j]);
            }
            assert(!(utf8::valid_utf8(variables[last].0@) && utf8::decode_utf8(variables[last].0@)
                == name));
        }
        if 0 <= i < rest.len() && utf8::valid_utf8(variables[i].0@) && utf8::decode_utf8(
            variables[i].0@,
        ) == name && forall|j: int|
            i < j < variables.len() ==> !(utf8::valid_utf8((#[trigger] variables[j]).0@)
                && utf8::decode_utf8(variables[j].0@) == name) {
            assert forall|j: int| i < j < rest.len() implies !(utf8::valid_utf8(
                (#[trigger] rest[j]).0@,
            ) && utf8::decode_utf8(rest[j].0@) == name) by {
                assert(rest[j] == variables[j]);
            }
            assert(!(utf8::valid_utf8(variables[last].0@) && utf8::decode_utf8(variables[last].0@)
                == name));
            assert(rest[i] == variables[i]);
        }
    }
}

/// What a path is known to resolve to is what was noted last for the same path; a path of which
/// nothing was noted stands for itself.
pub proof fn what_is_known_of_a_path(known: Seq<CanonicalPathView>, p: Seq<u8>, i: int)
    ensures
        ({
            &&& 0 <= i < known.len()
            &&& path::components(known[i].path) == path::components(p)
            &&& forall|j: int|
                i < j < known.len() ==> path::components((#[trigger] known[j]).path)
                    != path::components(p)
        }) ==> model::canonical_for(known, p) == known[i].canonical,
        (forall|j: int|
            0 <= j < known.len() ==> path::components((#[trigger] known[j]).path)
                != path::components(p)) ==> model::canonical_for(known, p) == p,
    decreases known.len(),
{
    if known.len() > 0 {
        let rest = known.drop_last();
        let last = known.len() - 1;
        what_is_known_of_a_path(rest, p, i);
        assert(known.last() == known[last]);
        if forall|j: int|
            0 <= j < known.len() ==> path::components((#[trigger] known[j]).path)
                != path::components(p) {
            assert forall|j: int| 0 <= j < rest.len() implies path::components(
                (#[trigger] rest[j]).path,
            ) != path::components(p) by {
                assert(rest[j] == known[j]);
            }
            assert(path::components(known[last].path) != path::components(p));
        }
        if 0 <= i < rest.len() && path::components(known[i].path) == path::components(p)
            && forall|j: int|
            i < j < known.len() ==> path::components((#[trigger] known[j]).path)
                != path::components(p) {
            assert forall|j: int| i < j < rest.len() implies path::components(
                (#[trigger] rest[j]).path,
            ) != path::components(p) by {
                assert(rest[j] == known[j]);
            }
            assert(path::components(known[last].path) != path::components(p));
            assert(rest[i] == known[i]);
        }
    }
}

proof fn names_of_extended(s: Seq<u8>, ns: Seq<Seq<u8>>)
    requires
        s.len() > 0,
        forall|i: int| 0 <= i < ns.len() ==> path::clean_name(#[trigger] ns[i]),
    ensures
        path::names(model::with_names(s, ns)) == path::names(s) + ns,
        path::lead(model::with_names(s, ns)) == path::lead(s),
        model::with_names(s, ns).len() > 0,
    decreases ns.len(),
{
    if ns.len() > 0 {
        let rest = ns.drop_last();
        assert forall|i: int| 0 <= i < rest.len() implies path::clean_name(#[trigger] rest[i]) by {
            assert(rest[i] == ns[i]);
        }
        names_of_extended(s, rest);
        assert(path::clean_name(ns[ns.len() - 1]));
        path::names_of_clean_name(ns.last());
        path::names_of_joined(model::with_names(s, rest), ns.last());
        path::lead_of_joined(model::with_names(s, rest), ns.last());
        assert(path::names(s) + rest + seq![ns.last()] =~= path::names(s) + ns);
    } else {
        assert(path::names(s) + ns =~= path::names(s));
    }
}

/// What a path resolves to where only its beginning could be resolved: that, and behind it the names
/// that were left off. A path of which nothing could be resolved stands for itself.
pub proof fn what_a_path_resolves_to(s: Seq<u8>, dropped: int, found: Seq<u8>)
    requires
        0 <= dropped <= path::names(s).len(),
        found.len() > 0,
    ensures
        path::names(model::canonical_of(s, Some((dropped, found)))) == path::names(found)
            + path::names(s).skip(path::names(s).len() - dropped),
        path::lead(model::canonical_of(s, Some((dropped, found)))) == path::lead(found),
        model::canonical_of(s, Some((0, found))) == found,
        model::canonical_of(s, None) == s,
{
    let ns = path::names(s);
    let tail = ns.skip(ns.len() - dropped);
    path::names_are_clean(s);
    assert forall|i: int| 0 <= i < tail.len() implies path::clean_name(#[trigger] tail[i]) by {
        assert(tail[i] == ns[ns.len() - dropped + i]);
    }
    names_of_extended(found, tail);
}

/// What is tried in place of a path: the path without its last names.
pub proof fn what_is_tried_for_a_path(s: Seq<u8>, dropped: int)
    requires
        0 <= dropped <= path::names(s).len(),
    ensures
        path::names(model::without_names(s, dropped)) == path::names(s).take(
            path::names(s).len() - dropped,
        ),
        path::absolute(model::without_names(s, dropped)) == path::absolute(s),
        model::without_names(s, 0) == s,
{
    let ns = path::names(s);
    let kept = ns.take(ns.len() - dropped);
    path::names_are_clean(s);
    assert forall|i: int| 0 <= i < kept.len() implies path::clean_name(#[trigger] kept[i]) by {
        assert(kept[i] == ns[i]);
    }
    path::names_of_rendered(path::absolute(s), kept);
    path::names_of_rendered(false, kept);
    if dropped == 0 {
        assert(kept =~= ns);
    } else if path::from_here(s) {
        let here = seq![path::DOT, path::SLASH];
        path::names_of_appended(here, path::rendered_names(kept));
        assert(path::names(here) =~= Seq::<Seq<u8>>::empty()) by {
            let end = seq![path::SLASH];
            assert(here.skip(1) =~= end);
            assert(path::segment_len(end) == 0);
            assert(path::segment_len(here) == 1);
            assert(here.take(1) =~= seq![path::DOT]);
            assert(end.skip(1) =~= Seq::<u8>::empty());
            assert(path::names(end) == path::names(Seq::<u8>::empty()));
        }
        assert(path::names(here) + kept =~= kept);
    }
}

/// A path is tried without as many of its last names as are ordinary ones.
pub proof fn how_often_a_path_is_tried(ns: Seq<Seq<u8>>, dropped: int)
    requires
        0 <= dropped,
    ensures
        dropped <= model::ordinary_tail(ns) <==> {
            &&& dropped <= ns.len()
            &&& forall|i: int|
                ns.len() - dropped <= i < ns.len() ==> #[trigger] ns[i] != path::parent_name()
        },
    decreases ns.len(),
{
    if ns.len() > 0 && dropped > 0 {
        let rest = ns.drop_last();
        how_often_a_path_is_tried(rest, dropped - 1);
        assert(ns.last() == ns[ns.len() - 1]);
        if dropped <= ns.len() && forall|i: int|
            ns.len() - dropped <= i < ns.len() ==> #[trigger] ns[i] != path::parent_name() {
            assert forall|i: int| rest.len() - (dropped - 1) <= i < rest.len()
                implies #[trigger] rest[i] != path::parent_name() by {
                assert(rest[i] == ns[i]);
            }
            assert(ns[ns.len() - 1] != path::parent_name());
        }
        if ns.last() != path::parent_name() && dropped <= ns.len() && forall|i: int|
            rest.len() - (dropped - 1) <= i < rest.len() ==> #[trigger] rest[i]
                != path::parent_name() {
            assert forall|i: int| ns.len() - dropped <= i < ns.len() implies #[trigger] ns[i]
                != path::parent_name() by {
                if i < rest.len() {
                    assert(rest[i] == ns[i]);
                }
            }
        }
    }
}

} // verus!
