//! The environment of a process, and what a configuration makes of it.

use vstd::prelude::*;
use crate::composer::{
    all_plain, compose, join_path_list, split_path_list, spliced,
};
use crate::config_model::{list_texts, pair_texts, ListOps, ListOpsView, WexeApp, WexeAppView};
use crate::text::{chars_of, str_eq, texts};

verus! {

/// A set of variables, each name with one value.
pub struct Environment {
    vars: Vec<(String, String)>,
}

/// Some pair holds the name.
pub open spec fn has_name(pairs: Seq<(Seq<char>, Seq<char>)>, name: Seq<char>) -> bool {
    exists|i: int| 0 <= i < pairs.len() && (#[trigger] pairs[i]).0 == name
}

/// The value paired with a name, where some pair holds it.
pub open spec fn value_of(pairs: Seq<(Seq<char>, Seq<char>)>, name: Seq<char>) -> Seq<char> {
    let i = choose|i: int| 0 <= i < pairs.len() && (#[trigger] pairs[i]).0 == name;
    pairs[i].1
}

/// No name occurs twice.
pub open spec fn distinct(pairs: Seq<(Seq<char>, Seq<char>)>) -> bool {
    forall|i: int, j: int|
        0 <= i < j < pairs.len() ==> (#[trigger] pairs[i]).0 != (#[trigger] pairs[j]).0
}

/// Pairs with distinct names as a mapping from name to value.
pub open spec fn mapping(pairs: Seq<(Seq<char>, Seq<char>)>) -> Map<Seq<char>, Seq<char>> {
    Map::new(|name: Seq<char>| has_name(pairs, name), |name: Seq<char>| value_of(pairs, name))
}

/// The environment after one assignment: an empty value deletes the
/// variable, any other value sets it.
pub open spec fn assigned(env: Map<Seq<char>, Seq<char>>, name: Seq<char>, value: Seq<char>) -> Map<
    Seq<char>,
    Seq<char>,
> {
    if value.len() == 0 {
        env.remove(name)
    } else {
        env.insert(name, value)
    }
}

/// The environment after the assignments, made in order.
pub open spec fn assigned_all(
    env: Map<Seq<char>, Seq<char>>,
    sets: Seq<(Seq<char>, Seq<char>)>,
) -> Map<Seq<char>, Seq<char>>
    decreases sets.len(),
{
    if sets.len() == 0 {
        env
    } else {
        assigned(assigned_all(env, sets.drop_last()), sets.last().0, sets.last().1)
    }
}

/// The value a variable has, if it has one.
pub open spec fn lookup(env: Map<Seq<char>, Seq<char>>, name: Seq<char>) -> Option<Seq<char>> {
    if env.contains_key(name) {
        Some(env[name])
    } else {
        None
    }
}

/// The environment after splicing into one variable.
pub open spec fn spliced_into(
    env: Map<Seq<char>, Seq<char>>,
    name: Seq<char>,
    ops: ListOpsView,
    sep: char,
) -> Map<Seq<char>, Seq<char>> {
    env.insert(name, spliced(lookup(env, name), ops.prepend, ops.append, sep))
}

/// The environment after splicing into the variables, in order.
pub open spec fn spliced_all(
    env: Map<Seq<char>, Seq<char>>,
    lists: Seq<(Seq<char>, ListOpsView)>,
    sep: char,
) -> Map<Seq<char>, Seq<char>>
    decreases lists.len(),
{
    if lists.len() == 0 {
        env
    } else {
        spliced_into(spliced_all(env, lists.drop_last(), sep), lists.last().0, lists.last().1, sep)
    }
}

/// Neither part of the list holds a segment with the separator in it.
pub open spec fn plain_ops(ops: ListOpsView, sep: char) -> bool {
    all_plain(ops.prepend, sep) && all_plain(ops.append, sep)
}

/// The position of the first list, if any, with a segment that holds the
/// separator: such a segment would be read back as two.
pub open spec fn first_not_plain(lists: Seq<(Seq<char>, ListOpsView)>, sep: char) -> Option<int> {
    if exists|i: int| 0 <= i < lists.len() && !plain_ops((#[trigger] lists[i]).1, sep) {
        let i = choose|i: int|
            0 <= i < lists.len() && !plain_ops((#[trigger] lists[i]).1, sep) && forall|j: int|
                0 <= j < i ==> plain_ops((#[trigger] lists[j]).1, sep);
        Some(i)
    } else {
        None
    }
}

/// The environment of the target: the inherited one after the assignments
/// of the configuration, then after its splices, which read what the
/// assignments left.
pub open spec fn composed(env: Map<Seq<char>, Seq<char>>, app: WexeAppView, sep: char) -> Map<
    Seq<char>,
    Seq<char>,
> {
    spliced_all(assigned_all(env, app.env_set), app.env_pathlike, sep)
}

/// A configuration that cannot be applied to an environment.
pub enum ComposeError {
    /// A segment to splice into this variable holds the separator.
    SeparatorInSegment { variable: String },
}

impl View for Environment {
    type V = Map<Seq<char>, Seq<char>>;

    closed spec fn view(&self) -> Map<Seq<char>, Seq<char>> {
        mapping(pair_texts(self.vars@))
    }
}

proof fn lemma_distinct_value(pairs: Seq<(Seq<char>, Seq<char>)>, i: int)
    requires
        distinct(pairs),
        0 <= i < pairs.len(),
    ensures
        has_name(pairs, pairs[i].0),
        value_of(pairs, pairs[i].0) == pairs[i].1,
{
    let name = pairs[i].0;
    let k = choose|k: int| 0 <= k < pairs.len() && (#[trigger] pairs[k]).0 == name;
    if k < i {
        assert(pairs[k].0 != pairs[i].0);
    } else if i < k {
        assert(pairs[i].0 != pairs[k].0);
    }
}

impl Environment {
    /// No name is held twice.
    #[verifier::type_invariant]
    spec fn names_are_distinct(&self) -> bool {
        distinct(pair_texts(self.vars@))
    }

    /// The environment without any variable.
    pub fn new() -> (r: Environment)
        ensures
            r@ == Map::<Seq<char>, Seq<char>>::empty(),
    {
        let r = Environment { vars: Vec::new() };
        assert(r@ =~= Map::<Seq<char>, Seq<char>>::empty());
        r
    }

    fn position(&self, name: &str) -> (r: Option<usize>)
        ensures
            match r {
                Some(i) => i < self.vars.len() && self.vars@[i as int].0@ == name@,
                None => !has_name(pair_texts(self.vars@), name@),
            },
    {
        let mut i: usize = 0;
        while i < self.vars.len()
            invariant
                i <= self.vars.len(),
                forall|j: int| 0 <= j < i ==> (#[trigger] pair_texts(self.vars@)[j]).0 != name@,
            decreases self.vars.len() - i,
        {
            if str_eq(self.vars[i].0.as_str(), name) {
                return Some(i);
            }
            assert(pair_texts(self.vars@)[i as int].0 == self.vars@[i as int].0@);
            i = i + 1;
        }
        None
    }

    /// The value of a variable, if it has one.
    pub fn get(&self, name: &str) -> (r: Option<String>)
        ensures
            match r {
                Some(value) => lookup(self@, name@) == Some(value@),
                None => lookup(self@, name@) is None,
            },
    {
        match self.position(name) {
            Some(i) => {
                proof {
                    use_type_invariant(self);
                    lemma_distinct_value(pair_texts(self.vars@), i as int);
                }
                Some(self.vars[i].1.clone())
            },
            None => None,
        }
    }

    /// Gives the variable the value, whether it had one or not.
    pub fn set(&mut self, name: &str, value: &str)
        ensures
            final(self)@ == old(self)@.insert(name@, value@),
    {
        let found = self.position(name);
        proof {
            use_type_invariant(&*self);
        }
        let ghost before = pair_texts(self.vars@);
        let mut vars: Vec<(String, String)> = Vec::new();
        std::mem::swap(&mut self.vars, &mut vars);
        match found {
            Some(i) => {
                vars.set(i, (name.to_owned(), value.to_owned()));
                proof {
                    let after = pair_texts(vars@);
                    assert(after =~= before.update(i as int, (name@, value@)));
                    assert(distinct(after)) by {
                        assert forall|a: int, b: int| 0 <= a < b < after.len() implies (
                        #[trigger] after[a]).0 != (#[trigger] after[b]).0 by {
                            assert(before[a].0 != before[b].0);
                        }
                    }
                    assert forall|k: Seq<char>| has_name(after, k) <==> (has_name(before, k) || k
                        == name@) by {
                        if has_name(after, k) {
                            let j = choose|j: int| 0 <= j < after.len() && (#[trigger] after[j]).0
                                == k;
                            assert(before[j].0 == k);
                        }
                        if has_name(before, k) {
                            let j = choose|j: int| 0 <= j < before.len() && (
                            #[trigger] before[j]).0 == k;
                            assert(after[j].0 == k);
                        }
                        if k == name@ {
                            assert(after[i as int].0 == k);
                        }
                    }
                    assert forall|k: Seq<char>| has_name(after, k) implies value_of(after, k) == (
                    if k == name@ {
                        value@
                    } else {
                        value_of(before, k)
                    }) by {
                        let j = choose|j: int| 0 <= j < after.len() && (#[trigger] after[j]).0
                            == k;
                        lemma_distinct_value(after, j);
                        if k == name@ {
                            if j != i {
                                assert(after[j].0 == after[i as int].0);
                            }
                        } else {
                            assert(before[j] == after[j]);
                            lemma_distinct_value(before, j);
                        }
                    }
                    assert(mapping(after) =~= mapping(before).insert(name@, value@));
                }
            },
            None => {
                vars.push((name.to_owned(), value.to_owned()));
                proof {
                    let after = pair_texts(vars@);
                    assert(after =~= before.push((name@, value@)));
                    assert(distinct(after)) by {
                        assert forall|a: int, b: int| 0 <= a < b < after.len() implies (
                        #[trigger] after[a]).0 != (#[trigger] after[b]).0 by {
                            if b < before.len() {
                                assert(before[a].0 != before[b].0);
                            } else {
                                assert(before[a].0 != name@);
                            }
                        }
                    }
                    assert forall|k: Seq<char>| has_name(after, k) <==> (has_name(before, k) || k
                        == name@) by {
                        if has_name(after, k) {
                            let j = choose|j: int| 0 <= j < after.len() && (#[trigger] after[j]).0
                                == k;
                            if j < before.len() {
                                assert(before[j].0 == k);
                            }
                        }
                        if has_name(before, k) {
                            let j = choose|j: int| 0 <= j < before.len() && (
                            #[trigger] before[j]).0 == k;
                            assert(after[j].0 == k);
                        }
                        if k == name@ {
                            assert(after[before.len() as int].0 == k);
                        }
                    }
                    assert forall|k: Seq<char>| has_name(after, k) implies value_of(after, k) == (
                    if k == name@ {
                        value@
                    } else {
                        value_of(before, k)
                    }) by {
                        let j = choose|j: int| 0 <= j < after.len() && (#[trigger] after[j]).0
                            == k;
                        lemma_distinct_value(after, j);
                        if k == name@ {
                            if j != before.len() {
                                assert(after[j].0 == after[before.len() as int].0);
                            }
                        } else {
                            assert(before[j] == after[j]);
                            lemma_distinct_value(before, j);
                        }
                    }
                    assert(mapping(after) =~= mapping(before).insert(name@, value@));
                }
            },
        }
        self.vars = vars;
    }

    /// Takes the variable away, if it is there.
    pub fn remove(&mut self, name: &str)
        ensures
            final(self)@ == old(self)@.remove(name@),
    {
        let found = self.position(name);
        proof {
            use_type_invariant(&*self);
        }
        let ghost before = pair_texts(self.vars@);
        let mut vars: Vec<(String, String)> = Vec::new();
        std::mem::swap(&mut self.vars, &mut vars);
        match found {
            Some(i) => {
                vars.remove(i);
                proof {
                    let after = pair_texts(vars@);
                    assert(after =~= before.remove(i as int));
                    assert(distinct(after)) by {
                        assert forall|a: int, b: int| 0 <= a < b < after.len() implies (
                        #[trigger] after[a]).0 != (#[trigger] after[b]).0 by {
                            let a0 = if a < i { a } else { a + 1 };
                            let b0 = if b < i { b } else { b + 1 };
                            assert(before[a0].0 != before[b0].0);
                        }
                    }
                    assert forall|k: Seq<char>| has_name(after, k) <==> (has_name(before, k) && k
                        != name@) by {
                        if has_name(after, k) {
                            let j = choose|j: int| 0 <= j < after.len() && (#[trigger] after[j]).0
                                == k;
                            let j0 = if j < i { j } else { j + 1 };
                            assert(before[j0].0 == k);
                            if j0 < i {
                                assert(before[j0].0 != before[i as int].0);
                            } else {
                                assert(before[i as int].0 != before[j0].0);
                            }
                        }
                        if has_name(before, k) && k != name@ {
                            let j = choose|j: int| 0 <= j < before.len() && (
                            #[trigger] before[j]).0 == k;
                            let j1 = if j < i { j } else { j - 1 };
                            assert(after[j1].0 == k);
                        }
                    }
                    assert forall|k: Seq<char>| has_name(after, k) implies value_of(after, k)
                        == value_of(before, k) by {
                        let j = choose|j: int| 0 <= j < after.len() && (#[trigger] after[j]).0
                            == k;
                        let j0 = if j < i { j } else { j + 1 };
                        lemma_distinct_value(after, j);
                        assert(before[j0] == after[j]);
                        lemma_distinct_value(before, j0);
                    }
                    assert(mapping(after) =~= mapping(before).remove(name@));
                }
            },
            None => {
                assert(mapping(before) =~= mapping(before).remove(name@));
            },
        }
        self.vars = vars;
    }

    /// The environment that the pairs describe, read in order: where a name
    /// comes twice, its later value stands.
    pub fn from_pairs(pairs: &Vec<(String, String)>) -> (r: Environment)
        ensures
            r@ == inserted_all(Map::<Seq<char>, Seq<char>>::empty(), pair_texts(pairs@)),
    {
        let mut r = Environment::new();
        let mut i: usize = 0;
        assert(pair_texts(pairs@).take(0) =~= Seq::empty());
        while i < pairs.len()
            invariant
                i <= pairs.len(),
                r@ == inserted_all(
                    Map::<Seq<char>, Seq<char>>::empty(),
                    pair_texts(pairs@).take(i as int),
                ),
            decreases pairs.len() - i,
        {
            proof {
                let next = pair_texts(pairs@).take(i + 1);
                assert(next.drop_last() =~= pair_texts(pairs@).take(i as int));
                assert(next.last() == (pairs@[i as int].0@, pairs@[i as int].1@));
            }
            r.set(pairs[i].0.as_str(), pairs[i].1.as_str());
            i = i + 1;
        }
        assert(pair_texts(pairs@).take(pairs.len() as int) =~= pair_texts(pairs@));
        r
    }

    /// The variables as pairs, each name once.
    pub fn to_pairs(&self) -> (r: Vec<(String, String)>)
        ensures
            distinct(pair_texts(r@)),
            mapping(pair_texts(r@)) == self@,
    {
        proof {
            use_type_invariant(self);
        }
        let mut r: Vec<(String, String)> = Vec::new();
        let mut i: usize = 0;
        assert(pair_texts(r@) =~= pair_texts(self.vars@).take(0));
        while i < self.vars.len()
            invariant
                i <= self.vars.len(),
                pair_texts(r@) == pair_texts(self.vars@).take(i as int),
            decreases self.vars.len() - i,
        {
            let ghost before = r@;
            let name = self.vars[i].0.clone();
            let value = self.vars[i].1.clone();
            r.push((name, value));
            proof {
                assert(r@ == before.push((name, value)));
                assert(pair_texts(before).len() == i);
                assert forall|j: int| 0 <= j < i implies pair_texts(r@)[j] == pair_texts(
                    self.vars@,
                )[j] by {
                    assert(pair_texts(before)[j] == pair_texts(self.vars@).take(i as int)[j]);
                }
                assert(pair_texts(r@) =~= pair_texts(self.vars@).take(i + 1));
            }
            i = i + 1;
        }
        assert(pair_texts(self.vars@).take(self.vars.len() as int) =~= pair_texts(self.vars@));
        r
    }
}

/// The mapping after the pairs are put in, in order.
pub open spec fn inserted_all(
    env: Map<Seq<char>, Seq<char>>,
    pairs: Seq<(Seq<char>, Seq<char>)>,
) -> Map<Seq<char>, Seq<char>>
    decreases pairs.len(),
{
    if pairs.len() == 0 {
        env
    } else {
        inserted_all(env, pairs.drop_last()).insert(pairs.last().0, pairs.last().1)
    }
}

fn holds_char(text: &str, c: char) -> (r: bool)
    ensures
        r == text@.contains(c),
{
    let chars = chars_of(text);
    let mut i: usize = 0;
    while i < chars.len()
        invariant
            i <= chars.len(),
            chars@ == text@,
            forall|j: int| 0 <= j < i ==> chars@[j] != c,
        decreases chars.len() - i,
    {
        if chars[i] == c {
            return true;
        }
        i = i + 1;
    }
    false
}

fn is_plain(segments: &Vec<String>, sep: char) -> (r: bool)
    ensures
        r == all_plain(texts(segments@), sep),
{
    let mut i: usize = 0;
    while i < segments.len()
        invariant
            i <= segments.len(),
            forall|j: int| 0 <= j < i ==> !(#[trigger] texts(segments@)[j]).contains(sep),
        decreases segments.len() - i,
    {
        if holds_char(segments[i].as_str(), sep) {
            assert(texts(segments@)[i as int] == segments@[i as int]@);
            return false;
        }
        i = i + 1;
    }
    true
}

fn find_not_plain(lists: &Vec<(String, ListOps)>, sep: char) -> (r: Option<usize>)
    ensures
        match r {
            Some(i) => first_not_plain(list_texts(lists@), sep) == Some(i as int) && i
                < lists.len(),
            None => first_not_plain(list_texts(lists@), sep) is None,
        },
{
    let ghost views = list_texts(lists@);
    let mut i: usize = 0;
    while i < lists.len()
        invariant
            i <= lists.len(),
            views == list_texts(lists@),
            forall|j: int| 0 <= j < i ==> plain_ops((#[trigger] views[j]).1, sep),
        decreases lists.len() - i,
    {
        assert(views[i as int].1 == lists@[i as int].1@);
        if !is_plain(&lists[i].1.prepend, sep) || !is_plain(&lists[i].1.append, sep) {
            proof {
                let found = choose|k: int|
                    0 <= k < views.len() && !plain_ops((#[trigger] views[k]).1, sep) && forall|
                        j: int,
                    |
                        0 <= j < k ==> plain_ops((#[trigger] views[j]).1, sep);
                if found < i {
                    assert(plain_ops(views[found].1, sep));
                } else if i < found {
                    assert(plain_ops(views[i as int].1, sep));
                }
            }
            return Some(i);
        }
        i = i + 1;
    }
    None
}

impl Environment {
    /// One assignment of a configuration: an empty value deletes the
    /// variable, any other value sets it.
    pub fn assign(&mut self, name: &str, value: &str)
        ensures
            final(self)@ == assigned(old(self)@, name@, value@),
    {
        if value.is_empty() {
            self.remove(name);
        } else {
            self.set(name, value);
        }
    }

    /// Splices into one variable: its new value is the segments to prepend,
    /// the segments of its value so far, the segments to append, joined.
    pub fn splice(&mut self, name: &str, ops: &ListOps, sep: char)
        ensures
            final(self)@ == spliced_into(old(self)@, name@, ops@, sep),
    {
        let current = match self.get(name) {
            Some(value) => split_path_list(value.as_str(), sep),
            None => {
                let none: Vec<String> = Vec::new();
                assert(texts(none@) =~= Seq::empty());
                none
            },
        };
        let segments = compose(&ops.prepend, &current, &ops.append);
        let value = join_path_list(&segments, sep);
        self.set(name, value.as_str());
    }
}

/// The environment of the target, from the inherited one and the
/// configuration: first the assignments, then the splices, each splice
/// reading what stands after the assignments and the splices before it. No
/// segment to splice in may hold the separator; where one does, the first
/// variable with such a segment is reported and nothing is composed.
pub fn compose_environment(parent: &Environment, app: &WexeApp, sep: char) -> (r: Result<
    Environment,
    ComposeError,
>)
    ensures
        match r {
            Ok(env) => {
                &&& first_not_plain(app@.env_pathlike, sep) is None
                &&& env@ == composed(parent@, app@, sep)
            },
            Err(ComposeError::SeparatorInSegment { variable }) => {
                &&& first_not_plain(app@.env_pathlike, sep) matches Some(i)
                &&& 0 <= i < app@.env_pathlike.len()
                &&& variable@ == app@.env_pathlike[i].0
            },
        },
{
    if let Some(i) = find_not_plain(&app.env_pathlike, sep) {
        assert(list_texts(app.env_pathlike@)[i as int].0 == app.env_pathlike@[i as int].0@);
        return Err(ComposeError::SeparatorInSegment { variable: app.env_pathlike[i].0.clone() });
    }
    let mut env = Environment { vars: parent.to_pairs() };
    assert(env@ == parent@);
    let ghost sets = pair_texts(app.env_set@);
    let mut i: usize = 0;
    assert(sets.take(0) =~= Seq::empty());
    while i < app.env_set.len()
        invariant
            i <= app.env_set.len(),
            sets == pair_texts(app.env_set@),
            env@ == assigned_all(parent@, sets.take(i as int)),
        decreases app.env_set.len() - i,
    {
        proof {
            let next = sets.take(i + 1);
            assert(next.drop_last() =~= sets.take(i as int));
            assert(next.last() == (app.env_set@[i as int].0@, app.env_set@[i as int].1@));
        }
        env.assign(app.env_set[i].0.as_str(), app.env_set[i].1.as_str());
        i = i + 1;
    }
    assert(sets.take(app.env_set.len() as int) =~= sets);
    let ghost start = env@;
    let ghost lists = list_texts(app.env_pathlike@);
    let mut k: usize = 0;
    assert(lists.take(0) =~= Seq::empty());
    while k < app.env_pathlike.len()
        invariant
            k <= app.env_pathlike.len(),
            lists == list_texts(app.env_pathlike@),
            env@ == spliced_all(start, lists.take(k as int), sep),
        decreases app.env_pathlike.len() - k,
    {
        proof {
            let next = lists.take(k + 1);
            assert(next.drop_last() =~= lists.take(k as int));
            assert(next.last() == (app.env_pathlike@[k as int].0@, app.env_pathlike@[k as int].1@));
        }
        env.splice(app.env_pathlike[k].0.as_str(), &app.env_pathlike[k].1, sep);
        k = k + 1;
    }
    assert(lists.take(app.env_pathlike.len() as int) =~= lists);
    Ok(env)
}

/// An empty value deletes: after the assignments of a configuration in which
/// a name occurs once, and with an empty value, the environment does not
/// hold the name, whatever it held before.
pub proof fn lemma_empty_value_deletes(
    env: Map<Seq<char>, Seq<char>>,
    sets: Seq<(Seq<char>, Seq<char>)>,
    i: int,
)
    requires
        distinct(sets),
        0 <= i < sets.len(),
        sets[i].1.len() == 0,
    ensures
        !assigned_all(env, sets).contains_key(sets[i].0),
    decreases sets.len(),
{
    let front = sets.drop_last();
    if i < sets.len() - 1 {
        assert(distinct(front)) by {
            assert forall|a: int, b: int| 0 <= a < b < front.len() implies (#[trigger] front[a]).0
                != (#[trigger] front[b]).0 by {
                assert(sets[a].0 != sets[b].0);
            }
        }
        assert(front[i] == sets[i]);
        lemma_empty_value_deletes(env, front, i);
        assert(sets[i].0 != sets[sets.len() - 1].0);
    }
}

/// A variable that no assignment and no splice names keeps its value.
pub proof fn lemma_untouched_variable(
    env: Map<Seq<char>, Seq<char>>,
    app: WexeAppView,
    sep: char,
    name: Seq<char>,
)
    requires
        forall|i: int| 0 <= i < app.env_set.len() ==> (#[trigger] app.env_set[i]).0 != name,
        forall|i: int| 0 <= i < app.env_pathlike.len() ==> (#[trigger] app.env_pathlike[i]).0 != name,
    ensures
        lookup(composed(env, app, sep), name) == lookup(env, name),
{
    lemma_assigned_others(env, app.env_set, name);
    lemma_spliced_others(assigned_all(env, app.env_set), app.env_pathlike, sep, name);
}

proof fn lemma_assigned_others(
    env: Map<Seq<char>, Seq<char>>,
    sets: Seq<(Seq<char>, Seq<char>)>,
    name: Seq<char>,
)
    requires
        forall|i: int| 0 <= i < sets.len() ==> (#[trigger] sets[i]).0 != name,
    ensures
        lookup(assigned_all(env, sets), name) == lookup(env, name),
    decreases sets.len(),
{
    if sets.len() > 0 {
        let front = sets.drop_last();
        assert forall|i: int| 0 <= i < front.len() implies (#[trigger] front[i]).0 != name by {
            assert(front[i] == sets[i]);
        }
        lemma_assigned_others(env, front, name);
        assert(sets[sets.len() - 1].0 != name);
    }
}

proof fn lemma_spliced_others(
    env: Map<Seq<char>, Seq<char>>,
    lists: Seq<(Seq<char>, ListOpsView)>,
    sep: char,
    name: Seq<char>,
)
    requires
        forall|i: int| 0 <= i < lists.len() ==> (#[trigger] lists[i]).0 != name,
    ensures
        lookup(spliced_all(env, lists, sep), name) == lookup(env, name),
    decreases lists.len(),
{
    if lists.len() > 0 {
        let front = lists.drop_last();
        assert forall|i: int| 0 <= i < front.len() implies (#[trigger] front[i]).0 != name by {
            assert(front[i] == lists[i]);
        }
        lemma_spliced_others(env, front, sep, name);
        assert(lists[lists.len() - 1].0 != name);
    }
}

/// A list with two neighbours in each other's place.
pub open spec fn swapped<T>(list: Seq<T>, i: int) -> Seq<T> {
    list.update(i, list[i + 1]).update(i + 1, list[i])
}

/// The assignments of a configuration are a mapping: where two neighbours
/// name different variables, the order in which they are made changes
/// nothing.
pub proof fn lemma_assignments_commute(
    env: Map<Seq<char>, Seq<char>>,
    sets: Seq<(Seq<char>, Seq<char>)>,
    i: int,
)
    requires
        0 <= i,
        i + 1 < sets.len(),
        sets[i].0 != sets[i + 1].0,
    ensures
        assigned_all(env, swapped(sets, i)) == assigned_all(env, sets),
    decreases sets.len(),
{
    let other = swapped(sets, i);
    if i + 1 == sets.len() - 1 {
        let front = sets.drop_last().drop_last();
        assert(other.drop_last().drop_last() =~= front);
        assert(other.drop_last().last() == sets[i + 1]);
        assert(sets.drop_last().last() == sets[i]);
        assert(other.last() == sets[i] && sets.last() == sets[i + 1]);
        let base = assigned_all(env, front);
        assert(assigned_all(env, sets.drop_last()) == assigned(base, sets[i].0, sets[i].1));
        assert(assigned_all(env, other.drop_last()) == assigned(
            base,
            sets[i + 1].0,
            sets[i + 1].1,
        ));
        assert(assigned(assigned(base, sets[i].0, sets[i].1), sets[i + 1].0, sets[i + 1].1)
            =~= assigned(assigned(base, sets[i + 1].0, sets[i + 1].1), sets[i].0, sets[i].1));
    } else {
        assert(other.drop_last() =~= swapped(sets.drop_last(), i));
        assert(other.last() == sets.last());
        lemma_assignments_commute(env, sets.drop_last(), i);
    }
}

/// The splices of a configuration are a mapping: where two neighbours name
/// different variables, the order in which they are made changes nothing.
pub proof fn lemma_splices_commute(
    env: Map<Seq<char>, Seq<char>>,
    lists: Seq<(Seq<char>, ListOpsView)>,
    sep: char,
    i: int,
)
    requires
        0 <= i,
        i + 1 < lists.len(),
        lists[i].0 != lists[i + 1].0,
    ensures
        spliced_all(env, swapped(lists, i), sep) == spliced_all(env, lists, sep),
    decreases lists.len(),
{
    let other = swapped(lists, i);
    if i + 1 == lists.len() - 1 {
        let front = lists.drop_last().drop_last();
        assert(other.drop_last().drop_last() =~= front);
        assert(other.drop_last().last() == lists[i + 1]);
        assert(lists.drop_last().last() == lists[i]);
        assert(other.last() == lists[i] && lists.last() == lists[i + 1]);
        let base = spliced_all(env, front, sep);
        assert(spliced_all(env, lists.drop_last(), sep) == spliced_into(
            base,
            lists[i].0,
            lists[i].1,
            sep,
        ));
        assert(spliced_all(env, other.drop_last(), sep) == spliced_into(
            base,
            lists[i + 1].0,
            lists[i + 1].1,
            sep,
        ));
        assert(spliced_into(
            spliced_into(base, lists[i].0, lists[i].1, sep),
            lists[i + 1].0,
            lists[i + 1].1,
            sep,
        ) =~= spliced_into(
            spliced_into(base, lists[i + 1].0, lists[i + 1].1, sep),
            lists[i].0,
            lists[i].1,
            sep,
        ));
    } else {
        assert(other.drop_last() =~= swapped(lists.drop_last(), i));
        assert(other.last() == lists.last());
        lemma_splices_commute(env, lists.drop_last(), sep, i);
    }
}

} // verus!
