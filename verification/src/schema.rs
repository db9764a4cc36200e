//! The rules by which a target's definition gives its partial type and its
//! environment source: what the two are called, which fields are optional,
//! which are text, which traits the partial type derives, and under which
//! names a field is looked up in the environment.
//!
//! A generator of partial types reads a definition, asks these rules, and
//! writes the types out. The rules speak of names only, as plain text.
use vstd::prelude::*;
use vstd::string::StringExecFns;

verus! {

/// Whether a type whose path ends in `last_segment` is already optional in
/// the target: it is one that is written as an `Option`.
pub fn is_option(last_segment: &str) -> (optional: bool)
    ensures
        optional == (last_segment@ == "Option"@),
{
    last_segment.to_owned() == String::from_str("Option")
}

/// Whether a type written as `path` is text, so that what the environment
/// holds for it needs no parsing.
pub fn is_string(path: &str) -> (text: bool)
    ensures
        text == (path@ == "String"@ || path@ == "str"@),
{
    let given = path.to_owned();
    given == String::from_str("String") || given == String::from_str("str")
}

/// The name that `renames` leave of `default`: the last of them, or `default`
/// where there is none.
pub open spec fn renamed(default: Seq<char>, renames: Seq<&str>) -> Seq<char> {
    if renames.len() == 0 {
        default
    } else {
        renames.last()@
    }
}

/// The name of the partial type of the target called `target`: "Partial"
/// before the target's own name, unless the definition renames it; of several
/// renames the last one holds.
pub fn partial_struct_name(target: &str, renames: &[&str]) -> (name: String)
    ensures
        name@ == renamed("Partial"@ + target@, renames@),
{
    if renames.len() == 0 {
        let mut name = String::from_str("Partial");
        name.append(target);
        name
    } else {
        renames[renames.len() - 1].to_owned()
    }
}

/// The name of the environment source of a target: "EnvVarSource", unless the
/// definition renames it; of several renames the last one holds.
pub fn env_var_struct_name(renames: &[&str]) -> (name: String)
    ensures
        name@ == renamed("EnvVarSource"@, renames@),
{
    if renames.len() == 0 {
        String::from_str("EnvVarSource")
    } else {
        renames[renames.len() - 1].to_owned()
    }
}

/// The texts of `names`, in the same order.
pub open spec fn texts(names: Seq<String>) -> Seq<Seq<char>> {
    names.map_values(|name: String| name@)
}

/// Whether `name` is among `names`.
fn holds(names: &Vec<String>, name: &String) -> (found: bool)
    ensures
        found == texts(names@).contains(name@),
{
    let mut i: usize = 0;
    while i < names.len()
        invariant
            i <= names.len(),
            forall|j: int| 0 <= j < i ==> texts(names@)[j] != name@,
        decreases names.len() - i,
    {
        if names[i] == *name {
            proof {
                assert(texts(names@)[i as int] == name@);
            }
            return true;
        }
        i += 1;
    }
    false
}

/// The traits that a partial type derives, given those that the definition
/// asks for: the same, and `Default`, which layering needs, after them where
/// it is not among them.
pub open spec fn with_default(derives: Seq<Seq<char>>) -> Seq<Seq<char>> {
    if derives.contains("Default"@) {
        derives
    } else {
        derives.push("Default"@)
    }
}

/// The traits that a partial type derives, given those that the definition
/// asks for.
pub fn partial_derives(asked: Vec<String>) -> (derives: Vec<String>)
    ensures
        texts(derives@) == with_default(texts(asked@)),
{
    let default = String::from_str("Default");
    let mut derives = asked;
    if !holds(&derives, &default) {
        let ghost before = derives@;
        derives.push(default);
        proof {
            assert(texts(derives@) == texts(before).push("Default"@));
        }
    }
    derives
}

/// Why the names under which a field is to be looked up are refused.
#[derive(Debug)]
pub enum EnvNameError {
    /// The field is given no name at all.
    NoName,
    /// Two of the field's `env` attributes give `name`.
    Repeated { name: String },
}

/// `names` with each repeat of an earlier name left out.
pub open spec fn taken_once(names: Seq<Seq<char>>) -> Seq<Seq<char>>
    decreases names.len(),
{
    if names.len() == 0 {
        names
    } else {
        let before = taken_once(names.drop_last());
        if before.contains(names.last()) {
            before
        } else {
            before.push(names.last())
        }
    }
}

/// The first name of `group`, from the index `from` on, that is among `earlier`.
pub open spec fn first_clash(
    earlier: Seq<Seq<char>>,
    group: Seq<Seq<char>>,
    from: int,
) -> Option<Seq<char>>
    decreases group.len() - from,
{
    if from < 0 || from >= group.len() {
        None
    } else if earlier.contains(group[from]) {
        Some(group[from])
    } else {
        first_clash(earlier, group, from + 1)
    }
}

/// The names that the first `count` of `groups` give, group after group and
/// each name once; or, where a group gives a name that an earlier group has
/// given, the first such name.
pub open spec fn gathered(groups: Seq<Seq<Seq<char>>>, count: int) -> Result<
    Seq<Seq<char>>,
    Seq<char>,
>
    decreases count,
{
    if count <= 0 {
        Ok(Seq::empty())
    } else {
        match gathered(groups, count - 1) {
            Err(name) => Err(name),
            Ok(earlier) => match first_clash(earlier, groups[count - 1], 0) {
                Some(name) => Err(name),
                None => Ok(earlier + taken_once(groups[count - 1])),
            },
        }
    }
}

/// The texts of the names in `groups`, group by group.
pub open spec fn group_texts(groups: Seq<Vec<String>>) -> Seq<Seq<Seq<char>>> {
    groups.map_values(|group: Vec<String>| texts(group@))
}

/// Whether `outcome` is what the `env` attributes of one field, whose names
/// are `groups`, come to: the names in the order written, a repeated name, or
/// no name at all.
pub open spec fn names_come_to(
    groups: Seq<Seq<Seq<char>>>,
    outcome: Result<Vec<String>, EnvNameError>,
) -> bool {
    match gathered(groups, groups.len() as int) {
        Err(name) => outcome matches Err(EnvNameError::Repeated { name: given }) && given@ == name,
        Ok(all) => if all.len() == 0 {
            outcome matches Err(EnvNameError::NoName)
        } else {
            outcome matches Ok(names) && texts(names@) == all
        },
    }
}

/// Once a name is found repeated, the groups that follow change nothing.
proof fn lemma_repeat_is_final(groups: Seq<Seq<Seq<char>>>, found: int, count: int)
    requires
        0 <= found <= count,
        gathered(groups, found) is Err,
    ensures
        gathered(groups, count) == gathered(groups, found),
    decreases count - found,
{
    if found < count {
        lemma_repeat_is_final(groups, found, count - 1);
    }
}

/// The names under which a field is looked up in the environment, from the
/// names that its `env` attributes give, one group for each attribute.
///
/// The names stand in the order in which they are written. A name that its
/// own attribute repeats is taken once. A name that two attributes give is
/// refused, and so is a field that is given no name.
pub fn env_var_names(groups: &Vec<Vec<String>>) -> (outcome: Result<Vec<String>, EnvNameError>)
    ensures
        names_come_to(group_texts(groups@), outcome),
{
    let ghost given = group_texts(groups@);
    let mut all: Vec<String> = Vec::new();
    let mut g: usize = 0;
    proof {
        assert(texts(all@) == Seq::<Seq<char>>::empty());
    }
    while g < groups.len()
        invariant
            g <= groups.len(),
            given == group_texts(groups@),
            gathered(given, g as int) == Ok::<Seq<Seq<char>>, Seq<char>>(texts(all@)),
        decreases groups.len() - g,
    {
        let group = &groups[g];
        let ghost written = texts(group@);
        let mut added: Vec<String> = Vec::new();
        let mut i: usize = 0;
        proof {
            assert(given[g as int] == written);
            assert(texts(added@) == taken_once(written.take(0)));
        }
        while i < group.len()
            invariant
                i <= group.len(),
                g < groups.len(),
                given == group_texts(groups@),
                written == texts(group@),
                given[g as int] == written,
                gathered(given, g as int) == Ok::<Seq<Seq<char>>, Seq<char>>(texts(all@)),
                first_clash(texts(all@), written, 0) == first_clash(texts(all@), written, i as int),
                texts(added@) == taken_once(written.take(i as int)),
            decreases group.len() - i,
        {
            let name = &group[i];
            proof {
                assert(written[i as int] == name@);
                assert(written.take(i + 1).drop_last() == written.take(i as int));
                assert(written.take(i + 1).last() == name@);
            }
            if holds(&all, name) {
                proof {
                    assert(gathered(given, g + 1) == Err::<Seq<Seq<char>>, Seq<char>>(name@));
                    lemma_repeat_is_final(given, g + 1, groups@.len() as int);
                }
                return Err(EnvNameError::Repeated { name: name.clone() });
            }
            if !holds(&added, name) {
                let ghost before = added@;
                added.push(name.clone());
                proof {
                    assert(texts(added@) == texts(before).push(name@));
                }
            }
            i += 1;
        }
        proof {
            assert(written.take(group.len() as int) == written);
            assert(first_clash(texts(all@), written, group.len() as int) is None);
        }
        let ghost earlier = all@;
        let ghost fresh = added@;
        all.append(&mut added);
        proof {
            assert(texts(all@) == texts(earlier) + texts(fresh));
        }
        g += 1;
    }
    if all.is_empty() {
        Err(EnvNameError::NoName)
    } else {
        Ok(all)
    }
}

/// Names taken once hold no name twice, and hold exactly the names given.
pub proof fn lemma_taken_once(names: Seq<Seq<char>>)
    ensures
        taken_once(names).no_duplicates(),
        forall|name: Seq<char>| taken_once(names).contains(name) <==> names.contains(name),
    decreases names.len(),
{
    if names.len() > 0 {
        let before = names.drop_last();
        let last = names.last();
        lemma_taken_once(before);
        let kept = taken_once(before);
        assert forall|name: Seq<char>| taken_once(names).contains(name) <==> names.contains(
            name,
        ) by {
            if names.contains(name) {
                let at = choose|at: int| 0 <= at < names.len() && names[at] == name;
                if at < before.len() {
                    assert(before[at] == name);
                    assert(before.contains(name));
                    assert(kept.contains(name));
                    let into = choose|into: int| 0 <= into < kept.len() && kept[into] == name;
                    assert(taken_once(names)[into] == name);
                } else if !kept.contains(last) {
                    assert(taken_once(names)[kept.len() as int] == name);
                }
            }
            if taken_once(names).contains(name) {
                let at = choose|at: int|
                    0 <= at < taken_once(names).len() && taken_once(names)[at] == name;
                if at < kept.len() {
                    assert(kept[at] == name);
                    assert(kept.contains(name));
                    assert(before.contains(name));
                    let from = choose|from: int| 0 <= from < before.len() && before[from] == name;
                    assert(names[from] == name);
                } else {
                    assert(names[names.len() - 1] == name);
                }
            }
        }
    }
}

/// Where no name of `group`, from `from` on, clashes with `earlier`, none of
/// them is among `earlier`.
pub proof fn lemma_no_clash(earlier: Seq<Seq<char>>, group: Seq<Seq<char>>, from: int)
    requires
        0 <= from,
        first_clash(earlier, group, from) is None,
    ensures
        forall|i: int| from <= i < group.len() ==> !earlier.contains(#[trigger] group[i]),
    decreases group.len() - from,
{
    if from < group.len() {
        lemma_no_clash(earlier, group, from + 1);
    }
}

/// Where the first `count` groups are gathered without a repeat, no name
/// stands twice among the names gathered, every name of these groups is among
/// them, and nothing else is.
pub proof fn lemma_gathered_names_are_exact(groups: Seq<Seq<Seq<char>>>, count: int)
    requires
        0 <= count <= groups.len(),
        gathered(groups, count) is Ok,
    ensures
        gathered(groups, count)->Ok_0.no_duplicates(),
        forall|g: int, i: int|
            0 <= g < count && 0 <= i < groups[g].len() ==> gathered(groups, count)->Ok_0.contains(
                #[trigger] groups[g][i],
            ),
        forall|name: Seq<char>| #[trigger]
            gathered(groups, count)->Ok_0.contains(name) ==> exists|g: int, i: int|
                0 <= g < count && 0 <= i < groups[g].len() && #[trigger] groups[g][i] == name,
    decreases count,
{
    if count > 0 {
        let earlier = gathered(groups, count - 1)->Ok_0;
        let group = groups[count - 1];
        let fresh = taken_once(group);
        let all = gathered(groups, count)->Ok_0;
        lemma_gathered_names_are_exact(groups, count - 1);
        lemma_taken_once(group);
        lemma_no_clash(earlier, group, 0);
        assert(all == earlier + fresh);
        assert forall|a: int, b: int|
            0 <= a < all.len() && 0 <= b < all.len() && a != b implies all[a] != all[b] by {
            if a < earlier.len() && b >= earlier.len() {
                assert(fresh.contains(fresh[b - earlier.len()]));
                assert(group.contains(all[b]));
                assert(earlier.contains(all[a]));
            }
            if b < earlier.len() && a >= earlier.len() {
                assert(fresh.contains(fresh[a - earlier.len()]));
                assert(group.contains(all[a]));
                assert(earlier.contains(all[b]));
            }
        }
        assert forall|g: int, i: int|
            0 <= g < count && 0 <= i < groups[g].len() implies all.contains(
            #[trigger] groups[g][i],
        ) by {
            if g < count - 1 {
                assert(earlier.contains(groups[g][i]));
                let at = choose|at: int| 0 <= at < earlier.len() && earlier[at] == groups[g][i];
                assert(all[at] == groups[g][i]);
            } else {
                assert(group.contains(group[i]));
                assert(fresh.contains(group[i]));
                let at = choose|at: int| 0 <= at < fresh.len() && fresh[at] == group[i];
                assert(all[earlier.len() + at] == group[i]);
            }
        }
        assert forall|name: Seq<char>| #[trigger] all.contains(name) implies exists|g: int, i: int|
            0 <= g < count && 0 <= i < groups[g].len() && #[trigger] groups[g][i] == name by {
            let at = choose|at: int| 0 <= at < all.len() && all[at] == name;
            if at < earlier.len() {
                assert(earlier[at] == name);
                assert(earlier.contains(name));
            } else {
                assert(fresh[at - earlier.len()] == name);
                assert(fresh.contains(name));
                assert(group.contains(name));
                let i = choose|i: int| 0 <= i < group.len() && group[i] == name;
                assert(groups[count - 1][i] == name);
            }
        }
    }
}

} // verus!
