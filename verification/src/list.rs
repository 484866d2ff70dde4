//! Listing the declared hooks in lexicographic order.

use crate::config::{names_of, Configuration};
use crate::text::{
    join2, lemma_lex_le_reflexive, lemma_lex_le_total, lemma_lex_le_total_ordering, lemma_lex_le_transitive, lex_le,
    str_le, views,
};
use vstd::prelude::*;
use vstd::relations::{sorted_by, total_ordering};
use vstd::seq_lib::{lemma_sorted_unique, to_multiset_build, to_multiset_insert};
use vstd::string::*;

verus! {

/// The order in which names are listed.
pub open spec fn name_order() -> spec_fn(Seq<char>, Seq<char>) -> bool {
    |a: Seq<char>, b: Seq<char>| lex_le(a, b)
}

/// `names` in lexicographic order.
pub open spec fn in_order(names: Seq<Seq<char>>) -> Seq<Seq<char>> {
    names.sort_by(name_order())
}

/// The line shown for a configuration that declares no hook.
pub open spec fn empty_notice(config_path: Seq<char>) -> Seq<char> {
    "no hooks defined in "@ + config_path
}

/// The line shown for the declared hook `name`.
pub open spec fn listing_item(name: Seq<char>) -> Seq<char> {
    "- "@ + name
}

/// The lines of a listing: a notice where no hook is declared, otherwise
/// one line for each name, the names in lexicographic order.
pub open spec fn listing(names: Seq<Seq<char>>, config_path: Seq<char>) -> Seq<Seq<char>> {
    if names.len() == 0 {
        seq![empty_notice(config_path)]
    } else {
        in_order(names).map_values(|name: Seq<char>| listing_item(name))
    }
}

/// `in_order` gives the one arrangement of `names` that is sorted: it is
/// sorted, it holds each name as often as `names` does, and every sorted
/// arrangement of the same names equals it.
pub proof fn lemma_in_order(names: Seq<Seq<char>>)
    ensures
        sorted_by(in_order(names), name_order()),
        in_order(names).to_multiset() == names.to_multiset(),
        in_order(names).len() == names.len(),
        forall|other: Seq<Seq<char>>|
            sorted_by(other, name_order()) && other.to_multiset() == names.to_multiset()
                ==> other == in_order(names),
{
    lemma_name_order_total();
    names.lemma_sort_by_ensures(name_order());
    names.to_multiset_ensures();
    in_order(names).to_multiset_ensures();
    assert forall|other: Seq<Seq<char>>|
        sorted_by(other, name_order()) && other.to_multiset() == names.to_multiset() implies other
        == in_order(names) by {
        lemma_sorted_unique(other, in_order(names), name_order());
    }
}

/// The order of names is a total order.
pub proof fn lemma_name_order_total()
    ensures
        total_ordering(name_order()),
{
    lemma_lex_le_total_ordering();
    assert(name_order() == (|a: Seq<char>, b: Seq<char>| lex_le(a, b)));
}

/// `names` in lexicographic order.
pub fn sort_names(names: &Vec<String>) -> (sorted: Vec<String>)
    ensures
        views(sorted@) == in_order(views(names@)),
{
    let mut sorted: Vec<String> = Vec::new();
    let mut i: usize = 0;
    assert(views(names@).take(0) =~= views(sorted@));
    while i < names.len()
        invariant
            i <= names.len(),
            sorted_by(views(sorted@), name_order()),
            views(sorted@).to_multiset() == views(names@).take(i as int).to_multiset(),
        decreases names.len() - i,
    {
        let name = names[i].clone();
        let mut at: usize = 0;
        while at < sorted.len() && str_le(sorted[at].as_str(), name.as_str())
            invariant
                at <= sorted.len(),
                forall|k: int| 0 <= k < at ==> lex_le(#[trigger] views(sorted@)[k], name@),
            decreases sorted.len() - at,
        {
            at = at + 1;
        }
        let ghost before = views(sorted@);
        sorted.insert(at, name);
        proof {
            let after = views(sorted@);
            assert(after =~= before.insert(at as int, name@));
            to_multiset_insert(before, at as int, name@);
            to_multiset_build(views(names@).take(i as int), name@);
            assert(views(names@).take(i as int).push(name@) =~= views(names@).take(i + 1));
            assert forall|a: int, b: int| 0 <= a < b < after.len() implies #[trigger] name_order()(
                after[a],
                after[b],
            ) by {
                if b == at {
                    assert(after[a] == before[a]);
                } else if a == at {
                    assert(after[b] == before[b - 1]);
                    if at < before.len() {
                        lemma_lex_le_total(before[at as int], name@);
                        if b - 1 > at {
                            assert(name_order()(before[at as int], before[b - 1]));
                        } else {
                            lemma_lex_le_reflexive(before[at as int]);
                        }
                        lemma_lex_le_transitive(name@, before[at as int], before[b - 1]);
                    }
                } else {
                    let a0 = if a < at { a } else { a - 1 };
                    let b0 = if b < at { b } else { b - 1 };
                    assert(after[a] == before[a0]);
                    assert(after[b] == before[b0]);
                    assert(name_order()(before[a0], before[b0]));
                }
            }
        }
        i = i + 1;
    }
    proof {
        assert(views(names@).take(i as int) =~= views(names@));
        lemma_in_order(views(names@));
    }
    sorted
}

/// The lines that list the hooks declared in `cfg`, which was read from
/// `config_path`: the names in lexicographic order, whatever the order of
/// the configuration.
pub fn list_hooks(cfg: &Configuration, config_path: &str) -> (lines: Vec<String>)
    ensures
        views(lines@) == listing(names_of(cfg@), config_path@),
{
    let mut lines: Vec<String> = Vec::new();
    if cfg.is_empty() {
        lines.push(join2("no hooks defined in ", config_path));
        assert(views(lines@) =~= seq![empty_notice(config_path@)]);
        return lines;
    }
    let names = cfg.names();
    let sorted = sort_names(&names);
    let ghost items = in_order(names_of(cfg@)).map_values(|name: Seq<char>| listing_item(name));
    assert(views(lines@) =~= items.take(0));
    let mut i: usize = 0;
    while i < sorted.len()
        invariant
            i <= sorted.len(),
            views(sorted@) == in_order(names_of(cfg@)),
            items == in_order(names_of(cfg@)).map_values(|name: Seq<char>| listing_item(name)),
            views(lines@) == items.take(i as int),
        decreases sorted.len() - i,
    {
        let ghost shown = views(lines@);
        let line = join2("- ", sorted[i].as_str());
        assert(line@ == items[i as int]) by {
            assert(views(sorted@)[i as int] == sorted@[i as int]@);
        }
        lines.push(line);
        assert(views(lines@) =~= shown.push(line@));
        assert(views(lines@) =~= items.take(i + 1));
        i = i + 1;
    }
    assert(items.take(i as int) =~= items);
    lines
}

} // verus!
