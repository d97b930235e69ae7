//! The language selector: the available layouts ordered by name, laid out
//! four to a row, with the current one marked.
use crate::language::manager::LanguageManager;
use crate::text::{
    chars_of, chars_precede, lemma_precedes_asymmetric, lemma_precedes_irreflexive,
    lemma_precedes_total, lemma_precedes_transitive, precedes, same_text,
};
use vstd::prelude::*;

verus! {

broadcast use vstd::string::group_string_axioms;

/// Buttons per row of the selector grid.
pub const SELECTOR_COLUMNS: usize = 4;

/// `order` lists each of `0..n` exactly once.
pub open spec fn is_permutation(order: Seq<usize>, n: int) -> bool {
    &&& order.len() == n
    &&& forall|i: int| 0 <= i < order.len() ==> order[i] < n
    &&& forall|i: int, j: int| 0 <= i < j < order.len() ==> order[i] != order[j]
}

/// `order` lists `names` by name, ties in the order they were given.
pub open spec fn sorted_by_name(names: Seq<Seq<char>>, order: Seq<usize>) -> bool {
    forall|i: int, j: int|
        #![trigger order[i], order[j]]
        0 <= i < j < order.len() ==> !precedes(names[order[j] as int], names[order[i] as int]) && (
        names[order[i] as int] == names[order[j] as int] ==> order[i] < order[j])
}

/// The order in which to list `names`: sorted by name, equal names keeping
/// their order.
pub fn name_order(names: &Vec<Vec<char>>) -> (order: Vec<usize>)
    ensures
        is_permutation(order@, names@.len() as int),
        sorted_by_name(names@.map_values(|v: Vec<char>| v@), order@),
{
    let ghost ns = names@.map_values(|v: Vec<char>| v@);
    let mut order: Vec<usize> = Vec::new();
    let mut k: usize = 0;
    while k < names.len()
        invariant
            ns == names@.map_values(|v: Vec<char>| v@),
            k <= names@.len(),
            is_permutation(order@, k as int),
            sorted_by_name(ns, order@),
        decreases names@.len() - k,
    {
        let mut pos = order.len();
        while pos > 0 && chars_precede(&names[k], &names[order[pos - 1]])
            invariant
                ns == names@.map_values(|v: Vec<char>| v@),
                k < names@.len(),
                pos <= order@.len(),
                is_permutation(order@, k as int),
                sorted_by_name(ns, order@),
                forall|x: int| pos <= x < order@.len() ==> precedes(ns[k as int], ns[order@[x] as int]),
            decreases pos,
        {
            pos = pos - 1;
        }
        proof {
            assert forall|x: int| 0 <= x < pos implies !precedes(ns[k as int], ns[order@[x] as int]) by {
                let last = ns[order@[pos - 1] as int];
                let here = ns[order@[x] as int];
                if precedes(ns[k as int], here) {
                    if x < pos - 1 {
                        lemma_precedes_total(here, last);
                        if precedes(here, last) {
                            lemma_precedes_transitive(ns[k as int], here, last);
                        }
                    }
                }
            }
        }
        let ghost old_order = order@;
        order.insert(pos, k);
        proof {
            assert forall|i: int, j: int| 0 <= i < j < order@.len() implies !precedes(
                ns[order@[j] as int],
                ns[order@[i] as int],
            ) && (ns[order@[i] as int] == ns[order@[j] as int] ==> order@[i] < order@[j]) by {
                if j == pos {
                    assert(order@[i] == old_order[i] && order@[j] == k);
                    assert(!precedes(ns[k as int], ns[old_order[i] as int]));
                    assert(old_order[i] < k);
                } else if i == pos {
                    assert(order@[i] == k && order@[j] == old_order[j - 1]);
                    assert(precedes(ns[k as int], ns[old_order[j - 1] as int]));
                    lemma_precedes_asymmetric(ns[k as int], ns[old_order[j - 1] as int]);
                    lemma_precedes_irreflexive(ns[k as int]);
                } else {
                    let oi = if i < pos {
                        i
                    } else {
                        i - 1
                    };
                    let oj = if j < pos {
                        j
                    } else {
                        j - 1
                    };
                    assert(order@[i] == old_order[oi] && order@[j] == old_order[oj]);
                    assert(0 <= oi < oj < old_order.len());
                    assert(!precedes(ns[old_order[oj] as int], ns[old_order[oi] as int]) && (
                    ns[old_order[oi] as int] == ns[old_order[oj] as int] ==> old_order[oi]
                        < old_order[oj]));
                }
            }
            assert forall|i: int, j: int| 0 <= i < j < order@.len() implies order@[i] != order@[j] by {
                if i < pos && j < pos {
                } else if i > pos && j > pos {
                    assert(order@[i] == old_order[i - 1] && order@[j] == old_order[j - 1]);
                } else if i < pos && j > pos {
                    assert(order@[i] == old_order[i] && order@[j] == old_order[j - 1]);
                }
            }
        }
        k = k + 1;
    }
    order
}

/// A button of the language selector.
#[derive(Debug, Clone)]
pub struct SelectorEntry {
    pub code: String,
    pub name: String,
    pub flag: String,
    pub row: usize,
    pub column: usize,
    /// The current language, which is marked and cannot be chosen again.
    pub current: bool,
}

/// The selector's buttons: every available language, ordered by name (equal
/// names by code), four to a row, the current one marked.
pub fn selector_entries(manager: &LanguageManager) -> (r: Vec<SelectorEntry>)
    ensures
        ({
            let codes = manager.codes();
            let names = codes.map_values(|c: Seq<char>| manager.languages()[c].0.name@);
            exists|order: Seq<usize>|
                #![trigger is_permutation(order, codes.len() as int)]
                {
                    &&& is_permutation(order, codes.len() as int)
                    &&& sorted_by_name(names, order)
                    &&& r@.len() == order.len()
                    &&& forall|i: int|
                        0 <= i < r@.len() ==> {
                            let info = manager.languages()[codes[order[i] as int]].0;
                            &&& (#[trigger] r@[i]).code@ == codes[order[i] as int]
                            &&& r@[i].name@ == info.name@
                            &&& r@[i].flag@ == info.flag@
                            &&& r@[i].row == i / 4
                            &&& r@[i].column == i % 4
                            &&& r@[i].current == (codes[order[i] as int] == manager.current())
                        }
                }
        }),
{
    let infos = manager.get_available_languages();
    let ghost codes = manager.codes();
    let mut names: Vec<Vec<char>> = Vec::new();
    let mut i: usize = 0;
    while i < infos.len()
        invariant
            infos@.len() == codes.len(),
            forall|j: int| 0 <= j < infos@.len() ==> *infos@[j] == #[trigger] manager.languages()[codes[j]].0,
            i <= infos@.len(),
            names@.len() == i,
            forall|j: int| 0 <= j < i ==> (#[trigger] names@[j])@ == infos@[j].name@,
        decreases infos@.len() - i,
    {
        names.push(chars_of(infos[i].name.as_str()));
        i = i + 1;
    }
    let order = name_order(&names);
    let ghost vnames = codes.map_values(|c: Seq<char>| manager.languages()[c].0.name@);
    proof {
        assert(names@.map_values(|v: Vec<char>| v@) =~= vnames);
    }
    let current = manager.get_current_language();
    let mut r: Vec<SelectorEntry> = Vec::new();
    let mut x: usize = 0;
    while x < order.len()
        invariant
            infos@.len() == codes.len(),
            forall|j: int| 0 <= j < infos@.len() ==> *infos@[j] == #[trigger] manager.languages()[codes[j]].0,
            forall|j: int| 0 <= j < infos@.len() ==> (#[trigger] infos@[j]).code@ == codes[j],
            is_permutation(order@, codes.len() as int),
            current@ == manager.current(),
            x <= order@.len(),
            r@.len() == x,
            forall|i: int|
                0 <= i < x ==> {
                    let info = manager.languages()[codes[order@[i] as int]].0;
                    &&& (#[trigger] r@[i]).code@ == codes[order@[i] as int]
                    &&& r@[i].name@ == info.name@
                    &&& r@[i].flag@ == info.flag@
                    &&& r@[i].row == i / 4
                    &&& r@[i].column == i % 4
                    &&& r@[i].current == (codes[order@[i] as int] == manager.current())
                },
        decreases order@.len() - x,
    {
        let info = infos[order[x]];
        r.push(
            SelectorEntry {
                code: info.code.clone(),
                name: info.name.clone(),
                flag: info.flag.clone(),
                row: x / SELECTOR_COLUMNS,
                column: x % SELECTOR_COLUMNS,
                current: same_text(info.code.as_str(), current),
            },
        );
        x = x + 1;
    }
    proof {
        assert(is_permutation(order@, codes.len() as int));
    }
    r
}

} // verus!
