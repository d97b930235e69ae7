//! Which layout files to load: custom layouts found in the configuration
//! directories, with later directories taking precedence, and the built-ins
//! when there are no custom layouts or the configuration asks for them too.
use crate::config::types::ConfigFile;
use crate::language::manager::{ends_with, starts_with};
use crate::layout::assets::{builtin_names, file_prefix, file_suffix, names};
use crate::table::{entries_map, keys_of, lemma_entries_map_extend, strictly_sorted, Table};
use crate::text::chars_of;
use vstd::prelude::*;

verus! {

/// Most layouts that may be available at once.
pub const MAX_LAYOUTS: usize = 64;

/// Where a discovered layout file comes from.
#[derive(Debug, Clone, Copy, PartialEq, Eq, Structural)]
pub enum LayoutOrigin {
    /// Bundled with the keyboard.
    Builtin,
    /// The configuration directory with this position in the search order.
    Custom(usize),
}

/// Why discovery failed.
#[derive(Debug, Clone, Copy, PartialEq, Eq, Structural)]
pub enum DiscoveryError {
    /// More than 64 layouts would be available.
    TooManyLayouts,
}

impl DiscoveryError {
    /// The refusal as reported.
    pub fn message(&self) -> (r: String)
        ensures
            r@ == "At most 64 layouts are supported"@,
    {
        "At most 64 layouts are supported".to_owned()
    }
}

/// A directory entry that names a layout: `layout-*.toml`.
pub open spec fn is_layout_name(name: Seq<char>) -> bool {
    starts_with(name, file_prefix()) && ends_with(name, file_suffix())
}

/// The layout names of one directory listing, added to `m` as coming from
/// directory `d`.
pub open spec fn add_listing(m: Map<Seq<char>, usize>, names: Seq<String>, d: usize) -> Map<
    Seq<char>,
    usize,
>
    decreases names.len(),
{
    if names.len() == 0 {
        m
    } else {
        let before = add_listing(m, names.drop_last(), d);
        if is_layout_name(names.last()@) {
            before.insert(names.last()@, d)
        } else {
            before
        }
    }
}

/// Every custom layout name, with the last directory (in search order) that has it.
pub open spec fn custom_layouts(listings: Seq<Vec<String>>) -> Map<Seq<char>, usize>
    decreases listings.len(),
{
    if listings.len() == 0 {
        Map::empty()
    } else {
        add_listing(
            custom_layouts(listings.drop_last()),
            listings.last()@,
            (listings.len() - 1) as usize,
        )
    }
}

/// Built-ins join when there is no custom layout or the configuration asks for them.
pub open spec fn includes_builtins(config: ConfigFile, custom: Map<Seq<char>, usize>) -> bool {
    custom.dom() == Set::<Seq<char>>::empty() || config.include_builtins_with_custom == Some(true)
}

/// The available layout files and their origins: custom files override
/// built-ins of the same name.
pub open spec fn discovered(config: ConfigFile, listings: Seq<Vec<String>>) -> Map<
    Seq<char>,
    LayoutOrigin,
> {
    let custom = custom_layouts(listings);
    let base = if includes_builtins(config, custom) {
        Map::new(|n: Seq<char>| builtin_names().contains(n), |n: Seq<char>| LayoutOrigin::Builtin)
    } else {
        Map::empty()
    };
    base.union_prefer_right(custom.map_values(|d: usize| LayoutOrigin::Custom(d)))
}

fn is_layout_file_name(name: &str) -> (r: bool)
    ensures
        r == is_layout_name(name@),
{
    let chars = chars_of(name);
    let n = chars.len();
    if n < 7 {
        return false;
    }
    let prefix = ['l', 'a', 'y', 'o', 'u', 't', '-'];
    let suffix = ['.', 't', 'o', 'm', 'l'];
    assert(file_prefix() =~= prefix@);
    assert(file_suffix() =~= suffix@);
    let mut i: usize = 0;
    while i < 7
        invariant
            chars@ == name@,
            n == chars@.len(),
            n >= 7,
            i <= 7,
            prefix@ == file_prefix(),
            forall|j: int| 0 <= j < i ==> chars@[j] == prefix@[j],
        decreases 7 - i,
    {
        if chars[i] != prefix[i] {
            assert(name@.take(7)[i as int] != file_prefix()[i as int]);
            return false;
        }
        i = i + 1;
    }
    assert(name@.take(7) =~= file_prefix());
    if n < 5 {
        return false;
    }
    let mut j: usize = 0;
    while j < 5
        invariant
            chars@ == name@,
            n == chars@.len(),
            n >= 7,
            j <= 5,
            suffix@ == file_suffix(),
            name@.take(7) == file_prefix(),
            forall|k: int| 0 <= k < j ==> chars@[n - 5 + k] == suffix@[k],
        decreases 5 - j,
    {
        if chars[n - 5 + j] != suffix[j] {
            assert(name@.skip(n - 5)[j as int] != file_suffix()[j as int]);
            return false;
        }
        j = j + 1;
    }
    assert(name@.skip(n - 5) =~= file_suffix());
    true
}

/// Decides which layout files to load from the directory listings, given in
/// search order (system directories first, the user's last): custom layouts
/// override built-ins and later directories override earlier ones. Refuses
/// when more than 64 layouts would be available. The result lists each file
/// once, in name order.
pub fn discover(config: &ConfigFile, listings: &Vec<Vec<String>>) -> (r: Result<
    Vec<(String, LayoutOrigin)>,
    DiscoveryError,
>)
    ensures
        r is Err <==> discovered(*config, listings@).dom().len() > MAX_LAYOUTS,
        discovered(*config, listings@).dom().finite(),
        r matches Ok(files) ==> strictly_sorted(keys_of(files@)) && entries_map(files@)
            == discovered(*config, listings@),
{
    let mut custom: Table<usize> = Table::new();
    let mut d: usize = 0;
    while d < listings.len()
        invariant
            d <= listings@.len(),
            custom.map() == custom_layouts(listings@.take(d as int)),
        decreases listings@.len() - d,
    {
        let names = &listings[d];
        let ghost start = custom.map();
        assert(listings@.take(d + 1).drop_last() =~= listings@.take(d as int));
        let mut j: usize = 0;
        while j < names.len()
            invariant
                d < listings@.len(),
                *names == listings@[d as int],
                j <= names@.len(),
                start == custom_layouts(listings@.take(d as int)),
                custom.map() == add_listing(start, names@.take(j as int), d),
            decreases names@.len() - j,
        {
            assert(names@.take(j + 1).drop_last() =~= names@.take(j as int));
            let name = &names[j];
            if is_layout_file_name(name.as_str()) {
                custom.insert(name.clone(), d);
            }
            j = j + 1;
        }
        assert(names@.take(j as int) =~= names@);
        d = d + 1;
    }
    assert(listings@.take(d as int) =~= listings@);
    let ghost customs = custom.map();
    let count = custom.len();
    proof {
        custom.lemma_size();
    }
    let with_builtins = count == 0 || match config.include_builtins_with_custom {
        Some(b) => b,
        None => false,
    };
    proof {
        if count == 0 {
            assert(custom.keys().to_set() =~= Set::<Seq<char>>::empty());
        } else {
            custom.lemma_entry(0);
        }
        assert(with_builtins == includes_builtins(*config, customs));
    }
    let mut merged: Table<LayoutOrigin> = Table::new();
    if with_builtins {
        let builtin = names();
        let mut b: usize = 0;
        while b < builtin.len()
            invariant
                builtin@.map_values(|s: String| s@) == builtin_names(),
                b <= builtin@.len(),
                merged.map() == Map::new(
                    |n: Seq<char>| builtin_names().take(b as int).contains(n),
                    |n: Seq<char>| LayoutOrigin::Builtin,
                ),
            decreases builtin@.len() - b,
        {
            merged.insert(builtin[b].clone(), LayoutOrigin::Builtin);
            proof {
                let names_b1 = builtin_names().take(b + 1);
                assert(builtin@.map_values(|s: String| s@)[b as int] == builtin@[b as int]@);
                assert(names_b1 =~= builtin_names().take(b as int).push(builtin@[b as int]@));
                assert forall|n: Seq<char>| names_b1.contains(n) == (builtin_names().take(b as int).contains(n) || n == builtin@[b as int]@) by {
                    if names_b1.contains(n) {
                        let i = choose|i: int| 0 <= i < names_b1.len() && names_b1[i] == n;
                        if i < b {
                            assert(builtin_names().take(b as int)[i] == n);
                        }
                    }
                    if builtin_names().take(b as int).contains(n) {
                        let i = choose|i: int| 0 <= i < b && builtin_names().take(b as int)[i] == n;
                        assert(names_b1[i] == n);
                    }
                    if n == builtin@[b as int]@ {
                        assert(names_b1[b as int] == n);
                    }
                }
                assert(merged.map() =~= Map::new(
                    |n: Seq<char>| names_b1.contains(n),
                    |n: Seq<char>| LayoutOrigin::Builtin,
                ));
            }
            b = b + 1;
        }
        assert(builtin_names().take(b as int) =~= builtin_names());
    } else {
        assert(merged.map() =~= Map::<Seq<char>, LayoutOrigin>::empty());
    }
    let ghost base = merged.map();
    let mut k: usize = 0;
    while k < count
        invariant
            count == custom.entries().len(),
            strictly_sorted(custom.keys()),
            customs == custom.map(),
            k <= count,
            merged.map() == base.union_prefer_right(
                entries_map(custom.entries().take(k as int)).map_values(|d: usize| LayoutOrigin::Custom(d)),
            ),
        decreases count - k,
    {
        let entry = custom.entry(k);
        let ghost before = merged.map();
        merged.insert(entry.0.clone(), LayoutOrigin::Custom(entry.1));
        proof {
            let s = custom.entries();
            lemma_entries_map_extend(s, k as int);
            let f = |d: usize| LayoutOrigin::Custom(d);
            let small = entries_map(s.take(k as int));
            let large = entries_map(s.take(k + 1));
            assert(large.map_values(f) =~= small.map_values(f).insert(s[k as int].0@, f(s[k as int].1)));
            assert(merged.map() =~= base.union_prefer_right(large.map_values(f)));
        }
        k = k + 1;
    }
    proof {
        assert(custom.entries().take(k as int) =~= custom.entries());
        let f = |d: usize| LayoutOrigin::Custom(d);
        let builtin_map = Map::new(|n: Seq<char>| builtin_names().contains(n), |n: Seq<char>| LayoutOrigin::Builtin);
        if with_builtins {
            assert(base =~= builtin_map);
        }
        assert(merged.map() =~= discovered(*config, listings@));
    }
    let total = merged.len();
    proof {
        merged.lemma_size();
    }
    if total > MAX_LAYOUTS {
        return Err(DiscoveryError::TooManyLayouts);
    }
    Ok(merged.into_entries())
}

/// Adding a listing keeps finitely many names.
proof fn lemma_add_listing_finite(m: Map<Seq<char>, usize>, names: Seq<String>, d: usize)
    requires
        m.dom().finite(),
    ensures
        add_listing(m, names, d).dom().finite(),
    decreases names.len(),
{
    if names.len() > 0 {
        lemma_add_listing_finite(m, names.drop_last(), d);
    }
}

/// Some entry of the listing `names` is `n`.
pub open spec fn listed(names: Seq<String>, n: Seq<char>) -> bool {
    exists|j: int| 0 <= j < names.len() && #[trigger] names[j]@ == n
}

/// Adding a listing from directory `d` gives each layout name it lists that
/// directory and leaves the other names as they were.
proof fn lemma_add_listing(m: Map<Seq<char>, usize>, names: Seq<String>, d: usize, n: Seq<char>)
    ensures
        add_listing(m, names, d).contains_key(n) <==> (m.contains_key(n) || (is_layout_name(n)
            && listed(names, n))),
        is_layout_name(n) && listed(names, n) ==> add_listing(m, names, d)[n] == d,
        !(is_layout_name(n) && listed(names, n)) && m.contains_key(n) ==> add_listing(m, names, d)[n]
            == m[n],
    decreases names.len(),
{
    if names.len() > 0 {
        let front = names.drop_last();
        lemma_add_listing(m, front, d, n);
        if listed(front, n) {
            let j = choose|j: int| 0 <= j < front.len() && #[trigger] front[j]@ == n;
            assert(names[j]@ == n);
        }
        if listed(names, n) && names.last()@ != n {
            let j = choose|j: int| 0 <= j < names.len() && #[trigger] names[j]@ == n;
            assert(front[j]@ == n);
        }
        if names.last()@ == n {
            assert(names[names.len() - 1]@ == n);
        }
    }
}

/// Later directories take precedence: a name is a custom layout exactly when
/// some directory lists it, and it comes from the last directory that does.
pub proof fn lemma_custom_origin(listings: Seq<Vec<String>>, n: Seq<char>)
    requires
        listings.len() <= usize::MAX,
    ensures
        custom_layouts(listings).contains_key(n) <==> (is_layout_name(n) && exists|d: int|
            0 <= d < listings.len() && #[trigger] listed(listings[d]@, n)),
        custom_layouts(listings).contains_key(n) ==> ({
            let d = custom_layouts(listings)[n] as int;
            &&& 0 <= d < listings.len()
            &&& listed(listings[d]@, n)
            &&& forall|e: int| d < e < listings.len() ==> !#[trigger] listed(listings[e]@, n)
        }),
    decreases listings.len(),
{
    if listings.len() > 0 {
        let front = listings.drop_last();
        let last = (listings.len() - 1) as int;
        lemma_custom_origin(front, n);
        lemma_add_listing(custom_layouts(front), listings.last()@, last as usize, n);
        assert forall|d: int| 0 <= d < last implies front[d] == listings[d] by {}
        if exists|d: int| 0 <= d < listings.len() && #[trigger] listed(listings[d]@, n) {
            let d = choose|d: int| 0 <= d < listings.len() && #[trigger] listed(listings[d]@, n);
            if d < last {
                assert(listed(front[d]@, n));
            }
        }
        if exists|d: int| 0 <= d < front.len() && #[trigger] listed(front[d]@, n) {
            let d = choose|d: int| 0 <= d < front.len() && #[trigger] listed(front[d]@, n);
            assert(listed(listings[d]@, n));
        }
    }
}

/// What discovery keeps of each name: a custom layout with the directory it
/// comes from, or, when built-ins join and no custom file uses the name, the
/// built-in.
pub proof fn lemma_discovered_entry(config: ConfigFile, listings: Seq<Vec<String>>, n: Seq<char>)
    ensures
        custom_layouts(listings).contains_key(n) ==> discovered(config, listings).contains_key(n)
            && discovered(config, listings)[n] == LayoutOrigin::Custom(custom_layouts(listings)[n]),
        !custom_layouts(listings).contains_key(n) ==> (discovered(config, listings).contains_key(n)
            <==> (includes_builtins(config, custom_layouts(listings)) && builtin_names().contains(n))),
        !custom_layouts(listings).contains_key(n) && discovered(config, listings).contains_key(n)
            ==> discovered(config, listings)[n] == LayoutOrigin::Builtin,
{
}

/// There are finitely many custom layout names.
pub proof fn lemma_custom_finite(listings: Seq<Vec<String>>)
    ensures
        custom_layouts(listings).dom().finite(),
    decreases listings.len(),
{
    if listings.len() > 0 {
        lemma_custom_finite(listings.drop_last());
        lemma_add_listing_finite(
            custom_layouts(listings.drop_last()),
            listings.last()@,
            (listings.len() - 1) as usize,
        );
    }
}

/// The discovered names are the custom ones and, when built-ins join, the
/// built-in ones; their number is that of the custom names plus that of the
/// built-in names no custom file uses (when built-ins join). Discovery
/// refuses exactly when that number exceeds 64.
pub proof fn lemma_discovered_count(config: ConfigFile, listings: Seq<Vec<String>>)
    ensures
        ({
            let custom = custom_layouts(listings).dom();
            let builtins = if includes_builtins(config, custom_layouts(listings)) {
                builtin_names().to_set()
            } else {
                Set::<Seq<char>>::empty()
            };
            &&& discovered(config, listings).dom() == custom + builtins
            &&& discovered(config, listings).dom().len() == custom.len() + builtins.difference(
                custom,
            ).len()
        }),
{
    let custom = custom_layouts(listings).dom();
    let builtins = if includes_builtins(config, custom_layouts(listings)) {
        builtin_names().to_set()
    } else {
        Set::<Seq<char>>::empty()
    };
    lemma_custom_finite(listings);
    vstd::seq_lib::seq_to_set_is_finite(builtin_names());
    assert(discovered(config, listings).dom() =~= custom + builtins);
    assert(custom + builtins =~= custom + builtins.difference(custom));
    assert(custom.disjoint(builtins.difference(custom)));
    vstd::set_lib::lemma_set_disjoint_lens(custom, builtins.difference(custom));
}

} // verus!
