//! Resolution: from the names that are imported to the names of the packages
//! that provide them.

use crate::names::{lemma_to_set_push, NameSet};
use crate::text::{
    lines, pair_views, split, split_lines, split_on, to_chars, to_text, trim, trim_chars, views_of,
};
use vstd::prelude::*;
use vstd::string::*;

verus! {

/// The table that the pairs of `pairs` make, a later pair replacing an
/// earlier one of the same key.
pub open spec fn pairs_table(pairs: Seq<(Seq<char>, Seq<char>)>) -> Map<Seq<char>, Seq<char>>
    decreases pairs.len(),
{
    if pairs.len() == 0 {
        Map::empty()
    } else {
        pairs_table(pairs.drop_last()).insert(pairs.last().0, pairs.last().1)
    }
}

/// The pair that one line of the mapping resource holds: what stands before
/// and after its colon, both trimmed. A line without a colon, or with more
/// than one, holds none.
pub open spec fn mapping_pair(line: Seq<char>) -> Option<(Seq<char>, Seq<char>)> {
    let parts = split(line, ":"@);
    if parts.len() == 2 {
        Some((trim(parts[0]), trim(parts[1])))
    } else {
        None
    }
}

/// The pairs that `lines` hold, in their order.
pub open spec fn mapping_pairs(lines: Seq<Seq<char>>) -> Seq<(Seq<char>, Seq<char>)>
    decreases lines.len(),
{
    if lines.len() == 0 {
        Seq::empty()
    } else {
        match mapping_pair(lines.last()) {
            Some(pair) => mapping_pairs(lines.drop_last()).push(pair),
            None => mapping_pairs(lines.drop_last()),
        }
    }
}

/// The mapping table that the text of the mapping resource holds.
pub open spec fn mapping_table(text: Seq<char>) -> Map<Seq<char>, Seq<char>> {
    pairs_table(mapping_pairs(lines(text)))
}

/// The package that provides the module `name`: what the table gives for it,
/// or `name` itself where the table has no entry.
pub open spec fn resolve(table: Map<Seq<char>, Seq<char>>, name: Seq<char>) -> Seq<char> {
    if table.contains_key(name) {
        table[name]
    } else {
        name
    }
}

/// `resolve` for one table, as a function of the name.
pub open spec fn resolver(table: Map<Seq<char>, Seq<char>>) -> spec_fn(Seq<char>) -> Seq<char> {
    |name: Seq<char>| resolve(table, name)
}

/// The packages that provide the modules of `names`.
pub open spec fn resolved_set(names: Set<Seq<char>>, table: Map<Seq<char>, Seq<char>>) -> Set<
    Seq<char>,
> {
    names.map(resolver(table))
}

/// A mapping table: from the name of a module to the name of the package that
/// provides it.
#[derive(Debug)]
pub struct MappingTable {
    pairs: Vec<(String, String)>,
}

impl View for MappingTable {
    type V = Map<Seq<char>, Seq<char>>;

    closed spec fn view(&self) -> Map<Seq<char>, Seq<char>> {
        pairs_table(pair_views(self.pairs@))
    }
}

impl MappingTable {
    /// The table without entries.
    pub fn new() -> (table: Self)
        ensures
            table@ == Map::<Seq<char>, Seq<char>>::empty(),
    {
        MappingTable { pairs: Vec::new() }
    }

    /// Sets the entry of `key` to `value`.
    pub fn insert(&mut self, key: String, value: String)
        ensures
            final(self)@ == old(self)@.insert(key@, value@),
    {
        let ghost before = pair_views(self.pairs@);
        self.pairs.push((key, value));
        assert(pair_views(self.pairs@).drop_last() == before);
    }

    /// The entry of `name`.
    pub fn get(&self, name: &str) -> (found: Option<&String>)
        ensures
            match found {
                Some(value) => self@.contains_key(name@) && self@[name@] == value@,
                None => !self@.contains_key(name@),
            },
    {
        let wanted = name.to_owned();
        let ghost all = pair_views(self.pairs@);
        let mut i: usize = self.pairs.len();
        assert(all.take(i as int) == all);
        while i > 0
            invariant
                i <= self.pairs.len(),
                wanted@ == name@,
                all == pair_views(self.pairs@),
                self@.contains_key(name@) == pairs_table(all.take(i as int)).contains_key(name@),
                self@.contains_key(name@) ==> self@[name@] == pairs_table(
                    all.take(i as int),
                )[name@],
            decreases i,
        {
            assert(all.take(i as int).drop_last() == all.take(i - 1));
            if self.pairs[i - 1].0 == wanted {
                return Some(&self.pairs[i - 1].1);
            }
            i -= 1;
        }
        None
    }
}

/// The pair that one line of the mapping resource holds.
pub fn parse_mapping_line(line: &Vec<char>) -> (pair: Option<(String, String)>)
    ensures
        match pair {
            Some((key, value)) => mapping_pair(line@) == Some((key@, value@)),
            None => mapping_pair(line@) is None,
        },
{
    let colon = to_chars(":");
    let parts = split_on(line, &colon);
    if parts.len() != 2 {
        return None;
    }
    let key = trim_chars(&parts[0]);
    let value = trim_chars(&parts[1]);
    let k = to_text(&key, 0, key.len());
    let v = to_text(&value, 0, value.len());
    Some((k, v))
}

/// The mapping table that the text of the mapping resource holds: one entry
/// for each line of the form `key: value`. Other lines are passed over.
pub fn load_mapping(text: &str) -> (table: MappingTable)
    ensures
        table@ == mapping_table(text@),
{
    let chars = to_chars(text);
    let found = split_lines(&chars);
    let mut table = MappingTable::new();
    let mut i: usize = 0;
    while i < found.len()
        invariant
            i <= found.len(),
            views_of(found@) == lines(text@),
            table@ == pairs_table(mapping_pairs(lines(text@).take(i as int))),
        decreases found.len() - i,
    {
        proof {
            assert(lines(text@).take(i + 1).drop_last() == lines(text@).take(i as int));
        }
        match parse_mapping_line(&found[i]) {
            Some((key, value)) => {
                let ghost pairs = mapping_pairs(lines(text@).take(i as int));
                assert(pairs.push((key@, value@)).drop_last() == pairs);
                table.insert(key, value);
            },
            None => {},
        }
        i += 1;
    }
    assert(lines(text@).take(found.len() as int) == lines(text@));
    table
}

/// The packages that provide the modules of `names`, by `table`. A module
/// without an entry is taken for a package of its own name.
pub fn resolve_names(names: &NameSet, table: &MappingTable) -> (packages: NameSet)
    ensures
        packages@ == resolved_set(names@, table@),
        packages@.len() <= names@.len(),
{
    let all = names.names();
    let ghost texts = views_of(all@);
    let ghost f = resolver(table@);
    let mut packages = NameSet::new();
    let mut i: usize = 0;
    while i < all.len()
        invariant
            i <= all.len(),
            texts == views_of(all@),
            f == resolver(table@),
            packages@ == texts.take(i as int).to_set().map(f),
        decreases all.len() - i,
    {
        let name = &all[i];
        proof {
            assert(texts.take(i + 1) == texts.take(i as int).push(name@));
            lemma_to_set_push(texts.take(i as int), name@);
            texts.take(i as int).to_set().lemma_set_map_insert_commute(name@, f);
        }
        match table.get(name.as_str()) {
            Some(package) => {
                packages.insert(package.clone());
            },
            None => {
                packages.insert(name.clone());
            },
        }
        i += 1;
    }
    proof {
        assert(texts.take(all.len() as int) == texts);
        vstd::set_lib::lemma_map_size_bound(names@, packages@, f);
    }
    packages
}

/// Why the names could not be resolved.
#[derive(Debug)]
pub enum ResolveError {
    /// The mapping resource could not be read.
    MappingUnreadable,
}

/// The resolved package set of `pkgs`. `mapping` is the text of the mapping
/// resource, `None` where it could not be read: only then the resolution
/// fails, and then as a whole.
pub fn get_pkg_names(pkgs: &NameSet, mapping: Option<&str>) -> (resolved: Result<
    NameSet,
    ResolveError,
>)
    ensures
        match mapping {
            Some(text) => resolved matches Ok(packages) && packages@ == resolved_set(
                pkgs@,
                mapping_table(text@),
            ) && packages@.len() <= pkgs@.len(),
            None => resolved is Err,
        },
{
    match mapping {
        Some(text) => {
            let table = load_mapping(text);
            Ok(resolve_names(pkgs, &table))
        },
        None => Err(ResolveError::MappingUnreadable),
    }
}

/// Resolution gives each name exactly one package, the one that the table
/// maps it to or else the name itself, and so never more packages than names.
pub proof fn lemma_resolution_is_total(names: Set<Seq<char>>, table: Map<Seq<char>, Seq<char>>)
    requires
        names.finite(),
    ensures
        forall|name: Seq<char>|
            names.contains(name) ==> resolved_set(names, table).contains(
                #[trigger] resolve(table, name),
            ),
        forall|package: Seq<char>| #[trigger]
            resolved_set(names, table).contains(package) ==> exists|name: Seq<char>|
                names.contains(name) && package == resolve(table, name),
        forall|name: Seq<char>| #[trigger]
            resolve(table, name) == name || (table.contains_key(name) && resolve(table, name)
                == table[name]),
        resolved_set(names, table).finite(),
        resolved_set(names, table).len() <= names.len(),
{
    let f = resolver(table);
    let packages = resolved_set(names, table);
    assert forall|name: Seq<char>| names.contains(name) implies packages.contains(
        #[trigger] resolve(table, name),
    ) by {
        assert(resolve(table, name) == f(name));
    }
    assert forall|package: Seq<char>| #[trigger] packages.contains(package) implies exists|
        name: Seq<char>,
    | names.contains(name) && package == resolve(table, name) by {
        let name = choose|name: Seq<char>| names.contains(name) && package == f(name);
        assert(package == resolve(table, name));
    }
    vstd::set_lib::lemma_map_size_bound(names, packages, f);
}

} // verus!
