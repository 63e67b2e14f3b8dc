//! Discovery: which modules a source tree defines, and which modules its
//! files import from elsewhere.

use crate::json::{json_document, parse_json, Json};
use crate::names::{
    lemma_union_of_none, lemma_union_of_push, lemma_union_of_remove, lemma_union_of_same_sets,
    union_of, NameSet,
};
use crate::resolver::resolved_set;
use crate::pattern::{capture_first_groups, captured_text, first_group};
use crate::text::{
    copy_range, is_text, lines, split, split_on, text_lines, to_chars, to_text, views_of,
};
use vstd::prelude::*;
use vstd::string::*;

verus! {

/// One entry of a walked source tree, file or directory.
#[derive(Debug)]
pub struct SourceEntry {
    /// The path of the entry below the root of the tree. Its components are
    /// separated by `/` or by `\`.
    pub path: String,
    /// Whether the entry is a directory that holds the package marker file.
    pub is_package: bool,
    /// The text of the entry, where it is a file that could be read.
    pub content: Option<String>,
}

/// What a `SourceEntry` stands for.
pub struct EntryView {
    pub path: Seq<char>,
    pub is_package: bool,
    pub content: Option<Seq<char>>,
}

impl View for SourceEntry {
    type V = EntryView;

    open spec fn view(&self) -> EntryView {
        EntryView {
            path: self.path@,
            is_package: self.is_package,
            content: match self.content {
                Some(text) => Some(text@),
                None => None,
            },
        }
    }
}

/// Whether a directory of this name is left out of every scan: virtual
/// environments, caches and version control.
pub open spec fn excluded(name: Seq<char>) -> bool {
    ||| name == "venv"@
    ||| name == "__pycache__"@
    ||| name == "env"@
    ||| name == ".tox"@
    ||| name == ".git"@
}

/// Whether `c` separates the components of a path.
pub open spec fn is_separator(c: char) -> bool {
    c == '/' || c == '\\'
}

/// `path` with `/` for each of its separators.
pub open spec fn slashed(path: Seq<char>) -> Seq<char> {
    Seq::new(path.len(), |i: int| if is_separator(path[i]) { '/' } else { path[i] })
}

/// The components of `path`, from the root down.
pub open spec fn components(path: Seq<char>) -> Seq<Seq<char>> {
    split(slashed(path), seq!['/'])
}

/// Whether `path` is an excluded directory or lies below one, at any depth.
pub open spec fn pruned(path: Seq<char>) -> bool {
    exists|i: int| 0 <= i < components(path).len() && excluded(#[trigger] components(path)[i])
}

/// The index of the last separator of `path`, or -1.
pub open spec fn last_separator(path: Seq<char>) -> int
    decreases path.len(),
{
    if path.len() == 0 {
        -1
    } else if is_separator(path.last()) {
        path.len() - 1
    } else {
        last_separator(path.drop_last())
    }
}

/// The index of the last dot of `path`, or -1.
pub open spec fn last_dot(path: Seq<char>) -> int
    decreases path.len(),
{
    if path.len() == 0 {
        -1
    } else if path.last() == '.' {
        path.len() - 1
    } else {
        last_dot(path.drop_last())
    }
}

/// Whether the last component of `path` has an extension: a dot that is not
/// its first character.
pub open spec fn has_extension(path: Seq<char>) -> bool {
    last_dot(path) > last_separator(path) + 1
}

/// Whether `path` names a source file: its extension is `py`.
pub open spec fn source_file(path: Seq<char>) -> bool {
    has_extension(path) && path.skip(last_dot(path) + 1) == "py"@
}

/// `path` with a dot for each of its separators.
pub open spec fn dotted(path: Seq<char>) -> Seq<char> {
    Seq::new(path.len(), |i: int| if is_separator(path[i]) { '.' } else { path[i] })
}

/// The module name that `path` gives: the path without the extension of its
/// last component, with a dot for each separator.
pub open spec fn module_name(path: Seq<char>) -> Seq<char> {
    if has_extension(path) {
        dotted(path.take(last_dot(path)))
    } else {
        dotted(path)
    }
}

/// Whether `prefix` is `name` cut off before one of its dots.
pub open spec fn dotted_prefix(prefix: Seq<char>, name: Seq<char>) -> bool {
    &&& prefix.len() < name.len()
    &&& name[prefix.len() as int] == '.'
    &&& name.take(prefix.len() as int) == prefix
}

/// The names that a module brings into the namespace: its own and each of
/// its dotted prefixes.
pub open spec fn module_names(module: Seq<char>) -> Set<Seq<char>> {
    Set::new(|name: Seq<char>| name == module || dotted_prefix(name, module))
}

/// Whether `entry` defines a module: a source file, or a directory with the
/// package marker, outside the excluded directories.
pub open spec fn defines_module(entry: EntryView) -> bool {
    !pruned(entry.path) && (source_file(entry.path) || entry.is_package)
}

/// The names that `entry` brings into the namespace.
pub open spec fn entry_modules(entry: EntryView) -> Set<Seq<char>> {
    if defines_module(entry) {
        module_names(module_name(entry.path))
    } else {
        Set::empty()
    }
}

/// The local namespace of `tree`: the names that its entries bring in.
pub open spec fn local_namespace(tree: Seq<EntryView>) -> Set<Seq<char>> {
    union_of(tree.map_values(|entry: EntryView| entry_modules(entry)))
}

/// The local namespace is closed under prefixes: with a name it holds every
/// name that is cut off before one of its dots.
pub proof fn lemma_local_namespace_is_prefix_closed(
    tree: Seq<EntryView>,
    name: Seq<char>,
    prefix: Seq<char>,
)
    requires
        local_namespace(tree).contains(name),
        dotted_prefix(prefix, name),
    ensures
        local_namespace(tree).contains(prefix),
{
    let sets = tree.map_values(|entry: EntryView| entry_modules(entry));
    let i = choose|i: int| 0 <= i < sets.len() && #[trigger] sets[i].contains(name);
    let module = module_name(tree[i].path);
    assert(module.take(prefix.len() as int) =~= name.take(prefix.len() as int));
    assert(sets[i].contains(prefix));
}

/// Pruning: an entry that is an excluded directory, or lies below one, brings
/// no module into the namespace and no import into the import set. The tree
/// without it gives the same sets.
pub proof fn lemma_pruned_entry_is_ignored(tree: Seq<EntryView>, i: int, stdlib: Set<Seq<char>>)
    requires
        0 <= i < tree.len(),
        pruned(tree[i].path),
    ensures
        entry_modules(tree[i]) == Set::<Seq<char>>::empty(),
        entry_imports(tree[i]) == Set::<Seq<char>>::empty(),
        local_namespace(tree.remove(i)) == local_namespace(tree),
        raw_import_set(tree.remove(i)) == raw_import_set(tree),
        dependency_set(tree.remove(i), stdlib) == dependency_set(tree, stdlib),
{
    let modules = tree.map_values(|entry: EntryView| entry_modules(entry));
    let imports = tree.map_values(|entry: EntryView| entry_imports(entry));
    let rest = tree.remove(i);
    assert(rest.map_values(|entry: EntryView| entry_modules(entry)) =~= modules.remove(i));
    assert(rest.map_values(|entry: EntryView| entry_imports(entry)) =~= imports.remove(i));
    lemma_union_of_remove(modules, i);
    lemma_union_of_remove(imports, i);
}

/// Discovery can be repeated: two walks that find the same entries, in
/// whatever order, give the same local namespace, the same dependency set and
/// the same resolved package set.
pub proof fn lemma_discovery_is_repeatable(
    first: Seq<EntryView>,
    second: Seq<EntryView>,
    stdlib: Set<Seq<char>>,
    table: Map<Seq<char>, Seq<char>>,
)
    requires
        forall|entry: EntryView| first.contains(entry) <==> second.contains(entry),
    ensures
        local_namespace(first) == local_namespace(second),
        dependency_set(first, stdlib) == dependency_set(second, stdlib),
        resolved_set(dependency_set(first, stdlib), table) == resolved_set(
            dependency_set(second, stdlib),
            table,
        ),
{
    lemma_same_entries_same_sets(first, second, |entry: EntryView| entry_modules(entry));
    lemma_same_entries_same_sets(first, second, |entry: EntryView| entry_imports(entry));
}

proof fn lemma_same_entries_same_sets(
    first: Seq<EntryView>,
    second: Seq<EntryView>,
    f: spec_fn(EntryView) -> Set<Seq<char>>,
)
    requires
        forall|entry: EntryView| first.contains(entry) <==> second.contains(entry),
    ensures
        union_of(first.map_values(f)) == union_of(second.map_values(f)),
{
    let a = first.map_values(f);
    let b = second.map_values(f);
    assert forall|set: Set<Seq<char>>| a.contains(set) implies b.contains(set) by {
        let i = choose|i: int| 0 <= i < a.len() && a[i] == set;
        assert(first.contains(first[i]));
        let j = choose|j: int| 0 <= j < second.len() && second[j] == first[i];
        assert(b[j] == set);
    }
    assert forall|set: Set<Seq<char>>| b.contains(set) implies a.contains(set) by {
        let i = choose|i: int| 0 <= i < b.len() && b[i] == set;
        assert(second.contains(second[i]));
        let j = choose|j: int| 0 <= j < first.len() && first[j] == second[i];
        assert(a[j] == set);
    }
    lemma_union_of_same_sets(a, b);
}

fn excluded_chars(name: &Vec<char>) -> (r: bool)
    ensures
        r == excluded(name@),
{
    is_text(name, "venv") || is_text(name, "__pycache__") || is_text(name, "env") || is_text(
        name,
        ".tox",
    ) || is_text(name, ".git")
}

/// Whether a directory of this name is left out of every scan.
pub fn is_excluded(name: &str) -> (r: bool)
    ensures
        r == excluded(name@),
{
    let chars = to_chars(name);
    excluded_chars(&chars)
}

fn separator(c: char) -> (r: bool)
    ensures
        r == is_separator(c),
{
    c == '/' || c == '\\'
}

fn pruned_chars(path: &Vec<char>) -> (r: bool)
    ensures
        r == pruned(path@),
{
    let mut plain: Vec<char> = Vec::new();
    let mut i: usize = 0;
    while i < path.len()
        invariant
            i <= path.len(),
            plain@ == slashed(path@).take(i as int),
        decreases path.len() - i,
    {
        let c = path[i];
        plain.push(if separator(c) { '/' } else { c });
        i += 1;
    }
    assert(slashed(path@).take(path.len() as int) == slashed(path@));
    let mut slash: Vec<char> = Vec::new();
    slash.push('/');
    let parts = split_on(&plain, &slash);
    let mut k: usize = 0;
    while k < parts.len()
        invariant
            k <= parts.len(),
            views_of(parts@) == components(path@),
            forall|j: int| 0 <= j < k ==> !excluded(#[trigger] components(path@)[j]),
        decreases parts.len() - k,
    {
        assert(views_of(parts@)[k as int] == parts@[k as int]@);
        if excluded_chars(&parts[k]) {
            return true;
        }
        k += 1;
    }
    false
}

/// Whether `path` is an excluded directory or lies below one.
pub fn is_pruned(path: &str) -> (r: bool)
    ensures
        r == pruned(path@),
{
    let chars = to_chars(path);
    pruned_chars(&chars)
}

/// The index after the last separator of `path`.
fn name_start(path: &Vec<char>) -> (r: usize)
    ensures
        r == last_separator(path@) + 1,
        r <= path.len(),
{
    let mut i: usize = path.len();
    assert(path@.take(i as int) == path@);
    while i > 0
        invariant
            i <= path.len(),
            last_separator(path@) == last_separator(path@.take(i as int)),
        decreases i,
    {
        if separator(path[i - 1]) {
            return i;
        }
        assert(path@.take(i as int).drop_last() == path@.take(i - 1));
        i -= 1;
    }
    0
}

/// The index after the last dot of `path`.
fn after_last_dot(path: &Vec<char>) -> (r: usize)
    ensures
        r == last_dot(path@) + 1,
        r <= path.len(),
{
    let mut i: usize = path.len();
    assert(path@.take(i as int) == path@);
    while i > 0
        invariant
            i <= path.len(),
            last_dot(path@) == last_dot(path@.take(i as int)),
        decreases i,
    {
        if path[i - 1] == '.' {
            return i;
        }
        assert(path@.take(i as int).drop_last() == path@.take(i - 1));
        i -= 1;
    }
    0
}

fn source_file_chars(path: &Vec<char>) -> (r: bool)
    ensures
        r == source_file(path@),
{
    let dot = after_last_dot(path);
    let start = name_start(path);
    if dot <= start || dot - start < 2 {
        return false;
    }
    let extension = copy_range(path, dot, path.len());
    is_text(&extension, "py")
}

/// Whether `path` names a source file.
pub fn is_source_file(path: &str) -> (r: bool)
    ensures
        r == source_file(path@),
{
    let chars = to_chars(path);
    source_file_chars(&chars)
}

fn module_name_chars(path: &Vec<char>) -> (name: Vec<char>)
    ensures
        name@ == module_name(path@),
{
    let dot = after_last_dot(path);
    let start = name_start(path);
    let end: usize = if dot > start && dot - start >= 2 { dot - 1 } else { path.len() };
    let ghost kept = path@.take(end as int);
    let mut name: Vec<char> = Vec::new();
    let mut i: usize = 0;
    while i < end
        invariant
            i <= end <= path.len(),
            kept == path@.take(end as int),
            name@ == dotted(kept).take(i as int),
        decreases end - i,
    {
        let c = path[i];
        name.push(if separator(c) { '.' } else { c });
        i += 1;
    }
    name
}

/// Puts the names of `module` into `names`: the module and its dotted prefixes.
fn register_module(names: &mut NameSet, module: &Vec<char>)
    ensures
        final(names)@ == old(names)@.union(module_names(module@)),
{
    let mut i: usize = 0;
    while i < module.len()
        invariant
            i <= module.len(),
            names@ == old(names)@.union(
                Set::new(|n: Seq<char>| dotted_prefix(n, module@) && n.len() < i),
            ),
        decreases module.len() - i,
    {
        if module[i] == '.' {
            names.insert(to_text(module, 0, i));
        }
        i += 1;
    }
    names.insert(to_text(module, 0, module.len()));
    assert(module@.subrange(0, module.len() as int) == module@);
}

/// The local namespace of a tree: the names of the modules that its entries
/// define, closed under dotted prefixes.
pub fn find_local_modules(entries: &Vec<SourceEntry>) -> (local: NameSet)
    ensures
        local@ == local_namespace(views_of(entries@)),
        forall|name: Seq<char>, prefix: Seq<char>|
            local@.contains(name) && dotted_prefix(prefix, name) ==> local@.contains(prefix),
{
    let ghost tree = views_of(entries@);
    proof {
        assert forall|name: Seq<char>, prefix: Seq<char>|
            local_namespace(tree).contains(name) && dotted_prefix(
                prefix,
                name,
            ) implies local_namespace(tree).contains(prefix) by {
            lemma_local_namespace_is_prefix_closed(tree, name, prefix);
        }
    }
    let ghost sets = tree.map_values(|entry: EntryView| entry_modules(entry));
    let mut local = NameSet::new();
    let mut i: usize = 0;
    proof {
        lemma_union_of_none();
    }
    while i < entries.len()
        invariant
            i <= entries.len(),
            tree == views_of(entries@),
            sets == tree.map_values(|entry: EntryView| entry_modules(entry)),
            local@ == union_of(sets.take(i as int)),
        decreases entries.len() - i,
    {
        let entry = &entries[i];
        proof {
            assert(sets.take(i + 1) == sets.take(i as int).push(entry_modules(entry@)));
            lemma_union_of_push(sets.take(i as int), entry_modules(entry@));
        }
        let path = to_chars(entry.path.as_str());
        if !pruned_chars(&path) && (entry.is_package || source_file_chars(&path)) {
            let module = module_name_chars(&path);
            register_module(&mut local, &module);
        }
        i += 1;
    }
    assert(sets.take(entries.len() as int) == sets);
    local
}

/// A line that imports a module: `import`, indented or not, and a dotted name.
pub const IMPORT_PATTERN: &'static str = "^\\s*import\\s+([\\w\\.]+)";

/// A line that imports from a module: `from`, a dotted name and `import`.
pub const FROM_PATTERN: &'static str = "^from\\s+([\\w\\.]+)\\s+import";

/// The module that `captured` names, as a set.
pub open spec fn captured_name(captured: Option<Seq<char>>) -> Set<Seq<char>> {
    match captured {
        Some(name) => set![name],
        None => Set::empty(),
    }
}

/// The modules that `line` imports: what the two patterns capture in it.
pub open spec fn line_imports(line: Seq<char>) -> Set<Seq<char>> {
    captured_name(first_group(IMPORT_PATTERN@, line)).union(
        captured_name(first_group(FROM_PATTERN@, line)),
    )
}

/// The modules that the lines of `content` import, each line taken alone.
pub open spec fn raw_imports(content: Seq<char>) -> Set<Seq<char>> {
    union_of(lines(content).map_values(|line: Seq<char>| line_imports(line)))
}

/// The imports of `content` that are neither local nor of the standard
/// library.
pub open spec fn imports_of(
    content: Seq<char>,
    local: Set<Seq<char>>,
    stdlib: Set<Seq<char>>,
) -> Set<Seq<char>> {
    raw_imports(content).difference(local.union(stdlib))
}

/// Takes what a pattern captured in a line into `imports`, unless the name is
/// local or of the standard library.
pub fn record_import(
    imports: &mut NameSet,
    captured: &Option<String>,
    local: &NameSet,
    stdlib: &NameSet,
)
    ensures
        final(imports)@ == old(imports)@.union(
            captured_name(captured_text(*captured)).difference(local@.union(stdlib@)),
        ),
{
    if let Some(name) = captured {
        if !local.contains(name.as_str()) && !stdlib.contains(name.as_str()) {
            imports.insert(name.clone());
        }
    }
}

/// The modules that the text of one source file imports, without those that
/// are local or of the standard library.
pub fn extract_imports(content: &str, local: &NameSet, stdlib: &NameSet) -> (imports: NameSet)
    ensures
        imports@ == imports_of(content@, local@, stdlib@),
{
    let found = text_lines(content);
    let imported = capture_first_groups(IMPORT_PATTERN, &found);
    let imported_from = capture_first_groups(FROM_PATTERN, &found);
    let ghost known = local@.union(stdlib@);
    let ghost sets = lines(content@).map_values(|line: Seq<char>| line_imports(line));
    let mut imports = NameSet::new();
    let mut i: usize = 0;
    proof {
        lemma_union_of_none();
    }
    while i < found.len()
        invariant
            i <= found.len(),
            imported.len() == found.len(),
            imported_from.len() == found.len(),
            views_of(found@) == lines(content@),
            forall|k: int|
                0 <= k < found@.len() ==> captured_text(#[trigger] imported@[k]) == first_group(
                    IMPORT_PATTERN@,
                    found@[k]@,
                ),
            forall|k: int|
                0 <= k < found@.len() ==> captured_text(#[trigger] imported_from@[k])
                    == first_group(FROM_PATTERN@, found@[k]@),
            known == local@.union(stdlib@),
            sets == lines(content@).map_values(|line: Seq<char>| line_imports(line)),
            imports@ == union_of(sets.take(i as int)).difference(known),
        decreases found.len() - i,
    {
        let ghost line = found@[i as int]@;
        proof {
            assert(sets.take(i + 1) == sets.take(i as int).push(line_imports(line)));
            lemma_union_of_push(sets.take(i as int), line_imports(line));
        }
        record_import(&mut imports, &imported[i], local, stdlib);
        record_import(&mut imports, &imported_from[i], local, stdlib);
        i += 1;
    }
    assert(sets.take(found.len() as int) == sets);
    imports
}

/// Whether the text of `entry` is scanned for imports: a source file outside
/// the excluded directories whose text could be read.
pub open spec fn scanned(entry: EntryView) -> bool {
    !pruned(entry.path) && source_file(entry.path) && entry.content is Some
}

/// The modules that `entry` imports.
pub open spec fn entry_imports(entry: EntryView) -> Set<Seq<char>> {
    if scanned(entry) {
        raw_imports(entry.content->0)
    } else {
        Set::empty()
    }
}

/// The raw import set of `tree`: every module that one of its files imports.
pub open spec fn raw_import_set(tree: Seq<EntryView>) -> Set<Seq<char>> {
    union_of(tree.map_values(|entry: EntryView| entry_imports(entry)))
}

/// The dependency set of `tree`: its raw import set without the local
/// namespace and without the names of the standard library.
pub open spec fn dependency_set(tree: Seq<EntryView>, stdlib: Set<Seq<char>>) -> Set<Seq<char>> {
    raw_import_set(tree).difference(local_namespace(tree).union(stdlib))
}

/// The dependency set of a tree: the modules that its source files import and
/// that neither the tree itself nor the standard library defines.
pub fn find_python_imports(entries: &Vec<SourceEntry>, stdlib: &NameSet) -> (imports: NameSet)
    ensures
        imports@ == dependency_set(views_of(entries@), stdlib@),
{
    let local = find_local_modules(entries);
    let ghost tree = views_of(entries@);
    let ghost known = local@.union(stdlib@);
    let ghost sets = tree.map_values(|entry: EntryView| entry_imports(entry));
    let mut imports = NameSet::new();
    let mut i: usize = 0;
    proof {
        lemma_union_of_none();
    }
    while i < entries.len()
        invariant
            i <= entries.len(),
            tree == views_of(entries@),
            known == local@.union(stdlib@),
            sets == tree.map_values(|entry: EntryView| entry_imports(entry)),
            imports@ == union_of(sets.take(i as int)).difference(known),
        decreases entries.len() - i,
    {
        let entry = &entries[i];
        proof {
            assert(sets.take(i + 1) == sets.take(i as int).push(entry_imports(entry@)));
            lemma_union_of_push(sets.take(i as int), entry_imports(entry@));
        }
        let path = to_chars(entry.path.as_str());
        if !pruned_chars(&path) && source_file_chars(&path) {
            if let Some(content) = &entry.content {
                let found = extract_imports(content.as_str(), &local, stdlib);
                imports.extend(&found);
            }
        }
        i += 1;
    }
    assert(sets.take(entries.len() as int) == sets);
    imports
}

/// The interpreter that is asked for the names of the standard library.
pub const INTERPRETER: &'static str = "python";

/// The program that makes the interpreter print those names as a JSON array
/// of strings.
pub const STDLIB_PROGRAM: &'static str =
    "import sys, json; print(json.dumps(list(sys.stdlib_module_names)))";

/// The names of the standard library, as far as they could be had.
#[derive(Debug)]
pub struct StdlibNames {
    pub names: NameSet,
    /// Whether the names could not be had, so that `names` is empty and
    /// modules of the standard library will be taken for dependencies.
    pub degraded: bool,
}

/// The name that one item of the interpreter's list gives: a string gives
/// itself, anything else gives nothing.
pub open spec fn item_name(item: Json) -> Set<Seq<char>> {
    match item {
        Json::Text(name) => set![name@],
        _ => Set::empty(),
    }
}

/// Whether `doc` is a list, as the interpreter prints one.
pub open spec fn is_listing(doc: Option<Json>) -> bool {
    doc matches Some(Json::List(_))
}

/// The names that `doc` lists: the strings among its items, where it is a
/// list, and none where it is not.
pub open spec fn listed_names(doc: Option<Json>) -> Set<Seq<char>> {
    match doc {
        Some(Json::List(items)) => union_of(items@.map_values(|item: Json| item_name(item))),
        _ => Set::empty(),
    }
}

/// The standard library that the parsed output of the interpreter names.
/// Anything but a list degrades to the empty set.
pub fn stdlib_from_document(doc: &Option<Json>) -> (stdlib: StdlibNames)
    ensures
        stdlib.names@ == listed_names(*doc),
        stdlib.degraded == !is_listing(*doc),
{
    let mut names = NameSet::new();
    match doc {
        Some(Json::List(items)) => {
            let ghost sets = items@.map_values(|item: Json| item_name(item));
            let mut i: usize = 0;
            proof {
                lemma_union_of_none();
            }
            while i < items.len()
                invariant
                    i <= items.len(),
                    sets == items@.map_values(|item: Json| item_name(item)),
                    names@ == union_of(sets.take(i as int)),
                decreases items.len() - i,
            {
                proof {
                    assert(sets.take(i + 1) == sets.take(i as int).push(
                        item_name(items@[i as int]),
                    ));
                    lemma_union_of_push(sets.take(i as int), item_name(items@[i as int]));
                }
                if let Json::Text(name) = &items[i] {
                    names.insert(name.clone());
                }
                i += 1;
            }
            assert(sets.take(items.len() as int) == sets);
            StdlibNames { names, degraded: false }
        },
        _ => StdlibNames { names, degraded: true },
    }
}

/// The standard library, from what the interpreter printed: `None` where it
/// could not be run, failed, or printed something that is no text.
pub fn get_stdlib_modules(output: Option<&str>) -> (stdlib: StdlibNames)
    ensures
        stdlib.names@ == match output {
            Some(text) => listed_names(json_document(text@)),
            None => Set::empty(),
        },
        stdlib.degraded == match output {
            Some(text) => !is_listing(json_document(text@)),
            None => true,
        },
{
    match output {
        Some(text) => {
            let doc = parse_json(text);
            stdlib_from_document(&doc)
        },
        None => StdlibNames { names: NameSet::new(), degraded: true },
    }
}

} // verus!
