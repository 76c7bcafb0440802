//! A registry of tools by name, from which an agent's tool list is resolved.
use vstd::prelude::*;
use crate::tools::{ToolKind, builtin_tools};
use crate::strs::{str_eq, to_owned_string};

verus! {

broadcast use vstd::string::group_string_axioms;

/// The tool registered under `name` in `entries`.
pub open spec fn registered(entries: Seq<(Seq<char>, ToolKind)>, name: Seq<char>) -> Option<ToolKind>
    decreases entries.len(),
{
    if entries.len() == 0 {
        None
    } else if entries.last().0 == name {
        Some(entries.last().1)
    } else {
        registered(entries.drop_last(), name)
    }
}

/// No name is registered twice.
pub open spec fn names_distinct(entries: Seq<(Seq<char>, ToolKind)>) -> bool {
    forall|i: int, j: int| 0 <= i < j < entries.len() ==> (#[trigger] entries[i]).0 != (#[trigger] entries[j]).0
}

/// The tools that `names` resolve to, in order, skipping unknown names.
pub open spec fn resolved(entries: Seq<(Seq<char>, ToolKind)>, names: Seq<Seq<char>>) -> Seq<ToolKind>
    decreases names.len(),
{
    if names.len() == 0 {
        seq![]
    } else {
        let rest = resolved(entries, names.drop_last());
        match registered(entries, names.last()) {
            Some(k) => rest.push(k),
            None => rest,
        }
    }
}

/// The entries after registering `kind` under `name`: a new name is added at
/// the end, a known one is given the new tool in place.
pub open spec fn with_registration(entries: Seq<(Seq<char>, ToolKind)>, name: Seq<char>, kind: ToolKind) -> Seq<(Seq<char>, ToolKind)> {
    match index_of_name(entries, name) {
        Some(i) => entries.update(i as int, (name, kind)),
        None => entries.push((name, kind)),
    }
}

/// The position of `name` in `entries`.
pub open spec fn index_of_name(entries: Seq<(Seq<char>, ToolKind)>, name: Seq<char>) -> Option<nat>
    decreases entries.len(),
{
    if entries.len() == 0 {
        None
    } else if entries.last().0 == name {
        Some((entries.len() - 1) as nat)
    } else {
        index_of_name(entries.drop_last(), name)
    }
}


/// Tools by name.
pub struct ToolRegistry {
    entries: Vec<(String, ToolKind)>,
}

impl View for ToolRegistry {
    type V = Seq<(Seq<char>, ToolKind)>;

    closed spec fn view(&self) -> Seq<(Seq<char>, ToolKind)> {
        self.entries@.map_values(|e: (String, ToolKind)| (e.0@, e.1))
    }
}

proof fn lemma_index_of_name(entries: Seq<(Seq<char>, ToolKind)>, name: Seq<char>)
    ensures
        match index_of_name(entries, name) {
            Some(i) => i < entries.len() && entries[i as int].0 == name
                && forall|j: int| i < j < entries.len() ==> entries[j].0 != name,
            None => forall|j: int| 0 <= j < entries.len() ==> entries[j].0 != name,
        },
    decreases entries.len(),
{
    if entries.len() > 0 && entries.last().0 != name {
        let d = entries.drop_last();
        lemma_index_of_name(d, name);
        assert forall|j: int| 0 <= j < d.len() implies d[j] == entries[j] by {}
    }
}

/// Two lists that hold `k` at the same positions with the same tools find the
/// same tool under `k`.
proof fn lemma_registered_agree(a: Seq<(Seq<char>, ToolKind)>, b: Seq<(Seq<char>, ToolKind)>, k: Seq<char>)
    requires
        a.len() == b.len(),
        forall|j: int| 0 <= j < a.len() ==> ((#[trigger] a[j]).0 == k <==> b[j].0 == k),
        forall|j: int| 0 <= j < a.len() && (#[trigger] a[j]).0 == k ==> a[j] == b[j],
    ensures
        registered(a, k) == registered(b, k),
    decreases a.len(),
{
    if a.len() > 0 {
        let (da, db) = (a.drop_last(), b.drop_last());
        assert forall|j: int| 0 <= j < da.len() implies ((#[trigger] da[j]).0 == k <==> db[j].0 == k) by {
            assert(da[j] == a[j] && db[j] == b[j]);
        }
        assert forall|j: int| 0 <= j < da.len() && (#[trigger] da[j]).0 == k implies da[j] == db[j] by {
            assert(da[j] == a[j] && db[j] == b[j]);
        }
        lemma_registered_agree(da, db, k);
        assert(a.last() == a[a.len() - 1]);
    }
}

/// The tool registered under a name held at position `i` and nowhere after.
proof fn lemma_registered_at(entries: Seq<(Seq<char>, ToolKind)>, k: Seq<char>, i: int)
    requires
        0 <= i < entries.len(),
        entries[i].0 == k,
        forall|j: int| i < j < entries.len() ==> entries[j].0 != k,
    ensures
        registered(entries, k) == Some(entries[i].1),
    decreases entries.len(),
{
    if i < entries.len() - 1 {
        let d = entries.drop_last();
        assert(d[i] == entries[i]);
        assert forall|j: int| i < j < d.len() implies d[j].0 != k by {
            assert(d[j] == entries[j]);
        }
        lemma_registered_at(d, k, i);
    }
}

/// Registering a tool makes its name find it and leaves every other name as it was.
pub proof fn law_register_then_lookup(entries: Seq<(Seq<char>, ToolKind)>, name: Seq<char>, kind: ToolKind, other: Seq<char>)
    requires
        names_distinct(entries),
    ensures
        registered(with_registration(entries, name, kind), name) == Some(kind),
        other != name ==> registered(with_registration(entries, name, kind), other) == registered(entries, other),
        names_distinct(with_registration(entries, name, kind)),
{
    lemma_index_of_name(entries, name);
    let r = with_registration(entries, name, kind);
    match index_of_name(entries, name) {
        Some(i) => {
            let i = i as int;
            assert forall|a: int, b: int| 0 <= a < b < r.len() implies (#[trigger] r[a]).0 != (#[trigger] r[b]).0 by {
                if a != i && b != i {
                    assert(r[a] == entries[a] && r[b] == entries[b]);
                } else if a == i {
                    assert(r[b] == entries[b]);
                } else {
                    assert(r[a] == entries[a]);
                }
            }
            assert forall|j: int| i < j < r.len() implies r[j].0 != name by {
                assert(r[j] == entries[j]);
            }
            lemma_registered_at(r, name, i);
            if other != name {
                assert forall|j: int| 0 <= j < r.len() implies ((#[trigger] r[j]).0 == other <==> entries[j].0 == other) by {
                    if j != i {
                        assert(r[j] == entries[j]);
                    }
                }
                assert forall|j: int| 0 <= j < r.len() && (#[trigger] r[j]).0 == other implies r[j] == entries[j] by {}
                lemma_registered_agree(r, entries, other);
            }
        },
        None => {
            assert forall|a: int, b: int| 0 <= a < b < r.len() implies (#[trigger] r[a]).0 != (#[trigger] r[b]).0 by {
                if b < entries.len() {
                    assert(r[a] == entries[a] && r[b] == entries[b]);
                } else {
                    assert(r[a] == entries[a]);
                }
            }
            assert(r.drop_last() =~= entries);
        },
    }
}

impl ToolRegistry {
    #[verifier::type_invariant]
    spec fn distinct(self) -> bool {
        names_distinct(self@)
    }

    /// An empty registry.
    pub fn new() -> (r: ToolRegistry)
        ensures
            r@ == Seq::<(Seq<char>, ToolKind)>::empty(),
    {
        let r = ToolRegistry { entries: Vec::new() };
        assert(r@ =~= Seq::<(Seq<char>, ToolKind)>::empty());
        r
    }

    /// Registers `kind` under `name`, replacing what was registered under it.
    pub fn register(&mut self, name: &str, kind: ToolKind)
        ensures
            final(self)@ == with_registration(old(self)@, name@, kind),
    {
        proof {
            use_type_invariant(&*self);
        }
        let ghost e0 = self@;
        let mut entries: Vec<(String, ToolKind)> = Vec::new();
        std::mem::swap(&mut entries, &mut self.entries);
        assert(entries@.map_values(|e: (String, ToolKind)| (e.0@, e.1)) == e0);
        let mut i = entries.len();
        let mut found = false;
        assert(e0.take(i as int) =~= e0);
        while i > 0
            invariant_except_break
                !found,
                index_of_name(e0, name@) == index_of_name(e0.take(i as int), name@),
            invariant
                i <= entries.len(),
                e0 == entries@.map_values(|e: (String, ToolKind)| (e.0@, e.1)),
            ensures
                found ==> i < entries.len() && index_of_name(e0, name@) == Some(i as nat),
                !found ==> index_of_name(e0, name@) is None,
            decreases i,
        {
            assert(e0.take(i as int).last() == e0[i - 1]);
            assert(e0.take(i as int).drop_last() =~= e0.take(i - 1));
            if str_eq(entries[i - 1].0.as_str(), name) {
                i = i - 1;
                found = true;
                break;
            }
            i = i - 1;
        }
        proof {
            lemma_index_of_name(e0, name@);
            law_register_then_lookup(e0, name@, kind, name@);
        }
        if found {
            entries.remove(i);
            entries.insert(i, (to_owned_string(name), kind));
            assert(entries@.map_values(|e: (String, ToolKind)| (e.0@, e.1)) =~= e0.update(i as int, (name@, kind)));
        } else {
            entries.push((to_owned_string(name), kind));
            assert(entries@.map_values(|e: (String, ToolKind)| (e.0@, e.1)) =~= e0.push((name@, kind)));
        }
        self.entries = entries;
    }

    /// Registers the six built-in tools under their names.
    pub fn with_defaults(self) -> (r: ToolRegistry)
        ensures
            r@ == with_registration(with_registration(with_registration(with_registration(with_registration(
                with_registration(self@, "bash"@, ToolKind::Bash), "read_file"@, ToolKind::ReadFile),
                "write_file"@, ToolKind::WriteFile), "edit_file"@, ToolKind::EditFile), "list_files"@, ToolKind::ListFiles),
                "search"@, ToolKind::Search),
    {
        let mut r = self;
        r.register("bash", ToolKind::Bash);
        r.register("read_file", ToolKind::ReadFile);
        r.register("write_file", ToolKind::WriteFile);
        r.register("edit_file", ToolKind::EditFile);
        r.register("list_files", ToolKind::ListFiles);
        r.register("search", ToolKind::Search);
        r
    }

    /// The tool registered under `name`.
    pub fn lookup(&self, name: &str) -> (r: Option<ToolKind>)
        ensures
            r == registered(self@, name@),
    {
        let ghost e0 = self@;
        let mut i = self.entries.len();
        assert(e0.take(i as int) =~= e0);
        while i > 0
            invariant
                i <= self.entries.len(),
                e0 == self@,
                registered(e0, name@) == registered(e0.take(i as int), name@),
            decreases i,
        {
            assert(e0.take(i as int).last() == e0[i - 1]);
            assert(e0.take(i as int).drop_last() =~= e0.take(i - 1));
            if str_eq(self.entries[i - 1].0.as_str(), name) {
                return Some(self.entries[i - 1].1);
            }
            i = i - 1;
        }
        None
    }

    /// The tools that `names` name, in order, skipping names not registered.
    pub fn resolve(&self, names: &[String]) -> (r: Vec<ToolKind>)
        ensures
            r@ == resolved(self@, names@.map_values(|s: String| s@)),
    {
        let ghost ns = names@.map_values(|s: String| s@);
        let mut out: Vec<ToolKind> = Vec::new();
        let mut i: usize = 0;
        while i < names.len()
            invariant
                0 <= i <= names.len(),
                ns == names@.map_values(|s: String| s@),
                out@ == resolved(self@, ns.take(i as int)),
            decreases names.len() - i,
        {
            assert(ns.take(i + 1).drop_last() =~= ns.take(i as int));
            assert(ns.take(i + 1).last() == names@[i as int]@);
            if let Some(k) = self.lookup(names[i].as_str()) {
                out.push(k);
            }
            i = i + 1;
        }
        assert(ns.take(names.len() as int) =~= ns);
        out
    }

    /// Whether a tool is registered under `name`.
    pub fn contains(&self, name: &str) -> (r: bool)
        ensures
            r == (registered(self@, name@) is Some),
    {
        self.lookup(name).is_some()
    }

    /// The number of registered names.
    pub fn len(&self) -> (r: usize)
        ensures
            r == self@.len(),
    {
        self.entries.len()
    }

    /// Whether nothing is registered.
    pub fn is_empty(&self) -> (r: bool)
        ensures
            r == (self@.len() == 0),
    {
        self.entries.len() == 0
    }
}

impl Default for ToolRegistry {
    fn default() -> (r: Self)
        ensures
            r@ == Seq::<(Seq<char>, ToolKind)>::empty(),
    {
        ToolRegistry::new()
    }
}

} // verus!
