//! Global configuration: type aliases, the schema collect mode and the
//! default for collecting `IntoParams` parameters.
use vstd::prelude::*;
use vstd::string::StringExecFns;

use crate::text::str_eq;

verus! {

/// Which schemas are collected to the OpenAPI document.
#[derive(PartialEq, Eq, Structural, Clone, Copy, Debug)]
pub enum SchemaCollect {
    /// All schemas from usages, inlined ones included.
    All,
    /// Only schemas that are not explicitly inlined.
    NonInlined,
}

impl SchemaCollect {
    /// The name that the mode is stored under: `all` or `non_inlined`.
    pub fn as_str(&self) -> (res: &'static str)
        ensures
            res@ == collect_name(*self),
    {
        match self {
            SchemaCollect::All => "all",
            SchemaCollect::NonInlined => "non_inlined",
        }
    }

    /// Reads a stored mode: `all` is [`SchemaCollect::All`], anything else
    /// [`SchemaCollect::NonInlined`].
    pub fn from_name(s: &str) -> (res: SchemaCollect)
        ensures
            res == (if s@ == "all"@ {
                SchemaCollect::All
            } else {
                SchemaCollect::NonInlined
            }),
    {
        if str_eq(s, "all") {
            SchemaCollect::All
        } else {
            SchemaCollect::NonInlined
        }
    }
}

impl Default for SchemaCollect {
    fn default() -> (res: SchemaCollect)
        ensures
            res == SchemaCollect::NonInlined,
    {
        SchemaCollect::NonInlined
    }
}

/// The stored name of a collect mode.
pub open spec fn collect_name(c: SchemaCollect) -> Seq<char> {
    match c {
        SchemaCollect::All => "all"@,
        SchemaCollect::NonInlined => "non_inlined"@,
    }
}

/// The global configuration.
pub struct Config {
    /// The alias definitions in the order the aliases were first given;
    /// defining an alias again replaces its type in place.
    pub aliases: Vec<(String, String)>,
    /// The schema collect mode.
    pub schema_collect: SchemaCollect,
    /// Whether parameters from `IntoParams` extractors are included by
    /// default.
    pub auto_into_params: bool,
}

/// The aliases that a sequence of definitions gives: later ones win.
pub open spec fn alias_map(s: Seq<(String, String)>) -> Map<Seq<char>, Seq<char>>
    decreases s.len(),
{
    if s.len() == 0 {
        Map::empty()
    } else {
        alias_map(s.drop_last()).insert(s.last().0@, s.last().1@)
    }
}


/// Whether no alias is defined twice.
pub open spec fn keys_distinct(s: Seq<(String, String)>) -> bool {
    forall|a: int, b: int| 0 <= a < b < s.len() ==> (#[trigger] s[a]).0@ != (#[trigger] s[b]).0@
}

/// The position of the last definition of the alias, if it has one.
pub open spec fn last_key_index(s: Seq<(String, String)>, k: Seq<char>) -> Option<int>
    decreases s.len(),
{
    if s.len() == 0 {
        None
    } else if s.last().0@ == k {
        Some(s.len() - 1)
    } else {
        last_key_index(s.drop_last(), k)
    }
}

proof fn lemma_last_key_index_found(s: Seq<(String, String)>, k: Seq<char>, i: int)
    requires
        0 <= i < s.len(),
        s[i].0@ == k,
        forall|j: int| i < j < s.len() ==> (#[trigger] s[j]).0@ != k,
    ensures
        last_key_index(s, k) == Some(i),
    decreases s.len(),
{
    if i < s.len() - 1 {
        assert(s.last() == s[s.len() - 1]);
        assert forall|j: int| i < j < s.drop_last().len() implies (#[trigger] s.drop_last()[j]).0@ != k by {
            assert(s.drop_last()[j] == s[j]);
        }
        lemma_last_key_index_found(s.drop_last(), k, i);
    }
}

proof fn lemma_last_key_index_none(s: Seq<(String, String)>, k: Seq<char>)
    requires
        forall|j: int| 0 <= j < s.len() ==> (#[trigger] s[j]).0@ != k,
    ensures
        last_key_index(s, k) is None,
    decreases s.len(),
{
    if s.len() > 0 {
        assert(s.last() == s[s.len() - 1]);
        assert forall|j: int| 0 <= j < s.drop_last().len() implies (#[trigger] s.drop_last()[j]).0@ != k by {
            assert(s.drop_last()[j] == s[j]);
        }
        lemma_last_key_index_none(s.drop_last(), k);
    }
}

/// Giving the last definition of an alias a new type is defining the alias
/// anew.
proof fn lemma_alias_map_update(s: Seq<(String, String)>, i: int, e: (String, String))
    requires
        0 <= i < s.len(),
        e.0@ == s[i].0@,
        forall|j: int| i < j < s.len() ==> (#[trigger] s[j]).0@ != s[i].0@,
    ensures
        alias_map(s.update(i, e)) == alias_map(s).insert(e.0@, e.1@),
    decreases s.len(),
{
    let t = s.update(i, e);
    if i == s.len() - 1 {
        assert(t.drop_last() =~= s.drop_last());
        assert(alias_map(s.update(i, e)) =~= alias_map(s).insert(e.0@, e.1@));
    } else {
        assert(t.drop_last() =~= s.drop_last().update(i, e));
        assert forall|j: int| i < j < s.drop_last().len() implies (#[trigger] s.drop_last()[j]).0@ != s[i].0@ by {
            assert(s.drop_last()[j] == s[j]);
        }
        lemma_alias_map_update(s.drop_last(), i, e);
        assert(t.last() == s.last());
        assert(s.last() == s[s.len() - 1]);
        assert(alias_map(t) =~= alias_map(s).insert(e.0@, e.1@));
    }
}

impl Config {
    /// The aliases of the configuration, from alias to type.
    pub open spec fn aliases_view(&self) -> Map<Seq<char>, Seq<char>> {
        alias_map(self.aliases@)
    }

    /// The alias definitions in the order they were given.
    pub open spec fn entries_view(&self) -> Seq<(String, String)> {
        self.aliases@
    }

    /// A configuration with no alias, the `NonInlined` collect mode and no
    /// automatic `IntoParams` parameters.
    pub fn new() -> (res: Config)
        ensures
            res.aliases_view() == Map::<Seq<char>, Seq<char>>::empty(),
            res.entries_view().len() == 0,
            keys_distinct(res.entries_view()),
            res.schema_collect == SchemaCollect::NonInlined,
            !res.auto_into_params,
    {
        Config { aliases: Vec::new(), schema_collect: SchemaCollect::NonInlined, auto_into_params: false }
    }

    /// Adds a global alias: `alias` then stands for the type `value`. An
    /// alias that is already defined gets the new type in its place; a new
    /// one is added at the end.
    pub fn alias_for(self, alias: &str, value: &str) -> (res: Config)
        ensures
            res.aliases_view() == self.aliases_view().insert(alias@, value@),
            keys_distinct(self.entries_view()) ==> keys_distinct(res.entries_view()),
            match last_key_index(self.entries_view(), alias@) {
                Some(i) => res.entries_view().len() == self.entries_view().len() && (forall|j: int|
                    0 <= j < res.entries_view().len() && j != i ==> res.entries_view()[j]
                        == self.entries_view()[j]) && res.entries_view()[i].0 == self.entries_view()[i].0
                    && res.entries_view()[i].1@ == value@,
                None => res.entries_view().len() == self.entries_view().len() + 1 && res.entries_view().drop_last()
                    == self.entries_view() && res.entries_view().last().0@ == alias@
                    && res.entries_view().last().1@ == value@,
            },
            res.schema_collect == self.schema_collect,
            res.auto_into_params == self.auto_into_params,
    {
        let mut c = self;
        let ghost old_entries = c.aliases@;
        let n = c.aliases.len();
        let mut i = n;
        while i > 0
            invariant
                i <= n,
                n == c.aliases@.len(),
                c.aliases@ == old_entries,
                old_entries == self.aliases@,
                c.schema_collect == self.schema_collect,
                c.auto_into_params == self.auto_into_params,
                forall|j: int| i <= j < n ==> (#[trigger] old_entries[j]).0@ != alias@,
            decreases i,
        {
            if str_eq(c.aliases[i - 1].0.as_str(), alias) {
                let k = i - 1;
                proof {
                    lemma_last_key_index_found(old_entries, alias@, k as int);
                }
                let key = c.aliases[k].0.clone();
                c.aliases.set(k, (key, String::from_str(value)));
                proof {
                    lemma_alias_map_update(old_entries, k as int, c.aliases@[k as int]);
                    assert(c.aliases@ =~= old_entries.update(k as int, c.aliases@[k as int]));
                    if keys_distinct(old_entries) {
                        assert forall|a: int, b: int|
                            0 <= a < b < c.aliases@.len() implies (#[trigger] c.aliases@[a]).0@
                            != (#[trigger] c.aliases@[b]).0@ by {
                            assert(old_entries[a].0@ != old_entries[b].0@);
                        }
                    }
                }
                return c;
            }
            i = i - 1;
        }
        proof {
            lemma_last_key_index_none(old_entries, alias@);
            lemma_alias_absent(old_entries, alias@);
        }
        c.aliases.push((String::from_str(alias), String::from_str(value)));
        proof {
            assert(c.aliases@.drop_last() =~= old_entries);
            if keys_distinct(old_entries) {
                assert forall|a: int, b: int|
                    0 <= a < b < c.aliases@.len() implies (#[trigger] c.aliases@[a]).0@
                    != (#[trigger] c.aliases@[b]).0@ by {
                    if b < old_entries.len() {
                        assert(old_entries[a].0@ != old_entries[b].0@);
                    } else {
                        assert(c.aliases@[a] == old_entries[a]);
                    }
                }
            }
        }
        c
    }

    /// Sets the schema collect mode.
    pub fn schema_collect(self, schema_collect: SchemaCollect) -> (res: Config)
        ensures
            res.aliases_view() == self.aliases_view(),
            res.entries_view() == self.entries_view(),
            res.schema_collect == schema_collect,
            res.auto_into_params == self.auto_into_params,
    {
        let mut c = self;
        c.schema_collect = schema_collect;
        c
    }

    /// Sets whether parameters from `IntoParams` extractors are included by
    /// default.
    pub fn auto_into_params(self, enabled: bool) -> (res: Config)
        ensures
            res.aliases_view() == self.aliases_view(),
            res.entries_view() == self.entries_view(),
            res.schema_collect == self.schema_collect,
            res.auto_into_params == enabled,
    {
        let mut c = self;
        c.auto_into_params = enabled;
        c
    }

    /// The alias definitions in the order they were given.
    pub fn entries(&self) -> (res: &Vec<(String, String)>)
        ensures
            res@ == self.entries_view(),
    {
        &self.aliases
    }

    /// The type that an alias stands for, if it is one.
    pub fn get_alias(&self, alias: &str) -> (res: Option<String>)
        ensures
            match res {
                Some(v) => self.aliases_view().contains_key(alias@) && self.aliases_view()[alias@]
                    == v@,
                None => !self.aliases_view().contains_key(alias@),
            },
    {
        let n = self.aliases.len();
        let mut i = n;
        while i > 0
            invariant
                i <= n,
                n == self.aliases@.len(),
                forall|j: int| i <= j < n ==> (#[trigger] self.aliases@[j]).0@ != alias@,
            decreases i,
        {
            if str_eq(self.aliases[i - 1].0.as_str(), alias) {
                proof {
                    lemma_alias_last(self.aliases@, i as int);
                }
                return Some(self.aliases[i - 1].1.clone());
            }
            i = i - 1;
        }
        proof {
            lemma_alias_absent(self.aliases@, alias@);
        }
        None
    }
}

/// The last definition of an alias is the one that stands.
proof fn lemma_alias_last(s: Seq<(String, String)>, i: int)
    requires
        0 < i <= s.len(),
        forall|j: int| i <= j < s.len() ==> (#[trigger] s[j]).0@ != s[i - 1].0@,
    ensures
        alias_map(s).contains_key(s[i - 1].0@),
        alias_map(s)[s[i - 1].0@] == s[i - 1].1@,
    decreases s.len() - i,
{
    if i < s.len() {
        assert forall|j: int| i <= j < s.drop_last().len() implies (#[trigger] s.drop_last()[j]).0@
            != s.drop_last()[i - 1].0@ by {
            assert(s.drop_last()[j] == s[j]);
        }
        lemma_alias_last(s.drop_last(), i);
        assert(s.last() == s[s.len() - 1]);
    }
}

/// An alias that no definition names is no alias.
proof fn lemma_alias_absent(s: Seq<(String, String)>, k: Seq<char>)
    requires
        forall|j: int| 0 <= j < s.len() ==> (#[trigger] s[j]).0@ != k,
    ensures
        !alias_map(s).contains_key(k),
    decreases s.len(),
{
    if s.len() > 0 {
        assert forall|j: int| 0 <= j < s.drop_last().len() implies (#[trigger] s.drop_last()[j]).0@
            != k by {
            assert(s.drop_last()[j] == s[j]);
        }
        lemma_alias_absent(s.drop_last(), k);
        assert(s.last() == s[s.len() - 1]);
    }
}

/// Defining an alias and then looking it up gives its type; other aliases
/// are unchanged.
pub proof fn lemma_alias_read_after_write(
    aliases: Map<Seq<char>, Seq<char>>,
    alias: Seq<char>,
    value: Seq<char>,
    other: Seq<char>,
)
    requires
        other != alias,
    ensures
        aliases.insert(alias, value).contains_key(alias),
        aliases.insert(alias, value)[alias] == value,
        aliases.insert(alias, value).contains_key(other) == aliases.contains_key(other),
        aliases.contains_key(other) ==> aliases.insert(alias, value)[other] == aliases[other],
{
}

/// The collect mode that a stored name reads as: `all`, and anything else as
/// the mode that leaves inlined schemas out.
pub open spec fn collect_by_name(s: Seq<char>) -> SchemaCollect {
    if s == "all"@ {
        SchemaCollect::All
    } else {
        SchemaCollect::NonInlined
    }
}

/// Reading the stored name of a collect mode gives the mode back.
pub proof fn lemma_collect_name_roundtrip(c: SchemaCollect)
    ensures
        collect_by_name(collect_name(c)) == c,
{
    reveal_strlit("all");
    reveal_strlit("non_inlined");
    assert("all"@.len() == 3);
    assert("non_inlined"@.len() == 11);
}

} // verus!
