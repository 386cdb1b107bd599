//! An explicit model of process environment state: an ordered list of
//! name/value bindings with first-binding-wins lookup and additive merge
//! (loading never overwrites a name that is already bound).

use vstd::prelude::*;
use vstd::string::*;
use crate::text::str_eq;

verus! {

/// The value bound to an environment variable: ordinary text, or raw bytes
/// that do not form valid text (the operating system permits such values).
#[derive(Debug)]
pub enum EnvValue {
    Text(String),
    Raw(Vec<u8>),
}

/// Mathematical view of an environment value.
pub enum EnvValueV {
    Text(Seq<char>),
    Raw(Seq<u8>),
}

impl View for EnvValue {
    type V = EnvValueV;

    open spec fn view(&self) -> EnvValueV {
        match self {
            EnvValue::Text(s) => EnvValueV::Text(s@),
            EnvValue::Raw(b) => EnvValueV::Raw(b@),
        }
    }
}

/// One binding of the environment.
#[derive(Debug)]
pub struct EnvEntry {
    pub name: String,
    pub value: EnvValue,
}

/// Mathematical view of one binding.
pub struct EnvEntryV {
    pub name: Seq<char>,
    pub value: EnvValueV,
}

impl View for EnvEntry {
    type V = EnvEntryV;

    open spec fn view(&self) -> EnvEntryV {
        EnvEntryV { name: self.name@, value: self.value@ }
    }
}

impl DeepView for EnvEntry {
    type V = EnvEntryV;

    open spec fn deep_view(&self) -> EnvEntryV {
        self.view()
    }
}

/// The value bound to `n` in `s`: the first entry whose name is `n` wins.
pub open spec fn lookup_entries(s: Seq<EnvEntryV>, n: Seq<char>) -> Option<EnvValueV>
    decreases s.len(),
{
    if s.len() == 0 {
        None
    } else if s[0].name == n {
        Some(s[0].value)
    } else {
        lookup_entries(s.drop_first(), n)
    }
}

/// Appending an entry changes only the lookup of names that were unbound.
pub proof fn lemma_lookup_append(s: Seq<EnvEntryV>, e: EnvEntryV, n: Seq<char>)
    ensures
        lookup_entries(s.push(e), n) == (if lookup_entries(s, n) is Some {
            lookup_entries(s, n)
        } else if e.name == n {
            Some(e.value)
        } else {
            None
        }),
    decreases s.len(),
{
    if s.len() == 0 {
        assert(s.push(e)[0] == e);
        assert(s.push(e).drop_first() =~= Seq::<EnvEntryV>::empty());
    } else {
        assert(s.push(e)[0] == s[0]);
        assert(s.push(e).drop_first() =~= s.drop_first().push(e));
        lemma_lookup_append(s.drop_first(), e, n);
    }
}

/// The result of merging the bindings `add` into `base` additively, in order:
/// an added binding is appended only where its name is still unbound.
pub open spec fn merge_entries(base: Seq<EnvEntryV>, add: Seq<EnvEntryV>) -> Seq<EnvEntryV>
    decreases add.len(),
{
    if add.len() == 0 {
        base
    } else if lookup_entries(base, add[0].name) is Some {
        merge_entries(base, add.drop_first())
    } else {
        merge_entries(base.push(add[0]), add.drop_first())
    }
}

/// Law: the merge is additive. A name that is bound before a merge keeps
/// exactly its old value, whatever the merged bindings say about it.
pub proof fn lemma_merge_preserves_existing(base: Seq<EnvEntryV>, add: Seq<EnvEntryV>, n: Seq<char>)
    requires
        lookup_entries(base, n) is Some,
    ensures
        lookup_entries(merge_entries(base, add), n) == lookup_entries(base, n),
    decreases add.len(),
{
    if add.len() > 0 {
        if lookup_entries(base, add[0].name) is Some {
            lemma_merge_preserves_existing(base, add.drop_first(), n);
        } else {
            lemma_lookup_append(base, add[0], n);
            lemma_merge_preserves_existing(base.push(add[0]), add.drop_first(), n);
        }
    }
}

/// Law: a name that is unbound before a merge afterwards holds the first
/// value that the merged bindings give it, or stays unbound if they give none.
pub proof fn lemma_merge_introduces_missing(base: Seq<EnvEntryV>, add: Seq<EnvEntryV>, n: Seq<char>)
    requires
        lookup_entries(base, n) is None,
    ensures
        lookup_entries(merge_entries(base, add), n) == lookup_entries(add, n),
    decreases add.len(),
{
    if add.len() > 0 {
        if lookup_entries(base, add[0].name) is Some {
            assert(add[0].name != n);
            lemma_merge_introduces_missing(base, add.drop_first(), n);
        } else {
            lemma_lookup_append(base, add[0], n);
            if add[0].name == n {
                lemma_merge_preserves_existing(base.push(add[0]), add.drop_first(), n);
            } else {
                lemma_merge_introduces_missing(base.push(add[0]), add.drop_first(), n);
            }
        }
    }
}

/// Explicit process environment state: an ordered list of bindings.
#[derive(Debug)]
pub struct EnvMap {
    entries: Vec<EnvEntry>,
}

impl View for EnvMap {
    type V = Seq<EnvEntryV>;

    closed spec fn view(&self) -> Seq<EnvEntryV> {
        self.entries@.map_values(|e: EnvEntry| e@)
    }
}

impl EnvMap {
    /// The value bound to `n`, if any.
    pub open spec fn spec_lookup(self, n: Seq<char>) -> Option<EnvValueV> {
        lookup_entries(self@, n)
    }

    /// An environment with no bindings.
    pub fn new() -> (r: EnvMap)
        ensures
            r@ =~= Seq::<EnvEntryV>::empty(),
    {
        EnvMap { entries: Vec::new() }
    }

    /// The first binding of `name`, if any.
    pub fn lookup<'a>(&'a self, name: &str) -> (r: Option<&'a EnvValue>)
        ensures
            r matches Some(v) ==> self.spec_lookup(name@) == Some(v@),
            r is None ==> self.spec_lookup(name@) is None,
    {
        let n = self.entries.len();
        let mut i: usize = 0;
        proof {
            assert(self@.skip(0) =~= self@);
        }
        while i < n
            invariant
                n == self.entries@.len(),
                i <= n,
                lookup_entries(self@, name@) == lookup_entries(self@.skip(i as int), name@),
            decreases n - i,
        {
            proof {
                assert(self@.skip(i as int)[0] == self@[i as int]);
                assert(self@.skip(i as int).drop_first() =~= self@.skip(i + 1));
            }
            if str_eq(self.entries[i].name.as_str(), name) {
                return Some(&self.entries[i].value);
            }
            i += 1;
        }
        proof {
            assert(self@.skip(n as int) =~= Seq::<EnvEntryV>::empty());
        }
        None
    }

    /// Whether `name` is bound at all.
    pub fn contains(&self, name: &str) -> (r: bool)
        ensures
            r == (self.spec_lookup(name@) is Some),
    {
        match self.lookup(name) {
            Some(_) => true,
            None => false,
        }
    }

    /// Binds `name` to the given value, shadowing any previous binding.
    pub fn set(&mut self, name: String, value: EnvValue)
        ensures
            final(self).spec_lookup(name@) == Some(value@),
            forall|m: Seq<char>| m != name@ ==> final(self).spec_lookup(m) == old(
                self,
            ).spec_lookup(m),
    {
        let ghost old_view = self@;
        let e = EnvEntry { name, value };
        let ghost ev = e@;
        self.entries.insert(0, e);
        proof {
            assert(self@ =~= seq![ev] + old_view);
            assert(self@[0] == ev);
            assert(self@.drop_first() =~= old_view);
        }
    }

    /// Binds `name` to the text `value`, shadowing any previous binding.
    pub fn set_text(&mut self, name: &str, value: &str)
        ensures
            final(self).spec_lookup(name@) == Some(EnvValueV::Text(value@)),
            forall|m: Seq<char>| m != name@ ==> final(self).spec_lookup(m) == old(
                self,
            ).spec_lookup(m),
    {
        self.set(String::from_str(name), EnvValue::Text(String::from_str(value)));
    }

    /// Merges the given bindings in additively: a binding is appended only
    /// where its name is still unbound, so existing values are never
    /// overwritten and the first added binding of a name wins.
    pub fn merge_additive(&mut self, add: &Vec<EnvEntry>)
        ensures
            final(self)@ == merge_entries(old(self)@, add.deep_view()),
    {
        let ghost base = self@;
        let ghost addv = add.deep_view();
        let n = add.len();
        let mut i: usize = 0;
        proof {
            assert(addv.skip(0) =~= addv);
        }
        while i < n
            invariant
                n == add@.len(),
                addv == add.deep_view(),
                i <= n,
                merge_entries(base, addv) == merge_entries(self@, addv.skip(i as int)),
            decreases n - i,
        {
            proof {
                assert(addv.skip(i as int)[0] == addv[i as int]);
                assert(addv.skip(i as int).drop_first() =~= addv.skip(i + 1));
                assert(addv[i as int] == add@[i as int]@);
            }
            let ghost pre = self@;
            let name = String::from_str(add[i].name.as_str());
            if !self.contains(name.as_str()) {
                let value = match &add[i].value {
                    EnvValue::Text(s) => EnvValue::Text(String::from_str(s.as_str())),
                    EnvValue::Raw(b) => EnvValue::Raw(clone_bytes(b)),
                };
                self.entries.push(EnvEntry { name, value });
                proof {
                    assert(self@ =~= pre.push(add@[i as int]@));
                }
            }
            i += 1;
        }
        proof {
            assert(addv.skip(n as int) =~= Seq::<EnvEntryV>::empty());
        }
    }
}

/// A fresh copy of a byte vector.
fn clone_bytes(b: &Vec<u8>) -> (r: Vec<u8>)
    ensures
        r@ == b@,
{
    let mut r: Vec<u8> = Vec::new();
    let n = b.len();
    let mut i: usize = 0;
    while i < n
        invariant
            n == b@.len(),
            i <= n,
            r@ == b@.take(i as int),
        decreases n - i,
    {
        r.push(b[i]);
        proof {
            assert(b@.take(i + 1) =~= b@.take(i as int).push(b@[i as int]));
        }
        i += 1;
    }
    proof {
        assert(b@.take(n as int) =~= b@);
    }
    r
}

} // verus!
