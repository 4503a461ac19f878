//! The choice of a context storage provider: providers registered by name,
//! with a default one.

use vstd::prelude::*;
use crate::text::{push_str, str_eq, string_from_chars};

verus! {

/// A provider registered under a name.
pub struct NamedProvider<P> {
    pub name: String,
    pub provider: P,
}

/// Providers by name, in the order their names were first added, and the
/// name of the default provider. No name occurs twice, and there is a
/// default exactly when there is a provider, one of those registered.
pub struct ContextManager<P> {
    providers: Vec<NamedProvider<P>>,
    default_provider: Option<String>,
}

/// The names of a list of providers.
pub open spec fn names_of<P>(providers: Seq<NamedProvider<P>>) -> Seq<Seq<char>> {
    providers.map_values(|p: NamedProvider<P>| p.name@)
}

/// The message for a provider name that is not registered.
pub open spec fn provider_missing_message(name: Seq<char>) -> Seq<char> {
    "Provider '"@ + name + "' not found"@
}

/// The message when no provider is named and there is no default.
pub open spec fn no_default_message() -> Seq<char> {
    "No default provider set"@
}

/// The providers themselves, in the order of their names.
pub open spec fn values_of<P>(providers: Seq<NamedProvider<P>>) -> Seq<P> {
    providers.map_values(|p: NamedProvider<P>| p.provider)
}

/// The default after a provider is removed: unchanged unless it was the
/// removed one; then the first remaining provider, or none.
pub open spec fn default_after_removal<P>(
    default: Option<Seq<char>>,
    removed: Seq<char>,
    remaining: Seq<NamedProvider<P>>,
) -> Option<Seq<char>> {
    if default == Some(removed) {
        if remaining.len() > 0 { Some(remaining[0].name@) } else { None }
    } else {
        default
    }
}

fn provider_missing(name: &str) -> (s: String)
    ensures
        s@ == provider_missing_message(name@),
{
    let mut out: Vec<char> = Vec::new();
    push_str(&mut out, "Provider '");
    push_str(&mut out, name);
    push_str(&mut out, "' not found");
    let s = string_from_chars(out.as_slice());
    assert(s@ =~= provider_missing_message(name@));
    s
}

impl<P> ContextManager<P> {
    /// The registered providers.
    pub closed spec fn providers(self) -> Seq<NamedProvider<P>> {
        self.providers@
    }

    /// The registered names.
    pub open spec fn names(self) -> Seq<Seq<char>> {
        names_of(self.providers())
    }

    /// The name of the default provider.
    pub closed spec fn default_name(self) -> Option<Seq<char>> {
        match self.default_provider {
            Some(n) => Some(n@),
            None => None,
        }
    }

    /// No name occurs twice; the default is one of the registered names, and
    /// there is one whenever a provider is registered.
    pub open spec fn well_formed(self) -> bool {
        &&& self.names().no_duplicates()
        &&& match self.default_name() {
            Some(d) => self.names().contains(d),
            None => self.names().len() == 0,
        }
    }

    /// A manager with no providers.
    pub fn new() -> (m: ContextManager<P>)
        ensures
            m.providers() == Seq::<NamedProvider<P>>::empty(),
            m.default_name() is None,
            m.well_formed(),
    {
        let m = ContextManager { providers: Vec::new(), default_provider: None };
        assert(m.names() =~= Seq::<Seq<char>>::empty());
        m
    }

    fn position(&self, name: &str) -> (p: Option<usize>)
        ensures
            match p {
                Some(i) => i < self.names().len() && self.names()[i as int] == name@,
                None => !self.names().contains(name@),
            },
    {
        let mut i: usize = 0;
        while i < self.providers.len()
            invariant
                i <= self.providers@.len(),
                forall|j: int| 0 <= j < i ==> self.names()[j] != name@,
            decreases self.providers@.len() - i,
        {
            if str_eq(self.providers[i].name.as_str(), name) {
                return Some(i);
            }
            i = i + 1;
        }
        None
    }

    /// Adds a provider under a name, replacing one of the same name; the
    /// first provider added becomes the default.
    pub fn add_provider(&mut self, name: &str, provider: P)
        requires
            old(self).well_formed(),
        ensures
            final(self).well_formed(),
            old(self).names().contains(name@) ==> final(self).names() == old(self).names()
                && values_of(final(self).providers()) == values_of(old(self).providers()).update(
                    old(self).names().index_of(name@),
                    provider,
                ),
            !old(self).names().contains(name@) ==> final(self).names() == old(self).names().push(name@)
                && values_of(final(self).providers()) == values_of(old(self).providers()).push(provider),
            final(self).default_name() == match old(self).default_name() {
                Some(d) => Some(d),
                None => Some(name@),
            },
    {
        let ghost before = self.providers();
        let entry = NamedProvider { name: name.to_string(), provider };
        match self.position(name) {
            Some(i) => {
                proof {
                    let k = self.names().index_of(name@);
                    assert(self.names()[k] == name@);
                    assert(k == i as int);
                }
                self.providers.set(i, entry);
                assert(self.names() =~= names_of(before).update(i as int, name@));
                assert(names_of(before).update(i as int, name@) =~= names_of(before));
                assert(values_of(self.providers()) =~= values_of(before).update(i as int, provider));
            },
            None => {
                self.providers.push(entry);
                assert(self.names() =~= names_of(before).push(name@));
                assert(values_of(self.providers()) =~= values_of(before).push(provider));
            },
        }
        if self.default_provider.is_none() {
            self.default_provider = Some(name.to_string());
        }
        assert(self.names().contains(name@)) by {
            let k = if names_of(before).contains(name@) {
                names_of(before).index_of(name@)
            } else {
                before.len() as int
            };
            assert(self.names()[k] == name@);
        }
        proof {
            if let Some(d) = self.default_name() {
                if d != name@ {
                    let j = choose|j: int| 0 <= j < names_of(before).len() && names_of(before)[j] == d;
                    assert(self.names()[j] == d);
                }
            }
        }
    }

    /// Makes the named provider the default; a name that is not registered
    /// is refused and nothing changes.
    pub fn set_default_provider(&mut self, name: &str) -> (r: Result<(), String>)
        requires
            old(self).well_formed(),
        ensures
            final(self).well_formed(),
            final(self).providers() == old(self).providers(),
            !old(self).names().contains(name@) ==> r is Err
                && r->Err_0@ == provider_missing_message(name@)
                && final(self).default_name() == old(self).default_name(),
            old(self).names().contains(name@) ==> r is Ok
                && final(self).default_name() == Some(name@),
    {
        match self.position(name) {
            None => Err(provider_missing(name)),
            Some(i) => {
                self.default_provider = Some(name.to_string());
                assert(self.names()[i as int] == name@);
                Ok(())
            },
        }
    }

    /// Removes the named provider; a name that is not registered is refused
    /// and nothing changes. When the default is removed, the first remaining
    /// provider becomes the default.
    pub fn remove_provider(&mut self, name: &str) -> (r: Result<(), String>)
        requires
            old(self).well_formed(),
        ensures
            final(self).well_formed(),
            !old(self).names().contains(name@) ==> r is Err
                && r->Err_0@ == provider_missing_message(name@)
                && final(self).providers() == old(self).providers()
                && final(self).default_name() == old(self).default_name(),
            old(self).names().contains(name@) ==> r is Ok
                && final(self).providers() == old(self).providers().remove(old(self).names().index_of(name@))
                && final(self).default_name() == default_after_removal(
                    old(self).default_name(),
                    name@,
                    final(self).providers(),
                ),
    {
        match self.position(name) {
            None => Err(provider_missing(name)),
            Some(i) => {
                let ghost before = self.providers();
                let ghost old_default = self.default_name();
                proof {
                    let k = self.names().index_of(name@);
                    assert(self.names()[k] == name@);
                    assert(k == i as int);
                }
                let _removed = self.providers.remove(i);
                assert(self.names() =~= names_of(before).remove(i as int));
                let was_default = match &self.default_provider {
                    Some(d) => str_eq(d.as_str(), name),
                    None => false,
                };
                if was_default {
                    if self.providers.len() > 0 {
                        let first = self.providers[0].name.clone();
                        self.default_provider = Some(first);
                        assert(self.names()[0] == self.providers()[0].name@);
                    } else {
                        self.default_provider = None;
                    }
                } else {
                    proof {
                        let d = old_default->Some_0;
                        assert(d != name@);
                        let j = choose|j: int| 0 <= j < names_of(before).len() && names_of(before)[j] == d;
                        if j < i {
                            assert(self.names()[j] == d);
                        } else {
                            assert(j != i);
                            assert(self.names()[j - 1] == d);
                        }
                    }
                }
                Ok(())
            },
        }
    }

    /// The registered names, in the order they were first added.
    pub fn list_providers(&self) -> (v: Vec<String>)
        ensures
            v@.map_values(|s: String| s@) == self.names(),
    {
        let mut v: Vec<String> = Vec::new();
        let mut i: usize = 0;
        while i < self.providers.len()
            invariant
                i <= self.providers@.len(),
                v@.len() == i,
                forall|j: int| 0 <= j < i ==> (#[trigger] v@[j])@ == self.names()[j],
            decreases self.providers@.len() - i,
        {
            let n = self.providers[i].name.clone();
            v.push(n);
            i = i + 1;
        }
        assert(v@.map_values(|s: String| s@) =~= self.names());
        v
    }

    /// The name of the default provider.
    pub fn default_provider(&self) -> (d: Option<String>)
        ensures
            match d {
                Some(s) => self.default_name() == Some(s@),
                None => self.default_name() is None,
            },
    {
        match &self.default_provider {
            Some(s) => Some(s.clone()),
            None => None,
        }
    }

    /// The provider a request goes to: the named one, or the default when
    /// none is named.
    pub fn get_provider(&self, name: Option<&str>) -> (r: Result<&P, String>)
        requires
            self.well_formed(),
        ensures
            ({
                let target = match name {
                    Some(n) => Some(n@),
                    None => self.default_name(),
                };
                match target {
                    None => r is Err && r->Err_0@ == no_default_message(),
                    Some(t) => if self.names().contains(t) {
                        r is Ok && *r->Ok_0 == self.providers()[self.names().index_of(t)].provider
                    } else {
                        r is Err && r->Err_0@ == provider_missing_message(t)
                    },
                }
            }),
    {
        let target: &str = match name {
            Some(n) => n,
            None => match &self.default_provider {
                Some(d) => d.as_str(),
                None => return Err("No default provider set".to_string()),
            },
        };
        match self.position(target) {
            None => Err(provider_missing(target)),
            Some(i) => {
                proof {
                    let k = self.names().index_of(target@);
                    assert(self.names()[k] == target@);
                    assert(k == i as int);
                }
                Ok(&self.providers[i].provider)
            },
        }
    }
}

/// A provider added under a name is the one a request for that name goes
/// to afterwards, whether the name was new or replaced an earlier provider.
pub proof fn law_added_provider_is_found<P>(names: Seq<Seq<char>>, values: Seq<P>, name: Seq<char>, provider: P)
    requires
        names.no_duplicates(),
        names.len() == values.len(),
    ensures
        ({
            let (after_names, after_values) = if names.contains(name) {
                (names, values.update(names.index_of(name), provider))
            } else {
                (names.push(name), values.push(provider))
            };
            &&& after_names.no_duplicates()
            &&& after_names.contains(name)
            &&& after_values[after_names.index_of(name)] == provider
        }),
{
    if names.contains(name) {
        let k = names.index_of(name);
        assert(0 <= k < names.len() && names[k] == name);
    } else {
        let after = names.push(name);
        assert(after[names.len() as int] == name);
        let k = after.index_of(name);
        assert(0 <= k < after.len() && after[k] == name);
        if k != names.len() {
            assert(names[k] == name);
        }
    }
}

} // verus!
