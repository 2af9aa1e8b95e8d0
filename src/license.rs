//! License names: the first line of a LICENSE text, and the verdict of an
//! allowlist on it.
use vstd::prelude::*;

verus! {

/// The text up to, not including, its first newline; the whole text where it
/// holds none.
pub open spec fn first_line(t: Seq<char>) -> Seq<char>
    decreases t.len(),
{
    if t.len() == 0 {
        t
    } else if t[0] == '\n' {
        Seq::empty()
    } else {
        seq![t[0]] + first_line(t.subrange(1, t.len() as int))
    }
}

/// Relies on str::split_once: the parts before and after the first
/// occurrence of the delimiter, or nothing where it does not occur.
#[verifier::external_body]
fn split_first<'a>(s: &'a str, delim: char) -> (r: Option<(&'a str, &'a str)>)
    ensures
        match r {
            Some((head, tail)) => s@ == head@ + seq![delim] + tail@ && !head@.contains(delim),
            None => !s@.contains(delim),
        },
{
    s.split_once(delim)
}

/// A text without a newline is its own first line.
proof fn lemma_first_line_no_newline(t: Seq<char>)
    requires
        !t.contains('\n'),
    ensures
        first_line(t) == t,
    decreases t.len(),
{
    if t.len() > 0 {
        let rest = t.subrange(1, t.len() as int);
        assert forall|i: int| 0 <= i < rest.len() implies rest[i] != '\n' by {
            assert(rest[i] == t[i + 1]);
        }
        lemma_first_line_no_newline(rest);
        assert(seq![t[0]] + rest =~= t);
    }
}

/// The first line of a text is what stands before its first newline.
pub proof fn lemma_first_line_before_newline(t: Seq<char>, i: int)
    requires
        0 <= i < t.len(),
        t[i] == '\n',
        forall|j: int| 0 <= j < i ==> t[j] != '\n',
    ensures
        first_line(t) == t.subrange(0, i),
    decreases i,
{
    if i > 0 {
        let rest = t.subrange(1, t.len() as int);
        lemma_first_line_before_newline(rest, i - 1);
        assert(seq![t[0]] + rest.subrange(0, i - 1) =~= t.subrange(0, i));
    } else {
        assert(t.subrange(0, 0) =~= Seq::<char>::empty());
    }
}

/// The license name of a LICENSE text: its first line, verbatim.
pub fn get_license_name(license_text: &str) -> (name: &str)
    ensures
        name@ == first_line(license_text@),
{
    match split_first(license_text, '\n') {
        Some((head, tail)) => {
            proof {
                let t = license_text@;
                let i = head@.len() as int;
                assert(t[i] == '\n');
                assert forall|j: int| 0 <= j < i implies t[j] != '\n' by {
                    assert(t[j] == head@[j]);
                }
                lemma_first_line_before_newline(t, i);
                assert(t.subrange(0, i) =~= head@);
            }
            head
        },
        None => {
            proof {
                lemma_first_line_no_newline(license_text@);
            }
            license_text
        },
    }
}

/// The names held by a sequence of strings, as character sequences.
pub open spec fn names_of(v: Seq<String>) -> Seq<Seq<char>> {
    v.map_values(|s: String| s@)
}

/// One category of the allowlist: a name and the license names under it.
pub struct LicenseCategory {
    pub name: String,
    pub licenses: Vec<String>,
}

/// The allowlist: license names grouped in named categories, no two with the
/// same name (see `wf`). Only the category `authorized` decides verdicts; the
/// others are kept unread.
pub struct AllowList {
    pub categories: Vec<LicenseCategory>,
}

/// The license names of the first category from index `i` on whose name is
/// `name`, if any.
pub open spec fn lookup_from(cats: Seq<LicenseCategory>, name: Seq<char>, i: int) -> Option<Seq<Seq<char>>>
    decreases cats.len() - i,
{
    if i < 0 || i >= cats.len() {
        None
    } else if cats[i].name@ == name {
        Some(names_of(cats[i].licenses@))
    } else {
        lookup_from(cats, name, i + 1)
    }
}

/// With `name` at index `i` and nowhere from `k` up to `i`, the lookup from
/// `k` finds the category at `i`.
proof fn lemma_lookup_at(cats: Seq<LicenseCategory>, name: Seq<char>, k: int, i: int)
    requires
        0 <= k <= i < cats.len(),
        cats[i].name@ == name,
        forall|j: int| k <= j < i ==> (#[trigger] cats[j]).name@ != name,
    ensures
        lookup_from(cats, name, k) == Some(names_of(cats[i].licenses@)),
    decreases i - k,
{
    if k < i {
        lemma_lookup_at(cats, name, k + 1, i);
    }
}

/// With `name` nowhere from `k` on, the lookup from `k` finds nothing.
proof fn lemma_lookup_none(cats: Seq<LicenseCategory>, name: Seq<char>, k: int)
    requires
        0 <= k,
        forall|j: int| k <= j < cats.len() ==> (#[trigger] cats[j]).name@ != name,
    ensures
        lookup_from(cats, name, k) is None,
    decreases cats.len() - k,
{
    if k < cats.len() {
        lemma_lookup_none(cats, name, k + 1);
    }
}

/// Whether no two categories share a name.
pub open spec fn names_unique(cats: Seq<LicenseCategory>) -> bool {
    forall|i: int, j: int| 0 <= i < j < cats.len() ==> (#[trigger] cats[i]).name@ != (#[trigger] cats[j]).name@
}

/// With unique names, a category is found exactly where its name stands.
proof fn lemma_lookup_unique(cats: Seq<LicenseCategory>, name: Seq<char>)
    requires
        names_unique(cats),
    ensures
        forall|i: int| 0 <= i < cats.len() && (#[trigger] cats[i]).name@ == name
            ==> lookup_from(cats, name, 0) == Some(names_of(cats[i].licenses@)),
        (forall|j: int| 0 <= j < cats.len() ==> (#[trigger] cats[j]).name@ != name)
            ==> lookup_from(cats, name, 0) is None,
{
    assert forall|i: int| 0 <= i < cats.len() && (#[trigger] cats[i]).name@ == name
        implies lookup_from(cats, name, 0) == Some(names_of(cats[i].licenses@)) by {
        assert forall|j: int| 0 <= j < i implies (#[trigger] cats[j]).name@ != name by {
            assert(cats[j].name@ != cats[i].name@);
        }
        lemma_lookup_at(cats, name, 0, i);
    }
    if forall|j: int| 0 <= j < cats.len() ==> (#[trigger] cats[j]).name@ != name {
        lemma_lookup_none(cats, name, 0);
    }
}

impl AllowList {
    /// The allowlist is well formed: no two categories share a name.
    pub open spec fn wf(&self) -> bool {
        names_unique(self.categories@)
    }

    /// An allowlist without categories.
    pub fn new() -> (r: AllowList)
        ensures
            r.wf(),
            forall|name: Seq<char>| r.lookup(name) is None,
    {
        AllowList { categories: Vec::new() }
    }

    /// Files `licenses` under the category `name`, in place of what it held.
    pub fn insert(&mut self, name: String, licenses: Vec<String>)
        requires
            old(self).wf(),
        ensures
            final(self).wf(),
            final(self).lookup(name@) == Some(names_of(licenses@)),
            forall|other: Seq<char>| other != name@ ==> final(self).lookup(other) == old(self).lookup(other),
    {
        let ghost before = self.categories@;
        let ghost key = name@;
        let ghost listed = names_of(licenses@);
        let mut i: usize = 0;
        let mut found = false;
        while i < self.categories.len() && !found
            invariant
                i <= self.categories.len(),
                self.categories@ == before,
                name@ == key,
                names_of(licenses@) == listed,
                found ==> i < before.len() && before[i as int].name@ == key,
                forall|j: int| 0 <= j < i ==> (#[trigger] before[j]).name@ != key,
            decreases self.categories.len() - i + (if found { 0int } else { 1int }),
        {
            if self.categories[i].name == name {
                found = true;
            } else {
                assert(before[i as int].name@ != key);
                i += 1;
            }
        }
        let ghost at = i as int;
        if found {
            self.categories.set(i, LicenseCategory { name, licenses });
        } else {
            self.categories.push(LicenseCategory { name, licenses });
        }
        proof {
            let after = self.categories@;
            assert(after.len() == before.len() || after.len() == before.len() + 1);
            assert(after[at].name@ == key && names_of(after[at].licenses@) == listed);
            assert(forall|j: int| 0 <= j < after.len() && j != at ==> after[j] == before[j]);
            assert forall|a: int, b: int| 0 <= a < b < after.len()
                implies (#[trigger] after[a]).name@ != (#[trigger] after[b]).name@ by {
                if a != at && b != at {
                    assert(before[a].name@ != before[b].name@);
                } else if a == at {
                    assert(after[b] == before[b]);
                    if found {
                        assert(before[at].name@ == key);
                        assert(before[at].name@ != before[b].name@);
                    }
                } else {
                    assert(after[a] == before[a]);
                    assert(before[a].name@ != key);
                }
            }
            lemma_lookup_unique(after, key);
            assert forall|other: Seq<char>| other != key
                implies lookup_from(after, other, 0) == lookup_from(before, other, 0) by {
                lemma_lookup_unique(after, other);
                lemma_lookup_unique(before, other);
                if exists|j: int| 0 <= j < before.len() && before[j].name@ == other {
                    let j = choose|j: int| 0 <= j < before.len() && before[j].name@ == other;
                    assert(j != at || !found);
                    if found {
                        assert(after[j] == before[j]);
                    } else {
                        assert(j < at);
                        assert(after[j] == before[j]);
                    }
                } else {
                    assert forall|j: int| 0 <= j < after.len() implies (#[trigger] after[j]).name@ != other by {
                        if j != at {
                            assert(after[j] == before[j]);
                        }
                    }
                }
            }
        }
    }

    /// The license names filed under the category `name`.
    pub open spec fn lookup(&self, name: Seq<char>) -> Option<Seq<Seq<char>>> {
        lookup_from(self.categories@, name, 0)
    }

    /// The license names filed under the category `authorized`.
    pub open spec fn authorized_names(&self) -> Option<Seq<Seq<char>>> {
        self.lookup("authorized"@)
    }

    /// The licenses filed under the category `name`, if the allowlist has it.
    pub fn category(&self, name: &str) -> (r: Option<&Vec<String>>)
        ensures
            match r {
                Some(v) => self.lookup(name@) == Some(names_of(v@)),
                None => self.lookup(name@) is None,
            },
    {
        let key = String::from_str(name);
        let mut i: usize = 0;
        while i < self.categories.len()
            invariant
                i <= self.categories.len(),
                key@ == name@,
                lookup_from(self.categories@, name@, 0) == lookup_from(self.categories@, name@, i as int),
            decreases self.categories.len() - i,
        {
            if self.categories[i].name == key {
                return Some(&self.categories[i].licenses);
            }
            i += 1;
        }
        None
    }

    /// The licenses filed under the category `authorized`, if the allowlist has it.
    pub fn authorized(&self) -> (r: Option<&Vec<String>>)
        ensures
            match r {
                Some(v) => self.authorized_names() == Some(names_of(v@)),
                None => self.authorized_names() is None,
            },
    {
        self.category("authorized")
    }
}

/// A name for what str::to_lowercase returns on a text.
pub uninterp spec fn lower_of(s: Seq<char>) -> Seq<char>;

/// Relies on str::to_lowercase: the lowercase form of a text, which depends
/// on its characters alone.
#[verifier::external_body]
fn to_lower(s: &str) -> (r: String)
    ensures
        r@ == lower_of(s@),
{
    s.to_lowercase()
}

/// Whether the license name `name` is accepted by the list `allowed`: it
/// stands there verbatim, or, when `fold` is set, in its lowercase form.
pub open spec fn license_accepted(allowed: Seq<Seq<char>>, name: Seq<char>, fold: bool) -> bool {
    if fold {
        allowed.contains(lower_of(name))
    } else {
        allowed.contains(name)
    }
}

/// Whether `candidate` stands, verbatim, among the names of `list`.
pub fn is_listed(list: &Vec<String>, candidate: &String) -> (r: bool)
    ensures
        r == names_of(list@).contains(candidate@),
{
    let mut i: usize = 0;
    while i < list.len()
        invariant
            i <= list.len(),
            forall|j: int| 0 <= j < i ==> list@[j]@ != candidate@,
        decreases list.len() - i,
    {
        if list[i] == *candidate {
            proof {
                assert(names_of(list@)[i as int] == candidate@);
            }
            return true;
        }
        i += 1;
    }
    proof {
        if names_of(list@).contains(candidate@) {
            let k = choose|k: int| 0 <= k < names_of(list@).len() && names_of(list@)[k] == candidate@;
            assert(list@[k]@ == candidate@);
        }
    }
    false
}

/// The verdict on a license name: whether the `authorized` category of the
/// allowlist holds it, verbatim or, with `lowercase`, in its lowercase form.
pub fn check_license(licenses: &AllowList, current_license: &str, lowercase: bool) -> (ok: bool)
    requires
        licenses.authorized_names() is Some,
    ensures
        ok == license_accepted(licenses.authorized_names()->Some_0, current_license@, lowercase),
{
    let authorized = match licenses.authorized() {
        Some(v) => v,
        None => {
            return false;
        },
    };
    if lowercase {
        let folded = to_lower(current_license);
        is_listed(authorized, &folded)
    } else {
        let verbatim = String::from_str(current_license);
        is_listed(authorized, &verbatim)
    }
}

} // verus!
