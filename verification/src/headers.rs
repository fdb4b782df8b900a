//! An order-preserving header multimap with case-insensitive names.
//!
//! Header names are compared case-insensitively (ASCII); values keep their
//! original casing. Several fields may share one name; their relative order
//! is the insertion order. This is the one entity the transformation
//! pipeline mutates.

use vstd::prelude::*;
use vstd::seq_lib::*;
use crate::chars::eq_ignore_case;
use crate::chars::str_eq_ignore_case;

verus! {

/// One header field: a name and a value.
#[derive(Debug)]
pub struct HeaderField {
    pub name: String,
    pub value: String,
}

impl View for HeaderField {
    type V = (Seq<char>, Seq<char>);

    open spec fn view(&self) -> Self::V {
        (self.name@, self.value@)
    }
}

/// The mathematical model of a header multimap: the sequence of
/// (name, value) pairs in order.
pub type HeadersView = Seq<(Seq<char>, Seq<char>)>;

/// The field has the given name, up to ASCII case.
pub open spec fn name_is(e: (Seq<char>, Seq<char>), n: Seq<char>) -> bool {
    eq_ignore_case(e.0, n)
}

/// Some field carries this name.
pub open spec fn has_header(hs: HeadersView, n: Seq<char>) -> bool {
    exists|i: int| 0 <= i < hs.len() && name_is(#[trigger] hs[i], n)
}

/// The values of all fields with this name, in order.
pub open spec fn values_of(hs: HeadersView, n: Seq<char>) -> Seq<Seq<char>> {
    hs.filter(|e: (Seq<char>, Seq<char>)| name_is(e, n)).map_values(
        |e: (Seq<char>, Seq<char>)| e.1,
    )
}

/// The value of the first field with this name, if any.
pub open spec fn first_value(hs: HeadersView, n: Seq<char>) -> Option<Seq<char>>
    decreases hs.len(),
{
    if hs.len() == 0 {
        None
    } else if name_is(hs[0], n) {
        Some(hs[0].1)
    } else {
        first_value(hs.drop_first(), n)
    }
}

/// The multimap with every field of this name removed.
pub open spec fn without(hs: HeadersView, n: Seq<char>) -> HeadersView {
    hs.filter(|e: (Seq<char>, Seq<char>)| !name_is(e, n))
}

/// One more field extends the values of a name exactly when the names match.
pub proof fn lemma_values_of_push(hs: HeadersView, x: (Seq<char>, Seq<char>), n: Seq<char>)
    ensures
        name_is(x, n) ==> values_of(hs.push(x), n) == values_of(hs, n).push(x.1),
        !name_is(x, n) ==> values_of(hs.push(x), n) == values_of(hs, n),
{
    reveal(Seq::filter);
    assert(hs.push(x).drop_last() =~= hs);
    assert(hs.push(x).last() == x);
    if name_is(x, n) {
        assert(values_of(hs.push(x), n) =~= values_of(hs, n).push(x.1));
    } else {
        assert(values_of(hs.push(x), n) =~= values_of(hs, n));
    }
}

/// Removing a name commutes with adding one more field.
pub proof fn lemma_without_push(hs: HeadersView, x: (Seq<char>, Seq<char>), n: Seq<char>)
    ensures
        !name_is(x, n) ==> without(hs.push(x), n) == without(hs, n).push(x),
        name_is(x, n) ==> without(hs.push(x), n) == without(hs, n),
{
    reveal(Seq::filter);
    assert(hs.push(x).drop_last() =~= hs);
    assert(hs.push(x).last() == x);
}

/// A front-to-back search may step past an index whose field does not
/// carry the name: the first value ahead of it is unchanged.
proof fn lemma_first_value_skip(hs: HeadersView, n: Seq<char>, i: int)
    requires
        0 <= i < hs.len(),
        !name_is(hs[i], n),
    ensures
        first_value(hs.skip(i), n) == first_value(hs.skip(i + 1), n),
{
    assert(hs.skip(i).len() > 0);
    assert(hs.skip(i)[0] == hs[i]);
    assert(hs.skip(i).drop_first() =~= hs.skip(i + 1));
}

/// The name occurs in the list, up to ASCII case.
pub open spec fn name_in_list(n: Seq<char>, ns: Seq<Seq<char>>) -> bool {
    exists|j: int| 0 <= j < ns.len() && eq_ignore_case(n, #[trigger] ns[j])
}

/// The multimap with every field carrying one of the listed names removed.
pub open spec fn without_any(hs: HeadersView, ns: Seq<Seq<char>>) -> HeadersView {
    hs.filter(|e: (Seq<char>, Seq<char>)| !name_in_list(e.0, ns))
}

/// Removing a list of names commutes with adding one more field.
pub proof fn lemma_without_any_push(hs: HeadersView, x: (Seq<char>, Seq<char>), ns: Seq<Seq<char>>)
    ensures
        !name_in_list(x.0, ns) ==> without_any(hs.push(x), ns) == without_any(hs, ns).push(x),
        name_in_list(x.0, ns) ==> without_any(hs.push(x), ns) == without_any(hs, ns),
{
    reveal(Seq::filter);
    assert(hs.push(x).drop_last() =~= hs);
    assert(hs.push(x).last() == x);
}

/// The first value after adding a field at the end: an earlier field of the
/// name still wins; the new field counts only when none was there.
pub proof fn lemma_first_value_push(hs: HeadersView, x: (Seq<char>, Seq<char>), n: Seq<char>)
    ensures
        first_value(hs.push(x), n) == if first_value(hs, n) is Some {
            first_value(hs, n)
        } else if name_is(x, n) {
            Some(x.1)
        } else {
            None
        },
    decreases hs.len(),
{
    if hs.len() == 0 {
        assert(hs.push(x)[0] == x);
        assert(hs.push(x).drop_first() =~= Seq::<(Seq<char>, Seq<char>)>::empty());
    } else {
        assert(hs.push(x)[0] == hs[0]);
        assert(hs.push(x).drop_first() =~= hs.drop_first().push(x));
        lemma_first_value_push(hs.drop_first(), x, n);
    }
}

/// A name has a first value exactly when the multimap has the name.
pub proof fn lemma_first_value_some_iff_has(hs: HeadersView, n: Seq<char>)
    ensures
        first_value(hs, n) is Some <==> has_header(hs, n),
    decreases hs.len(),
{
    if hs.len() > 0 {
        lemma_first_value_some_iff_has(hs.drop_first(), n);
        if !name_is(hs[0], n) {
            assert forall|i: int| 0 <= i < hs.len() && name_is(#[trigger] hs[i], n) implies
                has_header(hs.drop_first(), n) by {
                assert(hs.drop_first()[i - 1] == hs[i]);
            }
            assert forall|i: int|
                0 <= i < hs.drop_first().len() && name_is(#[trigger] hs.drop_first()[i], n) implies
                has_header(hs, n) by {
                assert(hs[i + 1] == hs.drop_first()[i]);
            }
        }
    }
}

/// After removing a name, the multimap no longer has it.
pub proof fn lemma_without_not_has(hs: HeadersView, n: Seq<char>)
    ensures
        !has_header(without(hs, n), n),
        first_value(without(hs, n), n) is None,
{
    broadcast use vstd::seq_lib::group_filter_ensures;

    lemma_first_value_some_iff_has(without(hs, n), n);
}

/// Removing one name leaves the values of a different name unchanged.
pub proof fn lemma_without_other_values(hs: HeadersView, n: Seq<char>, m: Seq<char>)
    requires
        !eq_ignore_case(n, m),
    ensures
        values_of(without(hs, n), m) == values_of(hs, m),
        first_value(without(hs, n), m) == first_value(hs, m),
    decreases hs.len(),
{
    reveal(Seq::filter);
    if hs.len() == 0 {
        assert(without(hs, n) =~= hs);
    } else {
        lemma_without_other_values(hs.drop_last(), n, m);
        assert(hs.drop_last().push(hs.last()) =~= hs);
        lemma_without_push(hs.drop_last(), hs.last(), n);
        lemma_values_of_push(hs.drop_last(), hs.last(), m);
        if !name_is(hs.last(), n) {
            lemma_values_of_push(without(hs.drop_last(), n), hs.last(), m);
            lemma_first_value_push(without(hs.drop_last(), n), hs.last(), m);
        }
        lemma_first_value_push(hs.drop_last(), hs.last(), m);
    }
}

/// A name has values exactly when the multimap has the name.
pub proof fn lemma_values_of_empty_iff(hs: HeadersView, n: Seq<char>)
    ensures
        values_of(hs, n).len() == 0 <==> !has_header(hs, n),
    decreases hs.len(),
{
    if hs.len() > 0 {
        lemma_values_of_empty_iff(hs.drop_last(), n);
        assert(hs.drop_last().push(hs.last()) =~= hs);
        lemma_values_of_push(hs.drop_last(), hs.last(), n);
        if name_is(hs.last(), n) {
            assert(name_is(hs[hs.len() - 1], n));
        } else {
            assert forall|i: int| 0 <= i < hs.len() && name_is(#[trigger] hs[i], n) implies
                has_header(hs.drop_last(), n) by {
                assert(hs.drop_last()[i] == hs[i]);
            }
            assert forall|i: int|
                0 <= i < hs.drop_last().len() && name_is(
                    #[trigger] hs.drop_last()[i],
                    n,
                ) implies has_header(hs, n) by {
                assert(hs[i] == hs.drop_last()[i]);
            }
        }
    }
}

/// After removing a list of names, the multimap has none of them.
pub proof fn lemma_without_any_not_has(hs: HeadersView, ns: Seq<Seq<char>>, n: Seq<char>)
    requires
        name_in_list(n, ns),
    ensures
        !has_header(without_any(hs, ns), n),
{
    broadcast use vstd::seq_lib::group_filter_ensures;

    let ws = without_any(hs, ns);
    assert forall|i: int| 0 <= i < ws.len() implies !name_is(#[trigger] ws[i], n) by {
        assert(!name_in_list(ws[i].0, ns));
        let j = choose|j: int| 0 <= j < ns.len() && eq_ignore_case(n, #[trigger] ns[j]);
        if name_is(ws[i], n) {
            assert(eq_ignore_case(ws[i].0, ns[j]));
        }
    }
}

/// Removing a list of names leaves the values of any other name unchanged.
pub proof fn lemma_without_any_other_values(hs: HeadersView, ns: Seq<Seq<char>>, m: Seq<char>)
    requires
        !name_in_list(m, ns),
    ensures
        values_of(without_any(hs, ns), m) == values_of(hs, m),
        first_value(without_any(hs, ns), m) == first_value(hs, m),
    decreases hs.len(),
{
    reveal(Seq::filter);
    if hs.len() == 0 {
        assert(without_any(hs, ns) =~= hs);
    } else {
        lemma_without_any_other_values(hs.drop_last(), ns, m);
        assert(hs.drop_last().push(hs.last()) =~= hs);
        lemma_without_any_push(hs.drop_last(), hs.last(), ns);
        lemma_values_of_push(hs.drop_last(), hs.last(), m);
        lemma_first_value_push(hs.drop_last(), hs.last(), m);
        if name_is(hs.last(), m) && name_in_list(hs.last().0, ns) {
            let j = choose|j: int|
                0 <= j < ns.len() && eq_ignore_case(hs.last().0, #[trigger] ns[j]);
            assert(eq_ignore_case(m, ns[j]));
            assert(false);
        }
        if !name_in_list(hs.last().0, ns) {
            lemma_values_of_push(without_any(hs.drop_last(), ns), hs.last(), m);
            lemma_first_value_push(without_any(hs.drop_last(), ns), hs.last(), m);
        }
    }
}

/// Whether the name equals one of the listed names, up to ASCII case.
fn name_matches_any(name: &str, names: &[&str]) -> (b: bool)
    ensures
        b == name_in_list(name@, names@.map_values(|s: &str| s@)),
{
    let ghost ns = names@.map_values(|s: &str| s@);
    let n = names.len();
    let mut j: usize = 0;
    while j < n
        invariant
            n == names@.len(),
            ns == names@.map_values(|s: &str| s@),
            0 <= j <= n,
            forall|k: int| 0 <= k < j ==> !eq_ignore_case(name@, #[trigger] ns[k]),
        decreases n - j,
    {
        if str_eq_ignore_case(name, names[j]) {
            proof {
                assert(ns[j as int] == names@[j as int]@);
            }
            return true;
        }
        proof {
            assert(ns[j as int] == names@[j as int]@);
        }
        j += 1;
    }
    false
}

/// An order-preserving header multimap with case-insensitive names.
#[derive(Debug)]
pub struct HeaderMultimap {
    fields: Vec<HeaderField>,
}

impl View for HeaderMultimap {
    type V = HeadersView;

    closed spec fn view(&self) -> Self::V {
        self.fields@.map_values(|f: HeaderField| f@)
    }
}

impl Clone for HeaderMultimap {
    /// A copy with the same fields in the same order.
    fn clone(&self) -> (r: Self)
        ensures
            r@ == self@,
    {
        let n = self.fields.len();
        let mut fields: Vec<HeaderField> = Vec::new();
        let mut i: usize = 0;
        while i < n
            invariant
                n == self@.len(),
                0 <= i <= n,
                fields@.len() == i,
                forall|k: int| 0 <= k < i ==> #[trigger] fields@[k]@ == self@[k],
            decreases n - i,
        {
            fields.push(
                HeaderField {
                    name: self.fields[i].name.clone(),
                    value: self.fields[i].value.clone(),
                },
            );
            proof {
                assert(self@[i as int] == (self.fields@[i as int].name@,
                    self.fields@[i as int].value@));
            }
            i += 1;
        }
        let r = HeaderMultimap { fields };
        proof {
            assert(r@ =~= self@);
        }
        r
    }
}

impl HeaderMultimap {
    /// An empty multimap.
    pub fn new() -> (h: HeaderMultimap)
        ensures
            h@ == Seq::<(Seq<char>, Seq<char>)>::empty(),
    {
        let h = HeaderMultimap { fields: Vec::new() };
        proof {
            assert(h@ =~= Seq::<(Seq<char>, Seq<char>)>::empty());
        }
        h
    }

    /// The number of fields.
    pub fn len(&self) -> (n: usize)
        ensures
            n == self@.len(),
    {
        self.fields.len()
    }

    /// The name of the field at an index.
    pub fn name_at(&self, i: usize) -> (r: &String)
        requires
            i < self@.len(),
        ensures
            r@ == self@[i as int].0,
    {
        &self.fields[i].name
    }

    /// The value of the field at an index.
    pub fn value_at(&self, i: usize) -> (r: &String)
        requires
            i < self@.len(),
        ensures
            r@ == self@[i as int].1,
    {
        &self.fields[i].value
    }

    /// Adds a field at the end, after any fields of the same name.
    pub fn append(&mut self, name: &str, value: &str)
        ensures
            final(self)@ == old(self)@.push((name@, value@)),
    {
        let f = HeaderField { name: name.to_owned(), value: value.to_owned() };
        self.fields.push(f);
        proof {
            assert(final(self)@ =~= old(self)@.push((name@, value@)));
        }
    }

    /// Whether any field carries this name.
    pub fn contains_name(&self, name: &str) -> (b: bool)
        ensures
            b == has_header(self@, name@),
    {
        let n = self.fields.len();
        let mut i: usize = 0;
        while i < n
            invariant
                n == self@.len(),
                0 <= i <= n,
                forall|k: int| 0 <= k < i ==> !name_is(#[trigger] self@[k], name@),
            decreases n - i,
        {
            if str_eq_ignore_case(self.fields[i].name.as_str(), name) {
                proof {
                    assert(self@[i as int] == (self.fields@[i as int].name@,
                        self.fields@[i as int].value@));
                    assert(name_is(self@[i as int], name@));
                }
                return true;
            }
            i += 1;
        }
        false
    }

    /// The value of the first field with this name, if any.
    pub fn get_first(&self, name: &str) -> (r: Option<String>)
        ensures
            r matches Some(v) ==> first_value(self@, name@) == Some(v@),
            r is None ==> first_value(self@, name@) is None,
    {
        let n = self.fields.len();
        let mut i: usize = 0;
        proof {
            assert(self@.skip(0) =~= self@);
        }
        while i < n
            invariant
                n == self@.len(),
                0 <= i <= n,
                first_value(self@.skip(i as int), name@) == first_value(self@, name@),
            decreases n - i,
        {
            if str_eq_ignore_case(self.fields[i].name.as_str(), name) {
                proof {
                    assert(self@.skip(i as int)[0] == self@[i as int]);
                }
                return Some(self.fields[i].value.clone());
            }
            proof {
                lemma_first_value_skip(self@, name@, i as int);
            }
            i += 1;
        }
        proof {
            assert(self@.skip(n as int) =~= Seq::<(Seq<char>, Seq<char>)>::empty());
        }
        None
    }

    /// The values of all fields with this name, in order.
    pub fn get_all(&self, name: &str) -> (r: Vec<String>)
        ensures
            r@.map_values(|v: String| v@) == values_of(self@, name@),
    {
        let n = self.fields.len();
        let mut out: Vec<String> = Vec::new();
        let mut i: usize = 0;
        while i < n
            invariant
                n == self@.len(),
                0 <= i <= n,
                out@.map_values(|v: String| v@) == values_of(self@.subrange(0, i as int), name@),
            decreases n - i,
        {
            proof {
                assert(self@[i as int] == (self.fields@[i as int].name@,
                    self.fields@[i as int].value@));
                assert(self@.subrange(0, i as int).push(self@[i as int]) =~= self@.subrange(
                    0,
                    i + 1,
                ));
                lemma_values_of_push(self@.subrange(0, i as int), self@[i as int], name@);
                lemma_without_push(self@.subrange(0, i as int), self@[i as int], name@);
            }
            if str_eq_ignore_case(self.fields[i].name.as_str(), name) {
                out.push(self.fields[i].value.clone());
                proof {
                    assert(out@.map_values(|v: String| v@) =~= values_of(
                        self@.subrange(0, i + 1),
                        name@,
                    ));
                }
            } else {
                proof {
                    assert(out@.map_values(|v: String| v@) =~= values_of(
                        self@.subrange(0, i + 1),
                        name@,
                    ));
                }
            }
            i += 1;
        }
        proof {
            assert(self@.subrange(0, n as int) =~= self@);
        }
        out
    }

    /// Removes every field with this name.
    pub fn remove_all(&mut self, name: &str)
        ensures
            final(self)@ == without(old(self)@, name@),
    {
        let n = self.fields.len();
        let mut kept: Vec<HeaderField> = Vec::new();
        let mut i: usize = 0;
        while i < n
            invariant
                n == old(self)@.len(),
                self@ == old(self)@,
                0 <= i <= n,
                kept@.map_values(|f: HeaderField| f@) == without(
                    old(self)@.subrange(0, i as int),
                    name@,
                ),
            decreases n - i,
        {
            proof {
                assert(self@[i as int] == (self.fields@[i as int].name@,
                    self.fields@[i as int].value@));
                assert(self@.subrange(0, i as int).push(self@[i as int]) =~= self@.subrange(
                    0,
                    i + 1,
                ));
                lemma_values_of_push(self@.subrange(0, i as int), self@[i as int], name@);
                lemma_without_push(self@.subrange(0, i as int), self@[i as int], name@);
            }
            if !str_eq_ignore_case(self.fields[i].name.as_str(), name) {
                kept.push(
                    HeaderField {
                        name: self.fields[i].name.clone(),
                        value: self.fields[i].value.clone(),
                    },
                );
                proof {
                    assert(kept@.map_values(|f: HeaderField| f@) =~= without(
                        self@.subrange(0, i + 1),
                        name@,
                    ));
                }
            } else {
                proof {
                    assert(kept@.map_values(|f: HeaderField| f@) =~= without(
                        self@.subrange(0, i + 1),
                        name@,
                    ));
                }
            }
            i += 1;
        }
        proof {
            assert(old(self)@.subrange(0, n as int) =~= old(self)@);
        }
        self.fields = kept;
    }

    /// Removes every field whose name is one of the listed names.
    pub fn remove_names(&mut self, names: &[&str])
        ensures
            final(self)@ == without_any(old(self)@, names@.map_values(|s: &str| s@)),
    {
        let ghost ns = names@.map_values(|s: &str| s@);
        let n = self.fields.len();
        let mut kept: Vec<HeaderField> = Vec::new();
        let mut i: usize = 0;
        while i < n
            invariant
                n == old(self)@.len(),
                self@ == old(self)@,
                ns == names@.map_values(|s: &str| s@),
                0 <= i <= n,
                kept@.map_values(|f: HeaderField| f@) == without_any(
                    old(self)@.subrange(0, i as int),
                    ns,
                ),
            decreases n - i,
        {
            proof {
                assert(self@[i as int] == (self.fields@[i as int].name@,
                    self.fields@[i as int].value@));
                assert(self@.subrange(0, i as int).push(self@[i as int]) =~= self@.subrange(
                    0,
                    i + 1,
                ));
                lemma_without_any_push(self@.subrange(0, i as int), self@[i as int], ns);
            }
            if !name_matches_any(self.fields[i].name.as_str(), names) {
                kept.push(
                    HeaderField {
                        name: self.fields[i].name.clone(),
                        value: self.fields[i].value.clone(),
                    },
                );
                proof {
                    assert(kept@.map_values(|f: HeaderField| f@) =~= without_any(
                        self@.subrange(0, i + 1),
                        ns,
                    ));
                }
            } else {
                proof {
                    assert(kept@.map_values(|f: HeaderField| f@) =~= without_any(
                        self@.subrange(0, i + 1),
                        ns,
                    ));
                }
            }
            i += 1;
        }
        proof {
            assert(old(self)@.subrange(0, n as int) =~= old(self)@);
        }
        self.fields = kept;
    }

    /// Replaces every field of this name by a single one at the end.
    pub fn insert(&mut self, name: &str, value: &str)
        ensures
            final(self)@ == without(old(self)@, name@).push((name@, value@)),
    {
        self.remove_all(name);
        self.append(name, value);
    }

    /// Adds the field only when no field of this name exists yet.
    pub fn insert_if_absent(&mut self, name: &str, value: &str)
        ensures
            final(self)@ == if has_header(old(self)@, name@) {
                old(self)@
            } else {
                old(self)@.push((name@, value@))
            },
    {
        if !self.contains_name(name) {
            self.append(name, value);
        }
    }
}

} // verus!
