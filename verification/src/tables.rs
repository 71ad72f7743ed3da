//! String-keyed association tables with a `Map` view: the label table built
//! at parse time (name to resolved address) and the constants table
//! (name to decimal value string).

use crate::text::str_eq;
use vstd::prelude::*;

verus! {

/// The map an entry list denotes; an earlier entry shadows a later one with
/// the same key.
pub open spec fn addr_map_of(entries: Seq<(Seq<char>, u32)>) -> Map<Seq<char>, u32>
    decreases entries.len(),
{
    if entries.len() == 0 {
        Map::empty()
    } else {
        addr_map_of(entries.drop_first()).insert(entries.first().0, entries.first().1)
    }
}

/// The first index whose entry holds the key, or -1.
pub open spec fn find_addr_key(entries: Seq<(Seq<char>, u32)>, key: Seq<char>) -> int
    decreases entries.len(),
{
    if entries.len() == 0 {
        -1
    } else if entries.first().0 == key {
        0
    } else {
        let r = find_addr_key(entries.drop_first(), key);
        if r < 0 {
            -1
        } else {
            r + 1
        }
    }
}

proof fn lemma_addr_find(entries: Seq<(Seq<char>, u32)>, key: Seq<char>)
    ensures
        find_addr_key(entries, key) < 0 ==> !addr_map_of(entries).contains_key(key),
        find_addr_key(entries, key) >= 0 ==> {
            &&& find_addr_key(entries, key) < entries.len()
            &&& addr_map_of(entries).contains_key(key)
            &&& entries[find_addr_key(entries, key)].0 == key
            &&& addr_map_of(entries)[key] == entries[find_addr_key(entries, key)].1
            &&& forall|j: int| 0 <= j < find_addr_key(entries, key) ==> (#[trigger] entries[j]).0 != key
        },
    decreases entries.len(),
{
    if entries.len() > 0 {
        lemma_addr_find(entries.drop_first(), key);
        if entries.first().0 != key {
            let r = find_addr_key(entries.drop_first(), key);
            if r >= 0 {
                assert(entries[r + 1] == entries.drop_first()[r]);
                assert(forall|j: int|
                    1 <= j < r + 1 ==> (#[trigger] entries[j]) == entries.drop_first()[j - 1]);
            }
        }
    }
}

proof fn lemma_addr_update_first(entries: Seq<(Seq<char>, u32)>, i: int, k: Seq<char>, v: u32)
    requires
        0 <= i < entries.len(),
        entries[i].0 == k,
        forall|j: int| 0 <= j < i ==> (#[trigger] entries[j]).0 != k,
    ensures
        addr_map_of(entries.update(i, (k, v))) == addr_map_of(entries).insert(k, v),
    decreases entries.len(),
{
    let upd = entries.update(i, (k, v));
    if i == 0 {
        assert(upd.drop_first() =~= entries.drop_first());
        assert(addr_map_of(upd) =~= addr_map_of(entries).insert(k, v));
    } else {
        assert(upd.drop_first() =~= entries.drop_first().update(i - 1, (k, v)));
        assert(entries.drop_first()[i - 1].0 == k);
        assert(forall|j: int|
            0 <= j < i - 1 ==> (#[trigger] entries.drop_first()[j]).0 != k);
        lemma_addr_update_first(entries.drop_first(), i - 1, k, v);
        assert(entries.first().0 != k);
        assert(addr_map_of(upd) =~= addr_map_of(entries).insert(k, v));
    }
}

proof fn lemma_addr_push_absent(entries: Seq<(Seq<char>, u32)>, k: Seq<char>, v: u32)
    requires
        forall|j: int| 0 <= j < entries.len() ==> (#[trigger] entries[j]).0 != k,
    ensures
        addr_map_of(entries.push((k, v))) == addr_map_of(entries).insert(k, v),
    decreases entries.len(),
{
    let ext = entries.push((k, v));
    if entries.len() == 0 {
        assert(ext.drop_first() =~= Seq::<(Seq<char>, u32)>::empty());
        assert(ext.first() == (k, v));
        assert(addr_map_of(ext) == addr_map_of(ext.drop_first()).insert(k, v));
        assert(addr_map_of(ext.drop_first()) =~= Map::<Seq<char>, u32>::empty());
        assert(addr_map_of(ext) =~= addr_map_of(entries).insert(k, v));
    } else {
        assert(ext.drop_first() =~= entries.drop_first().push((k, v)));
        assert(forall|j: int|
            0 <= j < entries.drop_first().len() ==> (#[trigger] entries.drop_first()[j]).0 != k);
        lemma_addr_push_absent(entries.drop_first(), k, v);
        assert(entries.first().0 != k);
        assert(addr_map_of(ext) =~= addr_map_of(entries).insert(k, v));
    }
}

proof fn lemma_addr_contains_of_entry(entries: Seq<(Seq<char>, u32)>, j: int)
    requires
        0 <= j < entries.len(),
    ensures
        addr_map_of(entries).contains_key(entries[j].0),
    decreases entries.len(),
{
    if j == 0 {
    } else {
        lemma_addr_contains_of_entry(entries.drop_first(), j - 1);
        assert(entries.drop_first()[j - 1] == entries[j]);
    }
}

pub open spec fn addr_entry_views(s: Seq<(String, u32)>) -> Seq<(Seq<char>, u32)> {
    s.map_values(|p: (String, u32)| (p.0@, p.1))
}

/// An ordered map from label name to resolved address: a data-segment byte
/// offset for data labels, an instruction index for text labels.
#[derive(Debug, Clone)]
pub struct LabelTable {
    entries: Vec<(String, u32)>,
}

impl View for LabelTable {
    type V = Map<Seq<char>, u32>;

    closed spec fn view(&self) -> Map<Seq<char>, u32> {
        addr_map_of(addr_entry_views(self.entries@))
    }
}

impl LabelTable {
    pub fn new() -> (t: LabelTable)
        ensures
            t@ == Map::<Seq<char>, u32>::empty(),
    {
        let t = LabelTable { entries: Vec::new() };
        proof {
            assert(addr_entry_views(t.entries@) =~= Seq::<(Seq<char>, u32)>::empty());
        }
        t
    }

    /// The address bound to a name, if any.
    pub fn get(&self, key: &str) -> (r: Option<u32>)
        ensures
            r == if self@.contains_key(key@) {
                Some(self@[key@])
            } else {
                None::<u32>
            },
    {
        let ghost views = addr_entry_views(self.entries@);
        let mut i: usize = 0;
        let n = self.entries.len();
        while i < n
            invariant
                n == self.entries@.len(),
                i <= n,
                views == addr_entry_views(self.entries@),
                forall|j: int| 0 <= j < i ==> (#[trigger] views[j]).0 != key@,
            decreases n - i,
        {
            if str_eq(self.entries[i].0.as_str(), key) {
                proof {
                    assert(views.len() == n);
                    assert(views[i as int].0 == key@);
                    lemma_addr_find(views, key@);
                    lemma_addr_contains_of_entry(views, i as int);
                    let f = find_addr_key(views, key@);
                    assert(f >= 0);
                    if 0 <= f < i {
                        assert(views[f].0 != key@);
                    }
                    if f > i {
                        assert(views[i as int].0 != key@);
                    }
                    assert(f == i);
                }
                return Some(self.entries[i].1);
            }
            i = i + 1;
        }
        proof {
            assert(views.len() == n);
            lemma_addr_find(views, key@);
            let f = find_addr_key(views, key@);
            if f >= 0 {
                assert(views[f].0 == key@);
                assert(views[f].0 != key@);
            }
        }
        None
    }

    /// Binds a name to an address, replacing any earlier binding.
    pub fn insert(&mut self, key: String, value: u32)
        ensures
            final (self)@ == old(self)@.insert(key@, value),
    {
        let ghost views = addr_entry_views(self.entries@);
        let mut i: usize = 0;
        let n = self.entries.len();
        while i < n
            invariant
                n == self.entries@.len(),
                i <= n,
                self.entries@ == old(self).entries@,
                views == addr_entry_views(self.entries@),
                forall|j: int| 0 <= j < i ==> (#[trigger] views[j]).0 != key@,
            decreases n - i,
        {
            if str_eq(self.entries[i].0.as_str(), key.as_str()) {
                proof {
                    assert(views.len() == n);
                    assert(views[i as int] == (
                        self.entries@[i as int].0@,
                        self.entries@[i as int].1@,
                    ));
                    assert(views[i as int].0 == key@);
                }
                self.entries.set(i, (key, value));
                proof {
                    assert(addr_entry_views(self.entries@) =~= views.update(
                        i as int,
                        (key@, value),
                    ));
                    lemma_addr_update_first(views, i as int, key@, value);
                    assert(addr_map_of(addr_entry_views(self.entries@)) == addr_map_of(
                        views.update(i as int, (key@, value)),
                    ));
                    assert(self@ == old(self)@.insert(key@, value));
                }
                return ;
            }
            i = i + 1;
        }
        let ghost key_view = key@;
        self.entries.push((key, value));
        proof {
            assert(views.len() == n);
            assert(addr_entry_views(self.entries@) =~= views.push((key_view, value)));
            lemma_addr_push_absent(views, key_view, value);
        }
    }
}

/// The map a constants entry list denotes, value strings by name.
pub open spec fn const_map_of(entries: Seq<(Seq<char>, Seq<char>)>) -> Map<Seq<char>, Seq<char>>
    decreases entries.len(),
{
    if entries.len() == 0 {
        Map::empty()
    } else {
        const_map_of(entries.drop_first()).insert(entries.first().0, entries.first().1)
    }
}

/// The first index whose entry holds the key, or -1.
pub open spec fn find_const_key(entries: Seq<(Seq<char>, Seq<char>)>, key: Seq<char>) -> int
    decreases entries.len(),
{
    if entries.len() == 0 {
        -1
    } else if entries.first().0 == key {
        0
    } else {
        let r = find_const_key(entries.drop_first(), key);
        if r < 0 {
            -1
        } else {
            r + 1
        }
    }
}

proof fn lemma_const_find(entries: Seq<(Seq<char>, Seq<char>)>, key: Seq<char>)
    ensures
        find_const_key(entries, key) < 0 ==> !const_map_of(entries).contains_key(key),
        find_const_key(entries, key) >= 0 ==> {
            &&& find_const_key(entries, key) < entries.len()
            &&& const_map_of(entries).contains_key(key)
            &&& entries[find_const_key(entries, key)].0 == key
            &&& const_map_of(entries)[key] == entries[find_const_key(entries, key)].1
            &&& forall|j: int|
                0 <= j < find_const_key(entries, key) ==> (#[trigger] entries[j]).0 != key
        },
    decreases entries.len(),
{
    if entries.len() > 0 {
        lemma_const_find(entries.drop_first(), key);
        if entries.first().0 != key {
            let r = find_const_key(entries.drop_first(), key);
            if r >= 0 {
                assert(entries[r + 1] == entries.drop_first()[r]);
                assert(forall|j: int|
                    1 <= j < r + 1 ==> (#[trigger] entries[j]) == entries.drop_first()[j - 1]);
            }
        }
    }
}

proof fn lemma_const_update_first(
    entries: Seq<(Seq<char>, Seq<char>)>,
    i: int,
    k: Seq<char>,
    v: Seq<char>,
)
    requires
        0 <= i < entries.len(),
        entries[i].0 == k,
        forall|j: int| 0 <= j < i ==> (#[trigger] entries[j]).0 != k,
    ensures
        const_map_of(entries.update(i, (k, v))) == const_map_of(entries).insert(k, v),
    decreases entries.len(),
{
    let upd = entries.update(i, (k, v));
    if i == 0 {
        assert(upd.drop_first() =~= entries.drop_first());
        assert(const_map_of(upd) =~= const_map_of(entries).insert(k, v));
    } else {
        assert(upd.drop_first() =~= entries.drop_first().update(i - 1, (k, v)));
        assert(entries.drop_first()[i - 1].0 == k);
        assert(forall|j: int|
            0 <= j < i - 1 ==> (#[trigger] entries.drop_first()[j]).0 != k);
        lemma_const_update_first(entries.drop_first(), i - 1, k, v);
        assert(entries.first().0 != k);
        assert(const_map_of(upd) =~= const_map_of(entries).insert(k, v));
    }
}

proof fn lemma_const_push_absent(
    entries: Seq<(Seq<char>, Seq<char>)>,
    k: Seq<char>,
    v: Seq<char>,
)
    requires
        forall|j: int| 0 <= j < entries.len() ==> (#[trigger] entries[j]).0 != k,
    ensures
        const_map_of(entries.push((k, v))) == const_map_of(entries).insert(k, v),
    decreases entries.len(),
{
    let ext = entries.push((k, v));
    if entries.len() == 0 {
        assert(ext.drop_first() =~= Seq::<(Seq<char>, Seq<char>)>::empty());
        assert(ext.first() == (k, v));
        assert(const_map_of(ext) == const_map_of(ext.drop_first()).insert(k, v));
        assert(const_map_of(ext.drop_first()) =~= Map::<Seq<char>, Seq<char>>::empty());
        assert(const_map_of(ext) =~= const_map_of(entries).insert(k, v));
    } else {
        assert(ext.drop_first() =~= entries.drop_first().push((k, v)));
        assert(forall|j: int|
            0 <= j < entries.drop_first().len() ==> (#[trigger] entries.drop_first()[j]).0 != k);
        lemma_const_push_absent(entries.drop_first(), k, v);
        assert(entries.first().0 != k);
        assert(const_map_of(ext) =~= const_map_of(entries).insert(k, v));
    }
}

pub open spec fn const_entry_views(s: Seq<(String, String)>) -> Seq<(Seq<char>, Seq<char>)> {
    s.map_values(|p: (String, String)| (p.0@, p.1@))
}

proof fn lemma_const_views_pointwise(
    a: Seq<(String, String)>,
    expected: Seq<(Seq<char>, Seq<char>)>,
)
    requires
        expected.len() == a.len(),
        forall|j: int|
            0 <= j < a.len() ==> (#[trigger] expected[j]) == ((#[trigger] a[j]).0@, a[j].1@),
    ensures
        const_entry_views(a) == expected,
{
    assert forall|j: int| 0 <= j < a.len() implies const_entry_views(a)[j] == expected[j] by {
        assert(const_entry_views(a)[j] == (a[j].0@, a[j].1@));
    }
    assert(const_entry_views(a) =~= expected);
}

/// The constants table: `NAME = integer` definitions, value kept as the
/// decimal string it will be substituted as.
#[derive(Debug)]
pub struct ConstTable {
    entries: Vec<(String, String)>,
}

impl View for ConstTable {
    type V = Map<Seq<char>, Seq<char>>;

    closed spec fn view(&self) -> Map<Seq<char>, Seq<char>> {
        const_map_of(const_entry_views(self.entries@))
    }
}

impl ConstTable {
    pub fn new() -> (t: ConstTable)
        ensures
            t@ == Map::<Seq<char>, Seq<char>>::empty(),
    {
        let t = ConstTable { entries: Vec::new() };
        proof {
            assert(const_entry_views(t.entries@) =~= Seq::<(Seq<char>, Seq<char>)>::empty());
        }
        t
    }

    /// The value string bound to a name, if any.
    pub fn get(&self, key: &str) -> (r: Option<&String>)
        ensures
            match r {
                Some(v) => self@.contains_key(key@) && v@ == self@[key@],
                None => !self@.contains_key(key@),
            },
    {
        let ghost views = const_entry_views(self.entries@);
        let mut i: usize = 0;
        let n = self.entries.len();
        while i < n
            invariant
                n == self.entries@.len(),
                i <= n,
                views == const_entry_views(self.entries@),
                forall|j: int| 0 <= j < i ==> (#[trigger] views[j]).0 != key@,
            decreases n - i,
        {
            if str_eq(self.entries[i].0.as_str(), key) {
                proof {
                    assert(views.len() == n);
                    assert(views[i as int].0 == key@);
                    lemma_const_find(views, key@);
                    lemma_const_contains_of_entry(views, i as int);
                    let f = find_const_key(views, key@);
                    assert(f >= 0);
                    if 0 <= f < i {
                        assert(views[f].0 != key@);
                    }
                    if f > i {
                        assert(views[i as int].0 != key@);
                    }
                    assert(f == i);
                }
                return Some(&self.entries[i].1);
            }
            i = i + 1;
        }
        proof {
            assert(views.len() == n);
            lemma_const_find(views, key@);
            let f = find_const_key(views, key@);
            if f >= 0 {
                assert(views[f].0 == key@);
                assert(views[f].0 != key@);
            }
        }
        None
    }

    /// Binds a name to a value string, replacing any earlier binding.
    pub fn insert(&mut self, key: String, value: String)
        ensures
            final (self)@ == old(self)@.insert(key@, value@),
    {
        let ghost views = const_entry_views(self.entries@);
        let ghost key_view = key@;
        let ghost value_view = value@;
        let mut i: usize = 0;
        let n = self.entries.len();
        while i < n
            invariant
                n == self.entries@.len(),
                i <= n,
                self.entries@ == old(self).entries@,
                views == const_entry_views(self.entries@),
                key@ == key_view,
                value@ == value_view,
                forall|j: int| 0 <= j < i ==> (#[trigger] views[j]).0 != key@,
            decreases n - i,
        {
            if str_eq(self.entries[i].0.as_str(), key.as_str()) {
                proof {
                    assert(views.len() == n);
                    assert(views[i as int] == (
                        self.entries@[i as int].0@,
                        self.entries@[i as int].1@,
                    ));
                    assert(views[i as int].0 == key@);
                }
                self.entries.set(i, (key, value));
                proof {
                    assert(self.entries@[i as int].0@ == key_view);
                    assert(self.entries@[i as int].1@ == value_view);
                    let expected = views.update(i as int, (key_view, value_view));
                    assert(expected.len() == self.entries@.len());
                    assert forall|j: int| 0 <= j < self.entries@.len() implies (
                    #[trigger] expected[j]) == ((#[trigger] self.entries@[j]).0@,
                        self.entries@[j].1@,
                    ) by {
                        if j != i {
                            assert(self.entries@[j] == old(self).entries@[j]);
                            assert(expected[j] == views[j]);
                            assert(views[j] == (
                                old(self).entries@[j].0@,
                                old(self).entries@[j].1@,
                            ));
                        } else {
                            assert(expected[j] == (key_view, value_view));
                            assert(self.entries@[j].0@ == key_view);
                            assert(self.entries@[j].1@ == value_view);
                        }
                    }
                    lemma_const_views_pointwise(self.entries@, expected);
                    lemma_const_update_first(views, i as int, key_view, value_view);
                }
                return ;
            }
            i = i + 1;
        }
        self.entries.push((key, value));
        proof {
            assert(self.entries@[n as int].0@ == key_view);
            assert(self.entries@[n as int].1@ == value_view);
            assert(views.len() == n);
            let expected = views.push((key_view, value_view));
            assert(expected.len() == self.entries@.len());
            assert forall|j: int| 0 <= j < self.entries@.len() implies (#[trigger] expected[j])
                == ((#[trigger] self.entries@[j]).0@, self.entries@[j].1@) by {
                if j < n {
                    assert(self.entries@[j] == old(self).entries@[j]);
                    assert(expected[j] == views[j]);
                    assert(views[j] == (old(self).entries@[j].0@, old(self).entries@[j].1@));
                } else {
                    assert(expected[j] == (key_view, value_view));
                    assert(self.entries@[j].0@ == key_view);
                    assert(self.entries@[j].1@ == value_view);
                }
            }
            lemma_const_views_pointwise(self.entries@, expected);
            lemma_const_push_absent(views, key_view, value_view);
        }
    }
}

proof fn lemma_const_contains_of_entry(entries: Seq<(Seq<char>, Seq<char>)>, j: int)
    requires
        0 <= j < entries.len(),
    ensures
        const_map_of(entries).contains_key(entries[j].0),
    decreases entries.len(),
{
    if j == 0 {
    } else {
        lemma_const_contains_of_entry(entries.drop_first(), j - 1);
        assert(entries.drop_first()[j - 1] == entries[j]);
    }
}

} // verus!
