//! The `params` table of a tool: string keys mapped to TOML values, held as
//! the plain values that the tools read (a string, an integer, or an array
//! whose entries are strings or something else).
use vstd::prelude::*;

verus! {

/// A TOML value as the tools read it.
#[derive(Debug, Clone, PartialEq)]
pub enum ParamValue {
    /// A TOML string.
    Str(String),
    /// A TOML integer.
    Integer(i64),
    /// A TOML array; each entry is its text when it is a string, `None` otherwise.
    Array(Vec<Option<String>>),
    /// Any other TOML value (float, boolean, datetime, table).
    Other,
}

/// The abstract value of a [`ParamValue`].
pub enum ParamView {
    Str(Seq<char>),
    Integer(i64),
    Array(Seq<Option<Seq<char>>>),
    Other,
}

/// The view of an optional string.
pub open spec fn opt_str_view(o: Option<String>) -> Option<Seq<char>> {
    match o {
        Some(s) => Some(s@),
        None => None,
    }
}

/// The views of a list of optional strings.
pub open spec fn opt_views(v: Seq<Option<String>>) -> Seq<Option<Seq<char>>> {
    v.map_values(|o: Option<String>| opt_str_view(o))
}

impl View for ParamValue {
    type V = ParamView;

    open spec fn view(&self) -> ParamView {
        match self {
            ParamValue::Str(s) => ParamView::Str(s@),
            ParamValue::Integer(i) => ParamView::Integer(*i),
            ParamValue::Array(items) => ParamView::Array(opt_views(items@)),
            ParamValue::Other => ParamView::Other,
        }
    }
}

/// An entry's copy of an optional string.
fn copy_opt_string(o: &Option<String>) -> (r: Option<String>)
    ensures
        opt_str_view(r) == opt_str_view(*o),
{
    match o {
        Some(s) => Some(s.clone()),
        None => None,
    }
}

impl ParamValue {
    /// The text of a string value.
    pub fn as_str(&self) -> (r: Option<&str>)
        ensures
            match self@ {
                ParamView::Str(s) => r matches Some(x) && x@ == s,
                _ => r is None,
            },
    {
        match self {
            ParamValue::Str(s) => Some(s.as_str()),
            _ => None,
        }
    }

    /// The number held by an integer value.
    pub fn as_integer(&self) -> (r: Option<i64>)
        ensures
            match self@ {
                ParamView::Integer(i) => r == Some(i),
                _ => r is None,
            },
    {
        match self {
            ParamValue::Integer(i) => Some(*i),
            _ => None,
        }
    }

    /// The entries of an array value.
    pub fn as_array(&self) -> (r: Option<&Vec<Option<String>>>)
        ensures
            match self@ {
                ParamView::Array(items) => r matches Some(v) && opt_views(v@) == items,
                _ => r is None,
            },
    {
        match self {
            ParamValue::Array(items) => Some(items),
            _ => None,
        }
    }

    /// A copy of this value.
    pub fn copy(&self) -> (r: ParamValue)
        ensures
            r@ == self@,
    {
        match self {
            ParamValue::Str(s) => ParamValue::Str(s.clone()),
            ParamValue::Integer(i) => ParamValue::Integer(*i),
            ParamValue::Array(items) => {
                let mut out: Vec<Option<String>> = Vec::new();
                for i in 0..items.len()
                    invariant
                        out@.len() == i,
                        forall|k: int|
                            0 <= k < i ==> opt_str_view(#[trigger] out@[k]) == opt_str_view(
                                items@[k],
                            ),
                {
                    out.push(copy_opt_string(&items[i]));
                }
                assert(opt_views(out@) =~= opt_views(items@));
                ParamValue::Array(out)
            },
            ParamValue::Other => ParamValue::Other,
        }
    }
}

/// The first value recorded for `key` in `entries`.
pub open spec fn lookup(entries: Seq<(Seq<char>, ParamView)>, key: Seq<char>) -> Option<ParamView>
    decreases entries.len(),
{
    if entries.len() == 0 {
        None
    } else if entries[0].0 == key {
        Some(entries[0].1)
    } else {
        lookup(entries.drop_first(), key)
    }
}

/// Skipping entries whose key differs from `key` does not change what `key` finds.
pub proof fn lemma_lookup_skip(s: Seq<(Seq<char>, ParamView)>, key: Seq<char>, i: int)
    requires
        0 <= i <= s.len(),
        forall|j: int| 0 <= j < i ==> (#[trigger] s[j]).0 != key,
    ensures
        lookup(s, key) == lookup(s.subrange(i, s.len() as int), key),
    decreases i,
{
    if i > 0 {
        assert(s[0].0 != key);
        let t = s.drop_first();
        assert forall|j: int| 0 <= j < i - 1 implies (#[trigger] t[j]).0 != key by {
            assert(t[j] == s[j + 1]);
        }
        lemma_lookup_skip(t, key, i - 1);
        assert(t.subrange(i - 1, t.len() as int) =~= s.subrange(i, s.len() as int));
    } else {
        assert(s.subrange(0, s.len() as int) =~= s);
    }
}

/// Two entry lists that agree wherever either holds `key` find the same value for it.
pub proof fn lemma_lookup_agree(
    s: Seq<(Seq<char>, ParamView)>,
    t: Seq<(Seq<char>, ParamView)>,
    key: Seq<char>,
)
    requires
        s.len() == t.len(),
        forall|j: int| 0 <= j < s.len() && (s[j].0 == key || t[j].0 == key) ==> s[j] == t[j],
    ensures
        lookup(s, key) == lookup(t, key),
    decreases s.len(),
{
    if s.len() > 0 {
        let s1 = s.drop_first();
        let t1 = t.drop_first();
        assert forall|j: int| 0 <= j < s1.len() && (s1[j].0 == key || t1[j].0 == key) implies s1[j]
            == t1[j] by {
            assert(s1[j] == s[j + 1] && t1[j] == t[j + 1]);
        }
        lemma_lookup_agree(s1, t1, key);
    }
}

/// What `key` finds after one more entry is appended.
pub proof fn lemma_lookup_push(
    s: Seq<(Seq<char>, ParamView)>,
    x: (Seq<char>, ParamView),
    key: Seq<char>,
)
    requires
        lookup(s, x.0) is None,
    ensures
        lookup(s.push(x), key) == (if key == x.0 {
            Some(x.1)
        } else {
            lookup(s, key)
        }),
    decreases s.len(),
{
    if s.len() == 0 {
        assert(s.push(x).drop_first() =~= s);
    } else {
        assert(s.push(x).drop_first() =~= s.drop_first().push(x));
        lemma_lookup_push(s.drop_first(), x, key);
    }
}

/// The key–value table of a tool's `params`.
#[derive(Debug, Clone, PartialEq)]
pub struct ParamMap {
    entries: Vec<(String, ParamValue)>,
}

/// The value under `key` in the map `m`, if any.
pub open spec fn get_param(m: Map<Seq<char>, ParamView>, key: Seq<char>) -> Option<ParamView> {
    if m.dom().contains(key) {
        Some(m[key])
    } else {
        None
    }
}

impl ParamMap {
    /// The entries by their views, in the order they are held.
    pub closed spec fn entry_views(&self) -> Seq<(Seq<char>, ParamView)> {
        self.entries@.map_values(|e: (String, ParamValue)| (e.0@, e.1@))
    }
}

impl View for ParamMap {
    type V = Map<Seq<char>, ParamView>;

    closed spec fn view(&self) -> Map<Seq<char>, ParamView> {
        Map::new(
            |k: Seq<char>| lookup(self.entry_views(), k) is Some,
            |k: Seq<char>| lookup(self.entry_views(), k)->0,
        )
    }
}

impl ParamMap {
    /// The empty table.
    pub fn new() -> (m: ParamMap)
        ensures
            m@ == Map::<Seq<char>, ParamView>::empty(),
    {
        let m = ParamMap { entries: Vec::new() };
        assert(m@ =~= Map::<Seq<char>, ParamView>::empty());
        m
    }

    /// The position of `key` among the entries, if present.
    fn position(&self, key: &str) -> (r: Option<usize>)
        ensures
            match r {
                Some(i) => i < self.entries@.len() && self.entries@[i as int].0@ == key@ && lookup(
                    self.entry_views(),
                    key@,
                ) == Some(self.entries@[i as int].1@) && forall|j: int|
                    0 <= j < i ==> (#[trigger] self.entry_views()[j]).0 != key@,
                None => lookup(self.entry_views(), key@) is None,
            },
    {
        let mut i: usize = 0;
        assert(self.entry_views().subrange(0, self.entries@.len() as int) =~= self.entry_views());
        while i < self.entries.len()
            invariant
                i <= self.entries@.len(),
                forall|j: int| 0 <= j < i ==> (#[trigger] self.entry_views()[j]).0 != key@,
                lookup(self.entry_views(), key@) == lookup(
                    self.entry_views().subrange(i as int, self.entries@.len() as int),
                    key@,
                ),
            decreases self.entries.len() - i,
        {
            let ghost tail = self.entry_views().subrange(i as int, self.entries@.len() as int);
            assert(tail[0] == (self.entries@[i as int].0@, self.entries@[i as int].1@));
            if crate::text::str_eq(self.entries[i].0.as_str(), key) {
                return Some(i);
            }
            assert(tail.drop_first() =~= self.entry_views().subrange(
                i + 1,
                self.entries@.len() as int,
            ));
            i += 1;
        }
        None
    }

    /// The value under `key`, if any (`HashMap::get`).
    pub fn get(&self, key: &str) -> (r: Option<&ParamValue>)
        ensures
            match r {
                Some(v) => get_param(self@, key@) == Some(v@),
                None => get_param(self@, key@) is None,
            },
    {
        assert(self.entry_views().subrange(0, self.entries@.len() as int) =~= self.entry_views());
        match self.position(key) {
            Some(i) => Some(&self.entries[i].1),
            None => None,
        }
    }

    /// Records `value` under `key`, replacing any earlier value.
    pub fn insert(&mut self, key: &str, value: ParamValue)
        ensures
            final(self)@ == old(self)@.insert(key@, value@),
    {
        assert(self.entry_views().subrange(0, self.entries@.len() as int) =~= self.entry_views());
        let ghost old_views = self.entry_views();
        let ghost old_map = self@;
        let ghost vv = value@;
        match self.position(key) {
            Some(i) => {
                let k = self.entries[i].0.clone();
                self.entries.set(i, (k, value));
                proof {
                    let nv = self.entry_views();
                    assert(nv =~= old_views.update(i as int, (key@, vv)));
                    assert forall|q: Seq<char>| lookup(nv, q) == (if q == key@ {
                        Some(vv)
                    } else {
                        lookup(old_views, q)
                    }) by {
                        if q == key@ {
                            lemma_lookup_skip(nv, q, i as int);
                            assert(nv.subrange(i as int, nv.len() as int)[0] == (key@, vv));
                        } else {
                            lemma_lookup_agree(old_views, nv, q);
                        }
                    }
                    assert(self@ =~= old_map.insert(key@, vv));
                }
            },
            None => {
                self.entries.push((key.to_owned(), value));
                proof {
                    let nv = self.entry_views();
                    assert(nv =~= old_views.push((key@, vv)));
                    assert forall|q: Seq<char>| lookup(nv, q) == (if q == key@ {
                        Some(vv)
                    } else {
                        lookup(old_views, q)
                    }) by {
                        lemma_lookup_push(old_views, (key@, vv), q);
                    }
                    assert(self@ =~= old_map.insert(key@, vv));
                }
            },
        }
    }

    /// A copy of this table.
    pub fn copy(&self) -> (r: ParamMap)
        ensures
            r@ == self@,
    {
        let mut out: Vec<(String, ParamValue)> = Vec::new();
        for i in 0..self.entries.len()
            invariant
                out@.len() == i,
                forall|k: int|
                    0 <= k < i ==> (#[trigger] out@[k]).0@ == self.entries@[k].0@ && out@[k].1@
                        == self.entries@[k].1@,
        {
            out.push((self.entries[i].0.clone(), self.entries[i].1.copy()));
        }
        let r = ParamMap { entries: out };
        assert(r.entry_views() =~= self.entry_views());
        r
    }
}

/// Reading a table after recording a value gives that value back under its
/// key, and leaves every other key as it was.
pub proof fn law_get_after_insert(m: ParamMap, key: Seq<char>, value: ParamValue, other: Seq<char>)
    ensures
        get_param(m@.insert(key, value@), key) == Some(value@),
        other != key ==> get_param(m@.insert(key, value@), other) == get_param(m@, other),
{
}

} // verus!
