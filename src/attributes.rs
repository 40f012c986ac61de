use vstd::prelude::*;

verus! {

/// A name paired with its value, as sequences of characters.
pub type Entry = (Seq<char>, Seq<char>);

/// The lowercase form of a string, as std's `str::to_lowercase` computes it.
pub uninterp spec fn lower_of(s: Seq<char>) -> Seq<char>;

/// The `Debug` rendering of a string: quoted, with special characters escaped.
pub uninterp spec fn debug_of(s: Seq<char>) -> Seq<char>;

/// Relies on std's `str::to_lowercase`: the result depends on the characters alone.
#[verifier::external_body]
fn lowercase(s: &str) -> (r: String)
    ensures
        r@ == lower_of(s@),
{
    s.to_lowercase()
}

/// Relies on std's `Debug` impl for `str`: the result depends on the characters alone.
#[verifier::external_body]
fn debug_text(s: &str) -> (r: String)
    ensures
        r@ == debug_of(s@),
{
    format!("{:?}", s)
}

/// `i` is the position of the first colon of `s`.
pub open spec fn is_first_colon(s: Seq<char>, i: int) -> bool {
    &&& 0 <= i < s.len()
    &&& s[i] == ':'
    &&& forall|j: int| 0 <= j < i ==> s[j] != ':'
}

/// A line split at its first colon into name and value; `None` for a line
/// without a colon.
pub open spec fn split_attribute(s: Seq<char>) -> Option<Entry> {
    if exists|i: int| is_first_colon(s, i) {
        let i = choose|i: int| is_first_colon(s, i);
        Some((s.subrange(0, i), s.subrange(i + 1, s.len() as int)))
    } else {
        None
    }
}

/// The value that the last entry named `k` holds.
pub open spec fn lookup(e: Seq<Entry>, k: Seq<char>) -> Option<Seq<char>>
    decreases e.len(),
{
    if e.len() == 0 {
        None
    } else if e.last().0 == k {
        Some(e.last().1)
    } else {
        lookup(e.drop_last(), k)
    }
}

pub open spec fn keys_unique(e: Seq<Entry>) -> bool {
    forall|i: int, j: int| 0 <= i < j < e.len() ==> e[i].0 != e[j].0
}

/// Sets the value of the entry named `k` in place, or appends a new entry.
pub open spec fn upsert(e: Seq<Entry>, k: Seq<char>, v: Seq<char>) -> Seq<Entry> {
    if exists|i: int| 0 <= i < e.len() && e[i].0 == k {
        e.update(choose|i: int| 0 <= i < e.len() && e[i].0 == k, (k, v))
    } else {
        e.push((k, v))
    }
}

/// The entries that the lines give, in order of first appearance of each
/// lowercase name, each with the value of its last line.
pub open spec fn attribute_entries(lines: Seq<Seq<char>>) -> Seq<Entry>
    decreases lines.len(),
{
    if lines.len() == 0 {
        Seq::empty()
    } else {
        let prev = attribute_entries(lines.drop_last());
        match split_attribute(lines.last()) {
            Some((n, v)) => upsert(prev, lower_of(n), v),
            None => prev,
        }
    }
}

pub open spec fn map_of(e: Seq<Entry>) -> Map<Seq<char>, Seq<char>> {
    Map::new(|k: Seq<char>| lookup(e, k) is Some, |k: Seq<char>| lookup(e, k)->0)
}

/// The attribute map that the lines give.
pub open spec fn attributes_of(lines: Seq<Seq<char>>) -> Map<Seq<char>, Seq<char>> {
    map_of(attribute_entries(lines))
}

pub open spec fn lines_of(data: Seq<String>) -> Seq<Seq<char>> {
    data.map_values(|s: String| s@)
}

pub open spec fn render_entry(p: Entry) -> Seq<char> {
    debug_of(p.0) + ": "@ + debug_of(p.1)
}

pub open spec fn render_entries(e: Seq<Entry>) -> Seq<char>
    decreases e.len(),
{
    if e.len() == 0 {
        Seq::empty()
    } else if e.len() == 1 {
        render_entry(e[0])
    } else {
        render_entries(e.drop_last()) + ", "@ + render_entry(e.last())
    }
}

/// The `Debug` rendering of a map with these entries, in their order.
pub open spec fn render_map(e: Seq<Entry>) -> Seq<char> {
    "{"@ + render_entries(e) + "}"@
}

proof fn lemma_lookup_index(e: Seq<Entry>, i: int)
    requires
        keys_unique(e),
        0 <= i < e.len(),
    ensures
        lookup(e, e[i].0) == Some(e[i].1),
    decreases e.len(),
{
    if i < e.len() - 1 {
        assert(e.drop_last()[i] == e[i]);
        lemma_lookup_index(e.drop_last(), i);
    }
}

proof fn lemma_lookup_absent(e: Seq<Entry>, k: Seq<char>)
    requires
        forall|i: int| 0 <= i < e.len() ==> e[i].0 != k,
    ensures
        lookup(e, k) is None,
    decreases e.len(),
{
    if e.len() > 0 {
        lemma_lookup_absent(e.drop_last(), k);
    }
}

proof fn lemma_upsert(e: Seq<Entry>, k: Seq<char>, v: Seq<char>)
    requires
        keys_unique(e),
    ensures
        keys_unique(upsert(e, k, v)),
        forall|k2: Seq<char>|
            #[trigger] lookup(upsert(e, k, v), k2) == if k2 == k {
                Some(v)
            } else {
                lookup(e, k2)
            },
{
    let u = upsert(e, k, v);
    if exists|i: int| 0 <= i < e.len() && e[i].0 == k {
        let i = choose|i: int| 0 <= i < e.len() && e[i].0 == k;
        assert(u == e.update(i, (k, v)));
        assert forall|a: int, b: int| 0 <= a < b < u.len() implies u[a].0 != u[b].0 by {
            assert(u[a].0 == e[a].0);
            assert(u[b].0 == e[b].0);
        }
        assert forall|k2: Seq<char>|
            #[trigger] lookup(u, k2) == if k2 == k {
                Some(v)
            } else {
                lookup(e, k2)
            } by {
            if k2 == k {
                lemma_lookup_index(u, i);
            } else if exists|j: int| 0 <= j < e.len() && e[j].0 == k2 {
                let j = choose|j: int| 0 <= j < e.len() && e[j].0 == k2;
                lemma_lookup_index(u, j);
                lemma_lookup_index(e, j);
            } else {
                lemma_lookup_absent(e, k2);
                assert forall|j: int| 0 <= j < u.len() implies u[j].0 != k2 by {
                    if j != i {
                        assert(u[j] == e[j]);
                    }
                }
                lemma_lookup_absent(u, k2);
            }
        }
    } else {
        assert(u == e.push((k, v)));
        assert(u.drop_last() =~= e);
    }
}

/// The entries that any lines give have unique names.
pub proof fn lemma_attribute_entries_unique(lines: Seq<Seq<char>>)
    ensures
        keys_unique(attribute_entries(lines)),
    decreases lines.len(),
{
    if lines.len() > 0 {
        lemma_attribute_entries_unique(lines.drop_last());
        if let Some((n, v)) = split_attribute(lines.last()) {
            lemma_upsert(attribute_entries(lines.drop_last()), lower_of(n), v);
        }
    }
}

/// Lines that hold no colon give no attribute at all.
pub proof fn lemma_no_colon_no_attributes(lines: Seq<Seq<char>>)
    requires
        forall|i: int| 0 <= i < lines.len() ==> !(#[trigger] lines[i]).contains(':'),
    ensures
        attribute_entries(lines) == Seq::<Entry>::empty(),
        attributes_of(lines) == Map::<Seq<char>, Seq<char>>::empty(),
    decreases lines.len(),
{
    if lines.len() > 0 {
        let init = lines.drop_last();
        assert forall|i: int| 0 <= i < init.len() implies !(#[trigger] init[i]).contains(':') by {
            assert(init[i] == lines[i]);
        }
        lemma_no_colon_no_attributes(init);
        let s = lines.last();
        assert(!s.contains(':'));
        assert(!exists|i: int| is_first_colon(s, i));
    }
    assert(attributes_of(lines) =~= Map::<Seq<char>, Seq<char>>::empty());
}

/// Tokenizing is a function of the lines: two maps built from the same lines
/// hold the same attributes.
pub proof fn lemma_tokenize_deterministic(lines: Seq<Seq<char>>, a: AttributeMap, b: AttributeMap)
    requires
        a.entries() == attribute_entries(lines),
        b.entries() == attribute_entries(lines),
    ensures
        a@ == b@,
        a@ == attributes_of(lines),
{
}

/// Of several lines whose names have the same lowercase form, the last one
/// gives the value.
pub proof fn lemma_last_line_wins(lines: Seq<Seq<char>>, j: int, n: Seq<char>, v: Seq<char>)
    requires
        0 <= j < lines.len(),
        split_attribute(lines[j]) == Some((n, v)),
        forall|k: int|
            j < k < lines.len() ==> match #[trigger] split_attribute(lines[k]) {
                Some((n2, _)) => lower_of(n2) != lower_of(n),
                None => true,
            },
    ensures
        attributes_of(lines).contains_key(lower_of(n)),
        attributes_of(lines)[lower_of(n)] == v,
    decreases lines.len(),
{
    let key = lower_of(n);
    let init = lines.drop_last();
    let prev = attribute_entries(init);
    lemma_attribute_entries_unique(init);
    if j == lines.len() - 1 {
        lemma_upsert(prev, key, v);
    } else {
        assert(init[j] == lines[j]);
        assert forall|k: int| j < k < init.len() implies match #[trigger] split_attribute(init[k]) {
            Some((n, _)) => lower_of(n) != key,
            None => true,
        } by {
            assert(init[k] == lines[k]);
            assert(split_attribute(lines[k]) == split_attribute(init[k]));
        }
        lemma_last_line_wins(init, j, n, v);
        let last = lines.len() - 1;
        assert(split_attribute(lines[last]) == split_attribute(lines.last()));
        if let Some((n2, v2)) = split_attribute(lines.last()) {
            lemma_upsert(prev, lower_of(n2), v2);
        }
    }
}

/// Splits a line at its first colon into name and value, keeping everything
/// after the colon as it stands; `None` where the line holds no colon.
pub fn parse_attribute(s: &str) -> (r: Option<(String, String)>)
    ensures
        match r {
            Some((n, v)) => split_attribute(s@) == Some((n@, v@)),
            None => split_attribute(s@) is None,
        },
{
    let len = s.unicode_len();
    let mut i: usize = 0;
    while i < len
        invariant
            i <= len,
            len == s@.len(),
            forall|j: int| 0 <= j < i ==> s@[j] != ':',
        decreases len - i,
    {
        if s.get_char(i) == ':' {
            let name = s.substring_char(0, i).to_owned();
            let value = s.substring_char(i + 1, len).to_owned();
            assert(is_first_colon(s@, i as int));
            assert forall|k: int| is_first_colon(s@, k) implies k == i by {
                if k < i {
                    assert(s@[k] != ':');
                } else if k > i {
                    assert(s@[i as int] != ':');
                }
            }
            return Some((name, value));
        }
        i += 1;
    }
    None
}

/// A map from lowercase attribute name to value; a later insert under the
/// same name replaces the value in place.
pub struct AttributeMap {
    entries: Vec<(String, String)>,
}

impl View for AttributeMap {
    type V = Map<Seq<char>, Seq<char>>;

    closed spec fn view(&self) -> Map<Seq<char>, Seq<char>> {
        map_of(self.entries())
    }
}

impl AttributeMap {
    /// The entries in order of first insertion.
    pub closed spec fn entries(&self) -> Seq<Entry> {
        self.entries@.map_values(|p: (String, String)| (p.0@, p.1@))
    }

    pub open spec fn wf(&self) -> bool {
        keys_unique(self.entries())
    }

    pub fn new() -> (r: AttributeMap)
        ensures
            r.wf(),
            r.entries() == Seq::<Entry>::empty(),
            r@ == Map::<Seq<char>, Seq<char>>::empty(),
    {
        let r = AttributeMap { entries: Vec::new() };
        assert(r.entries() =~= Seq::<Entry>::empty());
        assert(r@ =~= Map::<Seq<char>, Seq<char>>::empty());
        r
    }

    /// Sets the value under `name`, keeping the place of an earlier entry.
    pub fn insert(&mut self, name: String, value: String)
        requires
            old(self).wf(),
        ensures
            final(self).wf(),
            final(self).entries() == upsert(old(self).entries(), name@, value@),
            final(self)@ == old(self)@.insert(name@, value@),
    {
        let ghost e = self.entries();
        proof {
            lemma_upsert(e, name@, value@);
            assert(map_of(upsert(e, name@, value@)) =~= map_of(e).insert(name@, value@));
        }
        let n = self.entries.len();
        let mut i: usize = 0;
        while i < n
            invariant
                i <= n,
                n == self.entries.len(),
                e == self.entries(),
                e == old(self).entries(),
                keys_unique(e),
                map_of(upsert(e, name@, value@)) == map_of(e).insert(name@, value@),
                forall|j: int| 0 <= j < i ==> e[j].0 != name@,
            decreases n - i,
        {
            if self.entries[i].0 == name {
                assert(e[i as int].0 == name@);
                assert(exists|k: int| 0 <= k < e.len() && e[k].0 == name@);
                assert forall|k: int| 0 <= k < e.len() && e[k].0 == name@ implies k == i by {
                    if k > i {
                        assert(e[i as int].0 != e[k].0);
                    }
                }
                let ghost pair = (name@, value@);
                assert(upsert(e, name@, value@) == e.update(i as int, pair));
                self.entries.set(i, (name, value));
                assert(self.entries() =~= e.update(i as int, pair));
                return;
            }
            i += 1;
        }
        let ghost pair = (name@, value@);
        self.entries.push((name, value));
        assert(self.entries() =~= e.push(pair));
    }

    /// The value under `name`, if there is one.
    pub fn get(&self, name: &str) -> (r: Option<&String>)
        ensures
            match r {
                Some(v) => lookup(self.entries(), name@) == Some(v@),
                None => lookup(self.entries(), name@) is None,
            },
            match r {
                Some(v) => self@.contains_key(name@) && self@[name@] == v@,
                None => !self@.contains_key(name@),
            },
    {
        let key = String::from_str(name);
        let ghost e = self.entries();
        let mut i: usize = self.entries.len();
        assert(e.subrange(0, i as int) =~= e);
        while i > 0
            invariant
                i <= self.entries.len(),
                e == self.entries(),
                key@ == name@,
                lookup(e, name@) == lookup(e.subrange(0, i as int), name@),
            decreases i,
        {
            let ghost sub = e.subrange(0, i as int);
            assert(sub.drop_last() =~= e.subrange(0, i - 1));
            assert(sub.last() == e[i - 1]);
            assert(e[i - 1] == (self.entries@[i - 1].0@, self.entries@[i - 1].1@));
            if self.entries[i - 1].0 == key {
                return Some(&self.entries[i - 1].1);
            }
            i -= 1;
        }
        None
    }

    /// The `Debug` rendering of the map: `{"name": "value", ...}`.
    pub fn render(&self) -> (r: String)
        ensures
            r@ == render_map(self.entries()),
    {
        let ghost e = self.entries();
        let mut body = String::new();
        let n = self.entries.len();
        let mut i: usize = 0;
        assert(e.subrange(0, 0) =~= Seq::<Entry>::empty());
        while i < n
            invariant
                i <= n,
                n == self.entries.len(),
                e == self.entries(),
                body@ == render_entries(e.subrange(0, i as int)),
            decreases n - i,
        {
            let ghost prev = body@;
            if i > 0 {
                body.append(", ");
            }
            let k = debug_text(self.entries[i].0.as_str());
            let v = debug_text(self.entries[i].1.as_str());
            body.append(k.as_str());
            body.append(": ");
            body.append(v.as_str());
            let ghost sub = e.subrange(0, i + 1);
            assert(sub.drop_last() =~= e.subrange(0, i as int));
            assert(sub.last() == e[i as int]);
            if i > 0 {
                assert(body@ =~= prev + ", "@ + render_entry(e[i as int]));
            } else {
                assert(body@ =~= render_entry(e[i as int]));
            }
            i += 1;
        }
        assert(e.subrange(0, n as int) =~= e);
        let mut out = String::from_str("{");
        out.append(body.as_str());
        out.append("}");
        out
    }
}

/// Builds the attribute map of the lines: each line with a colon gives its
/// lowercase name and its value; a later line replaces an earlier value.
pub fn parse_attributes(data: &Vec<String>) -> (r: AttributeMap)
    ensures
        r.wf(),
        r.entries() == attribute_entries(lines_of(data@)),
        r@ == attributes_of(lines_of(data@)),
{
    let ghost lines = lines_of(data@);
    let mut map = AttributeMap::new();
    let n = data.len();
    let mut i: usize = 0;
    assert(lines.subrange(0, 0) =~= Seq::<Seq<char>>::empty());
    while i < n
        invariant
            i <= n,
            n == data.len(),
            lines == lines_of(data@),
            map.wf(),
            map.entries() == attribute_entries(lines.subrange(0, i as int)),
        decreases n - i,
    {
        let ghost sub = lines.subrange(0, i + 1);
        assert(sub.drop_last() =~= lines.subrange(0, i as int));
        assert(sub.last() == data[i as int]@);
        if let Some((name, value)) = parse_attribute(data[i].as_str()) {
            let key = lowercase(name.as_str());
            map.insert(key, value);
        }
        i += 1;
    }
    assert(lines.subrange(0, n as int) =~= lines);
    map
}

} // verus!
