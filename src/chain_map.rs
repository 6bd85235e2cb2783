use vstd::prelude::*;

verus! {

/// A stack of frames, each mapping names to values. Lookups search from the
/// innermost (last) frame outwards; insertions go to the innermost frame.
///
/// Names are `String`s, compared by their characters. A frame is kept as a
/// list of entries, one per name; rebinding a name replaces its entry. The
/// model reads the last entry for a name, so it needs no invariant on the
/// list. (vstd gives `HashMap` no model of `String` keys, so a hash map
/// could not be reasoned about here.)
pub struct ChainMap<V> {
    maps: Vec<Vec<(String, V)>>,
}

/// The value that a frame's entries give a name, the latest entry winning.
pub open spec fn frame_get<V>(f: Seq<(String, V)>, k: Seq<char>) -> Option<V>
    decreases f.len(),
{
    if f.len() == 0 {
        None
    } else if f.last().0@ == k {
        Some(f.last().1)
    } else {
        frame_get(f.drop_last(), k)
    }
}

/// The map that a frame's entries stand for.
pub open spec fn frame_map<V>(f: Seq<(String, V)>) -> Map<Seq<char>, V> {
    Map::new(|k: Seq<char>| frame_get(f, k) is Some, |k: Seq<char>| frame_get(f, k)->Some_0)
}

/// The value bound to `k` in the innermost frame that binds it.
pub open spec fn chain_lookup<V>(frames: Seq<Map<Seq<char>, V>>, k: Seq<char>) -> Option<V>
    decreases frames.len(),
{
    if frames.len() == 0 {
        None
    } else if frames.last().contains_key(k) {
        Some(frames.last()[k])
    } else {
        chain_lookup(frames.drop_last(), k)
    }
}

impl<V> View for ChainMap<V> {
    type V = Seq<Map<Seq<char>, V>>;

    closed spec fn view(&self) -> Seq<Map<Seq<char>, V>> {
        self.maps@.map_values(|f: Vec<(String, V)>| frame_map(f@))
    }
}

proof fn lemma_frame_push<V>(f: Seq<(String, V)>, k: String, v: V)
    ensures
        frame_map(f.push((k, v))) == frame_map(f).insert(k@, v),
{
    assert forall|key: Seq<char>| frame_get(f.push((k, v)), key) == if key == k@ {
        Some(v)
    } else {
        frame_get(f, key)
    } by {
        assert(f.push((k, v)).drop_last() =~= f);
    }
    assert(frame_map(f.push((k, v))) =~= frame_map(f).insert(k@, v));
}

impl<V> ChainMap<V> {
    /// A chain with one empty frame.
    pub fn new() -> (r: Self)
        ensures
            r@ == seq![Map::<Seq<char>, V>::empty()],
    {
        let mut maps: Vec<Vec<(String, V)>> = Vec::new();
        maps.push(Vec::new());
        let r = ChainMap { maps };
        assert(frame_map(Seq::<(String, V)>::empty()) =~= Map::<Seq<char>, V>::empty());
        assert(r@ =~= seq![Map::<Seq<char>, V>::empty()]);
        r
    }

    /// The value of `key` in the innermost frame that binds it.
    pub fn get(&self, key: &String) -> (r: Option<&V>)
        ensures
            match r {
                Some(v) => chain_lookup(self@, key@) == Some(*v),
                None => chain_lookup(self@, key@) is None,
            },
    {
        let mut i = self.maps.len();
        assert(self@.subrange(0, i as int) =~= self@);
        while i > 0
            invariant
                i <= self.maps@.len(),
                self@.len() == self.maps@.len(),
                chain_lookup(self@, key@) == chain_lookup(self@.subrange(0, i as int), key@),
            decreases i,
        {
            let frame = &self.maps[i - 1];
            let ghost frames = self@.subrange(0, i as int);
            assert(frames.last() == frame_map(frame@));
            assert(frames.drop_last() =~= self@.subrange(0, i - 1));
            let mut j = frame.len();
            assert(frame@.subrange(0, j as int) =~= frame@);
            while j > 0
                invariant
                    j <= frame@.len(),
                    0 < i <= self.maps@.len(),
                    frames == self@.subrange(0, i as int),
                    frames.last() == frame_map(frame@),
                    chain_lookup(self@, key@) == chain_lookup(frames, key@),
                    frame_get(frame@, key@) == frame_get(frame@.subrange(0, j as int), key@),
                decreases j,
            {
                let entry = &frame[j - 1];
                assert(frame@.subrange(0, j as int).drop_last() =~= frame@.subrange(0, j - 1));
                if entry.0.eq(key) {
                    return Some(&entry.1);
                }
                j = j - 1;
            }
            assert(frame@.subrange(0, 0) =~= Seq::<(String, V)>::empty());
            i = i - 1;
        }
        None
    }

    /// Binds `key` to `value` in the innermost frame, and tells whether that
    /// frame bound `key` already.
    pub fn set(&mut self, key: String, value: V) -> (r: bool)
        requires
            old(self)@.len() > 0,
        ensures
            r == old(self)@.last().contains_key(key@),
            final(self)@ == old(self)@.update(
                old(self)@.len() - 1,
                old(self)@.last().insert(key@, value),
            ),
    {
        let ghost k = key@;
        let ghost f = self.maps@.last()@;
        let mut frame = match self.maps.pop() {
            Some(frame) => frame,
            None => Vec::new(),
        };
        let found = match find(&frame, &key) {
            Some(j) => {
                proof {
                    lemma_frame_replace(f, j as int, key, value);
                    lemma_frame_match(f, j as int, k);
                }
                frame.set(j, (key, value));
                true
            },
            None => {
                proof {
                    lemma_frame_push(f, key, value);
                }
                frame.push((key, value));
                false
            },
        };
        self.maps.push(frame);
        assert(self@ =~= old(self)@.update(old(self)@.len() - 1, old(self)@.last().insert(k, value)));
        found
    }

}

/// The position of the last entry for `key` in a frame, if any.
fn find<V>(frame: &Vec<(String, V)>, key: &String) -> (r: Option<usize>)
    ensures
        match r {
            Some(j) => j < frame@.len() && frame@[j as int].0@ == key@ && forall|i: int|
                j < i < frame@.len() ==> (#[trigger] frame@[i]).0@ != key@,
            None => frame_get(frame@, key@) is None,
        },
{
    let mut j = frame.len();
    assert(frame@.subrange(0, j as int) =~= frame@);
    while j > 0
        invariant
            j <= frame@.len(),
            frame_get(frame@, key@) == frame_get(frame@.subrange(0, j as int), key@),
            forall|i: int| j <= i < frame@.len() ==> (#[trigger] frame@[i]).0@ != key@,
        decreases j,
    {
        assert(frame@.subrange(0, j as int).drop_last() =~= frame@.subrange(0, j - 1));
        if frame[j - 1].0.eq(key) {
            return Some(j - 1);
        }
        j = j - 1;
    }
    None
}

proof fn lemma_frame_match<V>(f: Seq<(String, V)>, j: int, k: Seq<char>)
    requires
        0 <= j < f.len(),
        f[j].0@ == k,
    ensures
        frame_get(f, k) is Some,
    decreases f.len(),
{
    if j < f.len() - 1 && f.last().0@ != k {
        lemma_frame_match(f.drop_last(), j, k);
    }
}

proof fn lemma_frame_replace<V>(f: Seq<(String, V)>, j: int, key: String, v: V)
    requires
        0 <= j < f.len(),
        f[j].0@ == key@,
        forall|i: int| j < i < f.len() ==> (#[trigger] f[i]).0@ != key@,
    ensures
        frame_map(f.update(j, (key, v))) == frame_map(f).insert(key@, v),
{
    assert forall|k: Seq<char>| frame_get(f.update(j, (key, v)), k) == if k == key@ {
        Some(v)
    } else {
        frame_get(f, k)
    } by {
        lemma_frame_replace_get(f, j, key, v, k);
    }
    assert(frame_map(f.update(j, (key, v))) =~= frame_map(f).insert(key@, v));
}

proof fn lemma_frame_replace_get<V>(f: Seq<(String, V)>, j: int, key: String, v: V, k: Seq<char>)
    requires
        0 <= j < f.len(),
        f[j].0@ == key@,
        forall|i: int| j < i < f.len() ==> (#[trigger] f[i]).0@ != key@,
    ensures
        frame_get(f.update(j, (key, v)), k) == if k == key@ {
            Some(v)
        } else {
            frame_get(f, k)
        },
    decreases f.len(),
{
    let g = f.update(j, (key, v));
    if j == f.len() - 1 {
        assert(g.drop_last() =~= f.drop_last());
    } else {
        assert(g.drop_last() =~= f.drop_last().update(j, (key, v)));
        assert(f.last().0@ != key@);
        lemma_frame_replace_get(f.drop_last(), j, key, v, k);
    }
}

impl<V> ChainMap<V> {
    /// Whether the innermost frame binds `key`.
    pub fn binds_innermost(&self, key: &String) -> (r: bool)
        requires
            self@.len() > 0,
        ensures
            r == self@.last().contains_key(key@),
    {
        let found = find(&self.maps[self.maps.len() - 1], key);
        proof {
            if let Some(j) = found {
                lemma_frame_match(self.maps@.last()@, j as int, key@);
            }
        }
        found.is_some()
    }

    /// Enters a nested scope: pushes an empty innermost frame.
    pub fn push_map(&mut self)
        ensures
            final(self)@ == old(self)@.push(Map::empty()),
    {
        self.maps.push(Vec::new());
        assert(frame_map(Seq::<(String, V)>::empty()) =~= Map::<Seq<char>, V>::empty());
        assert(self@ =~= old(self)@.push(Map::empty()));
    }

    /// Leaves a nested scope: drops the innermost frame, if there is one.
    pub fn pop_map(&mut self)
        ensures
            final(self)@ == if old(self)@.len() > 0 {
                old(self)@.drop_last()
            } else {
                old(self)@
            },
    {
        self.maps.pop();
        assert(self@ =~= if old(self)@.len() > 0 {
            old(self)@.drop_last()
        } else {
            old(self)@
        });
    }
}

} // verus!
